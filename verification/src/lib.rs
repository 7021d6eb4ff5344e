//! Binding resolution and key execution for a remote gesture-to-keystroke bridge.
//!
//! Remote touch surfaces send swipes, taps and six-dot braille combinations.
//! This library turns each of them, according to a binding configuration, into
//! the key events to inject on the host, and keeps the state that spans events:
//! the action each cycling slot points to, the stack of braille mapping layers,
//! and the modifier keys that are held down.
//!
//! The library neither reads files nor injects keys nor talks to clients. It
//! takes plain values and answers with plain values; a server around it does
//! the rest.
//!
//! - [`operation`] compiles shortcut texts into operations; [`key`] holds the
//!   vocabulary of keys and modifiers.
//! - [`model`], [`ring`], [`binding`] and [`settings`] are the binding model
//!   and its link step.
//! - [`braille`] reads mapping scripts and runs the stack of mapping layers.
//! - [`gesture`] classifies swipes; [`message`] decodes client frames;
//!   [`connection`] decides what a connection hands on.
//! - [`key_executor`] tracks held modifiers; [`executor`] is the engine that
//!   brings all of it together.
//! - [`host`] gives the address to listen on; [`text`] and [`lookup`] are
//!   helpers; [`error`] names what can be wrong with a configuration.

pub mod text;
pub mod lookup;
pub mod error;
pub mod key;
pub mod operation;
pub mod gesture;
pub mod message;
pub mod connection;
pub mod key_executor;
pub mod model;
pub mod ring;
pub mod binding;
pub mod braille;
pub mod settings;
pub mod executor;
pub mod host;
