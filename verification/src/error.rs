//! What can be wrong with a configuration.

use vstd::prelude::*;

verus! {

/// A configuration that cannot be linked or run.
#[derive(Clone, Copy, Debug, PartialEq, Eq, Structural)]
pub enum ConfigError {
    /// A ring names an action that does not exist.
    ActionNotFound(i32),
    /// A slot binding names a ring that does not exist.
    RingNotFound(i32),
    /// The default action of a slot binding is not among the actions of its ring.
    DefaultActionNotInRing { binding: i32, ring: i32, action: i32 },
    /// A command binding names a command that does not exist.
    CommandNotFound(i32),
    /// There is no scheme to activate.
    MissingDefaultScheme,
    /// A braille scheme has no mapping named `default`.
    MissingDefaultMapping,
}

} // verus!
