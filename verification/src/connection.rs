//! What one client connection decides: whether a frame authenticates the
//! client, and whether it holds a message to hand to the execution engine.

use vstd::prelude::*;
use crate::message::{decode, ClientMessage, ClientMessageView};
use crate::text::same_text;

verus! {

/// One frame that a client sent.
#[derive(Debug, PartialEq, Eq)]
pub enum Frame {
    Text(String),
    Binary(Vec<u8>),
    /// Any other kind of frame.
    Other,
}

/// The mathematical value of a [`Frame`].
pub enum FrameView {
    Text(Seq<char>),
    Binary(Seq<u8>),
    Other,
}

impl View for Frame {
    type V = FrameView;

    open spec fn view(&self) -> FrameView {
        match self {
            Frame::Text(text) => FrameView::Text(text@),
            Frame::Binary(bytes) => FrameView::Binary(bytes@),
            Frame::Other => FrameView::Other,
        }
    }
}

/// The secret that a client sends as a text frame to authenticate.
pub open spec fn shared_secret() -> Seq<char> {
    "random_password"@
}

/// What a connection does with a frame, given whether the client is
/// authenticated: whether it is authenticated afterwards, and the message to
/// hand on, if any.
///
/// A text frame that is the shared secret authenticates the client. A binary
/// frame of an authenticated client is decoded, and handed on if it decodes.
/// Every other frame is dropped. Nothing ends the authentication.
pub open spec fn received(authenticated: bool, frame: FrameView) -> (
    bool,
    Option<ClientMessageView>,
) {
    match frame {
        FrameView::Text(text) => (authenticated || text == shared_secret(), None),
        FrameView::Binary(bytes) => (
            authenticated,
            if authenticated {
                match decode(bytes) {
                    Ok(message) => Some(message),
                    Err(_) => None,
                }
            } else {
                None
            },
        ),
        FrameView::Other => (authenticated, None),
    }
}

/// The view of a message, if there is one.
pub open spec fn message_view(message: Option<ClientMessage>) -> Option<ClientMessageView> {
    match message {
        Some(message) => Some(message@),
        None => None,
    }
}

/// The state of one client connection.
#[derive(Debug)]
pub struct Connection {
    pub(crate) authenticated: bool,
}

impl View for Connection {
    type V = bool;

    open(crate) spec fn view(&self) -> bool {
        self.authenticated
    }
}

impl Connection {
    /// A connection whose client is not authenticated yet.
    pub fn new() -> (connection: Connection)
        ensures
            !connection@,
    {
        Connection { authenticated: false }
    }

    /// Whether the client is authenticated.
    pub fn is_authenticated(&self) -> (authenticated: bool)
        ensures
            authenticated == self@,
    {
        self.authenticated
    }

    /// Takes one frame of the client and answers with the message to hand to
    /// the execution engine, if the frame holds one and the client may send it.
    pub fn receive(&mut self, frame: &Frame) -> (message: Option<ClientMessage>)
        ensures
            (final(self)@, message_view(message)) == received(old(self)@, frame@),
    {
        match frame {
            Frame::Text(text) => {
                if same_text(text.as_str(), "random_password") {
                    self.authenticated = true;
                }
                None
            },
            Frame::Binary(bytes) => {
                if !self.authenticated {
                    return None;
                }
                match ClientMessage::from_bytes(bytes) {
                    Ok(message) => Some(message),
                    Err(_) => None,
                }
            },
            Frame::Other => None,
        }
    }
}

} // verus!
