//! Client messages and their wire format.
//!
//! A frame starts with a tag byte. Tag 0 is a gesture: finger count, modifier
//! count, start x and start y in hundredths, a shape tag, and for a swipe one
//! byte per stroke. Tag 1 is a braille combination and tag 2 a change of input
//! mode, each with exactly one byte after the tag.

use vstd::prelude::*;
use crate::gesture::{Direction, Gesture, GestureShape, GestureShapeView, GestureView};

verus! {

/// How the client takes input.
#[derive(Clone, Copy, Debug, PartialEq, Eq, Structural)]
pub enum InputMode {
    Standard,
    Braille,
}

/// One decoded message of a client.
#[derive(Debug, PartialEq, Eq)]
pub enum ClientMessage {
    Gesture(Gesture),
    /// A six-dot combination, 0 to 63: bit `k` is dot `k + 1`.
    Braille(u8),
    InputMode(InputMode),
}

/// The mathematical value of a [`ClientMessage`].
pub enum ClientMessageView {
    Gesture(GestureView),
    Braille(u8),
    InputMode(InputMode),
}

impl View for ClientMessage {
    type V = ClientMessageView;

    open spec fn view(&self) -> ClientMessageView {
        match self {
            ClientMessage::Gesture(gesture) => ClientMessageView::Gesture(gesture@),
            ClientMessage::Braille(combination) => ClientMessageView::Braille(*combination),
            ClientMessage::InputMode(mode) => ClientMessageView::InputMode(*mode),
        }
    }
}

impl Clone for ClientMessage {
    fn clone(&self) -> (copy: Self)
        ensures
            copy@ == self@,
    {
        match self {
            ClientMessage::Gesture(gesture) => ClientMessage::Gesture(gesture.clone()),
            ClientMessage::Braille(combination) => ClientMessage::Braille(*combination),
            ClientMessage::InputMode(mode) => ClientMessage::InputMode(*mode),
        }
    }
}

/// Why a frame was rejected.
#[derive(Clone, Copy, Debug, PartialEq, Eq, Structural)]
pub enum DecodeError {
    /// The frame has no bytes.
    Empty,
    /// A gesture frame of this many bytes is too short to hold a gesture.
    GestureTooShort(usize),
    /// A swipe without any stroke.
    MissingDirections,
    /// This byte of a swipe is no direction.
    InvalidDirection(u8),
    /// This shape tag is unknown.
    UnknownShape(u8),
    /// A braille or input-mode frame of this many bytes; it must have two.
    WrongLength(usize),
    /// This braille combination is above 63.
    InvalidCombination(u8),
    /// This input mode is unknown.
    UnknownInputMode(u8),
    /// This message tag is unknown.
    UnknownMessage(u8),
}

/// The direction that a byte of a swipe stands for.
pub open spec fn direction_of(byte: u8) -> Option<Direction> {
    if byte == 0 {
        Some(Direction::Left)
    } else if byte == 1 {
        Some(Direction::Right)
    } else if byte == 2 {
        Some(Direction::Up)
    } else if byte == 3 {
        Some(Direction::Down)
    } else {
        None
    }
}

/// The first byte of `data` that stands for no direction.
pub open spec fn first_unknown_direction(data: Seq<u8>) -> Option<u8>
    decreases data.len(),
{
    if data.len() == 0 {
        None
    } else if direction_of(data.first()) is None {
        Some(data.first())
    } else {
        first_unknown_direction(data.drop_first())
    }
}

/// The strokes that the bytes of `data` stand for.
pub open spec fn directions_of(data: Seq<u8>) -> Seq<Direction> {
    data.map_values(|byte: u8| direction_of(byte).unwrap())
}

/// The shape that a gesture frame holds from its shape tag on.
pub open spec fn decode_shape(bytes: Seq<u8>) -> Result<GestureShapeView, DecodeError>
    recommends
        bytes.len() >= 6,
{
    let tag = bytes[5];
    if tag == 0 {
        if bytes.len() < 7 {
            Err(DecodeError::MissingDirections)
        } else {
            match first_unknown_direction(bytes.skip(6)) {
                Some(byte) => Err(DecodeError::InvalidDirection(byte)),
                None => Ok(GestureShapeView::Swipe(directions_of(bytes.skip(6)))),
            }
        }
    } else if tag == 1 {
        Ok(GestureShapeView::Tap)
    } else if tag == 2 {
        Ok(GestureShapeView::Touch)
    } else {
        Err(DecodeError::UnknownShape(tag))
    }
}

/// The message that a frame holds, or why the frame is rejected.
pub open spec fn decode(bytes: Seq<u8>) -> Result<ClientMessageView, DecodeError> {
    if bytes.len() == 0 {
        Err(DecodeError::Empty)
    } else if bytes[0] == 0 {
        if bytes.len() < 6 {
            Err(DecodeError::GestureTooShort(bytes.len() as usize))
        } else {
            match decode_shape(bytes) {
                Ok(shape) => Ok(
                    ClientMessageView::Gesture(
                        GestureView {
                            finger_count: bytes[1] as int,
                            modifier_count: bytes[2] as int,
                            start_x: bytes[3] as int,
                            start_y: bytes[4] as int,
                            shape,
                        },
                    ),
                ),
                Err(error) => Err(error),
            }
        }
    } else if bytes[0] == 1 {
        if bytes.len() != 2 {
            Err(DecodeError::WrongLength(bytes.len() as usize))
        } else if bytes[1] > 63 {
            Err(DecodeError::InvalidCombination(bytes[1]))
        } else {
            Ok(ClientMessageView::Braille(bytes[1]))
        }
    } else if bytes[0] == 2 {
        if bytes.len() != 2 {
            Err(DecodeError::WrongLength(bytes.len() as usize))
        } else if bytes[1] == 0 {
            Ok(ClientMessageView::InputMode(InputMode::Standard))
        } else if bytes[1] == 1 {
            Ok(ClientMessageView::InputMode(InputMode::Braille))
        } else {
            Err(DecodeError::UnknownInputMode(bytes[1]))
        }
    } else {
        Err(DecodeError::UnknownMessage(bytes[0]))
    }
}

/// The view of a decoding result.
pub open spec fn decoded(result: Result<ClientMessage, DecodeError>) -> Result<
    ClientMessageView,
    DecodeError,
> {
    match result {
        Ok(message) => Ok(message@),
        Err(error) => Err(error),
    }
}

/// Reads the strokes of a swipe from `bytes[6..]`.
fn decode_directions(bytes: &Vec<u8>) -> (result: Result<Vec<Direction>, DecodeError>)
    requires
        bytes@.len() >= 6,
    ensures
        match result {
            Ok(directions) => first_unknown_direction(bytes@.skip(6)) is None && directions@
                == directions_of(bytes@.skip(6)),
            Err(error) => first_unknown_direction(bytes@.skip(6)) matches Some(byte) && error
                == DecodeError::InvalidDirection(byte),
        },
{
    let ghost data = bytes@.skip(6);
    let mut directions: Vec<Direction> = Vec::new();
    let mut i: usize = 6;
    while i < bytes.len()
        invariant
            6 <= i <= bytes@.len(),
            data == bytes@.skip(6),
            first_unknown_direction(data) == first_unknown_direction(bytes@.skip(i as int)),
            directions@ == directions_of(data.take(i - 6)),
        decreases bytes.len() - i,
    {
        let byte = bytes[i];
        proof {
            assert(bytes@.skip(i as int).first() == byte);
            assert(bytes@.skip(i as int).drop_first() == bytes@.skip(i + 1));
            assert(data.take(i + 1 - 6) == data.take(i - 6).push(byte));
            assert(directions_of(data.take(i + 1 - 6)) == directions_of(data.take(i - 6)).push(
                direction_of(byte).unwrap(),
            ));
        }
        let direction = if byte == 0 {
            Direction::Left
        } else if byte == 1 {
            Direction::Right
        } else if byte == 2 {
            Direction::Up
        } else if byte == 3 {
            Direction::Down
        } else {
            return Err(DecodeError::InvalidDirection(byte));
        };
        directions.push(direction);
        i = i + 1;
    }
    assert(data.take(bytes@.len() - 6) == data);
    Ok(directions)
}

impl ClientMessage {
    /// Decodes one frame.
    pub fn from_bytes(bytes: &Vec<u8>) -> (result: Result<ClientMessage, DecodeError>)
        ensures
            decoded(result) == decode(bytes@),
    {
        if bytes.len() == 0 {
            return Err(DecodeError::Empty);
        }
        let tag = bytes[0];
        if tag == 0 {
            if bytes.len() < 6 {
                return Err(DecodeError::GestureTooShort(bytes.len()));
            }
            let finger_count = bytes[1] as i32;
            let modifier_count = bytes[2] as i32;
            let start_x = bytes[3];
            let start_y = bytes[4];
            let shape_tag = bytes[5];
            let shape = if shape_tag == 0 {
                if bytes.len() < 7 {
                    return Err(DecodeError::MissingDirections);
                }
                match decode_directions(bytes) {
                    Ok(directions) => GestureShape::Swipe(directions),
                    Err(error) => {
                        return Err(error);
                    },
                }
            } else if shape_tag == 1 {
                GestureShape::Tap
            } else if shape_tag == 2 {
                GestureShape::Touch
            } else {
                return Err(DecodeError::UnknownShape(shape_tag));
            };
            Ok(
                ClientMessage::Gesture(
                    Gesture::new(finger_count, modifier_count, start_x, start_y, shape),
                ),
            )
        } else if tag == 1 {
            if bytes.len() != 2 {
                Err(DecodeError::WrongLength(bytes.len()))
            } else if bytes[1] > 63 {
                Err(DecodeError::InvalidCombination(bytes[1]))
            } else {
                Ok(ClientMessage::Braille(bytes[1]))
            }
        } else if tag == 2 {
            if bytes.len() != 2 {
                Err(DecodeError::WrongLength(bytes.len()))
            } else if bytes[1] == 0 {
                Ok(ClientMessage::InputMode(InputMode::Standard))
            } else if bytes[1] == 1 {
                Ok(ClientMessage::InputMode(InputMode::Braille))
            } else {
                Err(DecodeError::UnknownInputMode(bytes[1]))
            }
        } else {
            Err(DecodeError::UnknownMessage(tag))
        }
    }
}

} // verus!
