use rbridge::gesture::{Direction, Gesture, GestureShape};
use rbridge::message::{ClientMessage, DecodeError, InputMode};

#[test]
fn a_swipe_frame_decodes() {
    let message = ClientMessage::from_bytes(&vec![0, 1, 2, 50, 10, 0, 0, 1, 2, 3]).unwrap();
    assert_eq!(
        message,
        ClientMessage::Gesture(Gesture::new(
            1,
            2,
            50,
            10,
            GestureShape::Swipe(vec![
                Direction::Left,
                Direction::Right,
                Direction::Up,
                Direction::Down
            ])
        ))
    );
}

#[test]
fn tap_and_touch_frames_decode() {
    assert_eq!(
        ClientMessage::from_bytes(&vec![0, 3, 0, 255, 0, 1]),
        Ok(ClientMessage::Gesture(Gesture::new(3, 0, 255, 0, GestureShape::Tap)))
    );
    assert_eq!(
        ClientMessage::from_bytes(&vec![0, 255, 255, 100, 100, 2]),
        Ok(ClientMessage::Gesture(Gesture::new(255, 255, 100, 100, GestureShape::Touch)))
    );
    assert_eq!(
        ClientMessage::from_bytes(&vec![0, 1, 0, 0, 0, 1, 9, 9]),
        Ok(ClientMessage::Gesture(Gesture::new(1, 0, 0, 0, GestureShape::Tap)))
    );
}

#[test]
fn malformed_gesture_frames_are_rejected() {
    assert_eq!(ClientMessage::from_bytes(&vec![]), Err(DecodeError::Empty));
    assert_eq!(ClientMessage::from_bytes(&vec![0]), Err(DecodeError::GestureTooShort(1)));
    assert_eq!(
        ClientMessage::from_bytes(&vec![0, 1, 0, 50, 50]),
        Err(DecodeError::GestureTooShort(5))
    );
    assert_eq!(
        ClientMessage::from_bytes(&vec![0, 1, 0, 50, 50, 0]),
        Err(DecodeError::MissingDirections)
    );
    assert_eq!(
        ClientMessage::from_bytes(&vec![0, 1, 0, 50, 50, 0, 1, 4, 7]),
        Err(DecodeError::InvalidDirection(4))
    );
    assert_eq!(
        ClientMessage::from_bytes(&vec![0, 1, 0, 50, 50, 3]),
        Err(DecodeError::UnknownShape(3))
    );
    assert_eq!(ClientMessage::from_bytes(&vec![9, 1]), Err(DecodeError::UnknownMessage(9)));
}

#[test]
fn braille_frames_decode() {
    assert_eq!(ClientMessage::from_bytes(&vec![1, 0]), Ok(ClientMessage::Braille(0)));
    assert_eq!(ClientMessage::from_bytes(&vec![1, 63]), Ok(ClientMessage::Braille(63)));
    assert_eq!(ClientMessage::from_bytes(&vec![1, 64]), Err(DecodeError::InvalidCombination(64)));
    assert_eq!(ClientMessage::from_bytes(&vec![1]), Err(DecodeError::WrongLength(1)));
    assert_eq!(ClientMessage::from_bytes(&vec![1, 2, 3]), Err(DecodeError::WrongLength(3)));
}

#[test]
fn input_mode_frames_decode() {
    assert_eq!(
        ClientMessage::from_bytes(&vec![2, 0]),
        Ok(ClientMessage::InputMode(InputMode::Standard))
    );
    assert_eq!(
        ClientMessage::from_bytes(&vec![2, 1]),
        Ok(ClientMessage::InputMode(InputMode::Braille))
    );
    assert_eq!(ClientMessage::from_bytes(&vec![2, 2]), Err(DecodeError::UnknownInputMode(2)));
    assert_eq!(ClientMessage::from_bytes(&vec![2]), Err(DecodeError::WrongLength(1)));
    assert_eq!(ClientMessage::from_bytes(&vec![2, 0, 0]), Err(DecodeError::WrongLength(3)));
}
