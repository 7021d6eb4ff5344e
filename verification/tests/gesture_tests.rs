use rbridge::gesture::{Direction, Gesture, GestureShape, Slot, SlotOperation};

use Direction::{Down, Left, Right, Up};

fn swipe(finger_count: i32, start_x: u8, start_y: u8, directions: Vec<Direction>) -> Gesture {
    Gesture::new(finger_count, 0, start_x, start_y, GestureShape::Swipe(directions))
}

#[test]
fn one_finger_left_right_near_the_top_is_previous_action_of_slot_1h() {
    let gesture = swipe(1, 50, 10, vec![Left, Right]);
    assert_eq!(gesture.try_get_slot_operation(), Some((Slot::H1, SlotOperation::PreviousAction)));
    assert_eq!(Slot::H1.token(), "1h");
}

#[test]
fn horizontal_bands_follow_start_y() {
    let slot = |y: u8| swipe(1, 50, y, vec![Right]).try_get_slot_operation().unwrap().0;
    assert_eq!(slot(0), Slot::H1);
    assert_eq!(slot(19), Slot::H1);
    assert_eq!(slot(20), Slot::H2);
    assert_eq!(slot(50), Slot::H2);
    assert_eq!(slot(80), Slot::H2);
    assert_eq!(slot(81), Slot::H3);
    assert_eq!(slot(100), Slot::H3);
    assert_eq!(slot(255), Slot::H3);
}

#[test]
fn vertical_bands_follow_start_x() {
    let slot = |x: u8| swipe(1, x, 50, vec![Down]).try_get_slot_operation().unwrap().0;
    assert_eq!(slot(0), Slot::V1);
    assert_eq!(slot(19), Slot::V1);
    assert_eq!(slot(20), Slot::V2);
    assert_eq!(slot(80), Slot::V2);
    assert_eq!(slot(81), Slot::V3);
}

#[test]
fn other_finger_counts_are_not_banded() {
    for fingers in [0, 2, 3, 5, -1] {
        assert_eq!(
            swipe(fingers, 5, 5, vec![Left]).try_get_slot_operation(),
            Some((Slot::H, SlotOperation::Backward))
        );
        assert_eq!(
            swipe(fingers, 95, 95, vec![Up]).try_get_slot_operation(),
            Some((Slot::V, SlotOperation::Backward))
        );
    }
}

#[test]
fn single_strokes_run_the_action() {
    let operation = |d: Direction| swipe(2, 0, 0, vec![d]).try_get_slot_operation().unwrap().1;
    assert_eq!(operation(Left), SlotOperation::Backward);
    assert_eq!(operation(Up), SlotOperation::Backward);
    assert_eq!(operation(Right), SlotOperation::Forward);
    assert_eq!(operation(Down), SlotOperation::Forward);
}

#[test]
fn two_strokes_select_the_neighbour() {
    let classify = |d: Vec<Direction>| swipe(2, 0, 0, d).try_get_slot_operation();
    assert_eq!(classify(vec![Left, Right]), Some((Slot::H, SlotOperation::PreviousAction)));
    assert_eq!(classify(vec![Up, Down]), Some((Slot::V, SlotOperation::PreviousAction)));
    assert_eq!(classify(vec![Right, Left]), Some((Slot::H, SlotOperation::NextAction)));
    assert_eq!(classify(vec![Down, Up]), Some((Slot::V, SlotOperation::NextAction)));
}

#[test]
fn three_strokes_select_the_default() {
    let classify = |d: Vec<Direction>| swipe(2, 0, 0, d).try_get_slot_operation();
    assert_eq!(classify(vec![Left, Right, Left]), Some((Slot::H, SlotOperation::DefaultAction)));
    assert_eq!(classify(vec![Right, Left, Right]), Some((Slot::H, SlotOperation::DefaultAction)));
    assert_eq!(classify(vec![Up, Down, Up]), Some((Slot::V, SlotOperation::DefaultAction)));
    assert_eq!(classify(vec![Down, Up, Down]), Some((Slot::V, SlotOperation::DefaultAction)));
}

#[test]
fn other_patterns_are_no_slot_gestures() {
    let classify = |d: Vec<Direction>| swipe(1, 50, 50, d).try_get_slot_operation();
    assert_eq!(classify(vec![]), None);
    assert_eq!(classify(vec![Left, Left]), None);
    assert_eq!(classify(vec![Left, Up]), None);
    assert_eq!(classify(vec![Up, Right]), None);
    assert_eq!(classify(vec![Left, Right, Right]), None);
    assert_eq!(classify(vec![Left, Right, Up]), None);
    assert_eq!(classify(vec![Left, Down, Left]), None);
    assert_eq!(classify(vec![Left, Right, Left, Right]), None);
}

#[test]
fn taps_and_touches_are_no_slot_gestures() {
    assert_eq!(Gesture::new(1, 0, 50, 50, GestureShape::Tap).try_get_slot_operation(), None);
    assert_eq!(Gesture::new(1, 0, 50, 50, GestureShape::Touch).try_get_slot_operation(), None);
}

#[test]
fn shapes_compare_by_kind_and_strokes() {
    let a = GestureShape::Swipe(vec![Left, Right]);
    assert!(a.same_as(&GestureShape::Swipe(vec![Left, Right])));
    assert!(!a.same_as(&GestureShape::Swipe(vec![Left])));
    assert!(!a.same_as(&GestureShape::Swipe(vec![Left, Left])));
    assert!(!a.same_as(&GestureShape::Tap));
    assert!(GestureShape::Tap.same_as(&GestureShape::Tap));
    assert!(!GestureShape::Tap.same_as(&GestureShape::Touch));
    assert!(GestureShape::Touch.same_as(&GestureShape::Touch));
    assert_eq!(a.clone(), a);
}

#[test]
fn slot_names() {
    let names: Vec<&str> = [Slot::H1, Slot::H2, Slot::H3, Slot::H, Slot::V1, Slot::V2, Slot::V3, Slot::V]
        .iter()
        .map(|slot| slot.token())
        .collect();
    assert_eq!(names, vec!["1h", "2h", "3h", "h", "1v", "2v", "3v", "v"]);
}

#[test]
fn the_default_gesture_is_a_touch_at_the_origin() {
    assert_eq!(Gesture::default(), Gesture::new(0, 0, 0, 0, GestureShape::Touch));
    assert_eq!(Gesture::default().clone().try_get_slot_operation(), None);
}
