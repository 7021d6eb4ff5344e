//! Gestures and the classifier that maps a swipe to a slot and a slot operation.

use vstd::prelude::*;

verus! {

/// The direction of one stroke of a swipe.
#[derive(Clone, Copy, Debug, PartialEq, Eq, Structural)]
pub enum Direction {
    Left,
    Right,
    Up,
    Down,
}

/// The shape of a gesture.
#[derive(Debug, PartialEq, Eq)]
pub enum GestureShape {
    /// A swipe: its strokes, in the order they were drawn.
    Swipe(Vec<Direction>),
    Tap,
    Touch,
}

/// The mathematical value of a [`GestureShape`].
pub enum GestureShapeView {
    Swipe(Seq<Direction>),
    Tap,
    Touch,
}

impl View for GestureShape {
    type V = GestureShapeView;

    open spec fn view(&self) -> GestureShapeView {
        match self {
            GestureShape::Swipe(directions) => GestureShapeView::Swipe(directions@),
            GestureShape::Tap => GestureShapeView::Tap,
            GestureShape::Touch => GestureShapeView::Touch,
        }
    }
}

impl Clone for GestureShape {
    fn clone(&self) -> (copy: Self)
        ensures
            copy@ == self@,
    {
        match self {
            GestureShape::Swipe(directions) => GestureShape::Swipe(directions.clone()),
            GestureShape::Tap => GestureShape::Tap,
            GestureShape::Touch => GestureShape::Touch,
        }
    }
}

/// Whether two sequences of strokes are the same.
fn same_strokes(a: &Vec<Direction>, b: &Vec<Direction>) -> (same: bool)
    ensures
        same == (a@ == b@),
{
    if a.len() != b.len() {
        return false;
    }
    let mut i: usize = 0;
    while i < a.len()
        invariant
            a@.len() == b@.len(),
            i <= a@.len(),
            forall|j: int| 0 <= j < i ==> a@[j] == b@[j],
        decreases a.len() - i,
    {
        if a[i] != b[i] {
            assert(a@[i as int] != b@[i as int]);
            return false;
        }
        i = i + 1;
    }
    assert(a@ =~= b@);
    true
}

impl GestureShape {
    /// Whether two shapes are the same: the same kind and, for swipes, the
    /// same strokes in the same order.
    pub fn same_as(&self, other: &GestureShape) -> (same: bool)
        ensures
            same == (self@ == other@),
    {
        match (self, other) {
            (GestureShape::Swipe(a), GestureShape::Swipe(b)) => same_strokes(a, b),
            (GestureShape::Tap, GestureShape::Tap) => true,
            (GestureShape::Touch, GestureShape::Touch) => true,
            _ => false,
        }
    }
}

/// One input event of a touch surface.
///
/// The start coordinates are normalized to the surface and counted in
/// hundredths: 0 is the left or top edge, 100 the right or bottom edge.
#[derive(Debug, PartialEq, Eq)]
pub struct Gesture {
    pub finger_count: i32,
    pub modifier_count: i32,
    pub start_x: u8,
    pub start_y: u8,
    pub shape: GestureShape,
}

/// The mathematical value of a [`Gesture`].
pub struct GestureView {
    pub finger_count: int,
    pub modifier_count: int,
    pub start_x: int,
    pub start_y: int,
    pub shape: GestureShapeView,
}

impl View for Gesture {
    type V = GestureView;

    open spec fn view(&self) -> GestureView {
        GestureView {
            finger_count: self.finger_count as int,
            modifier_count: self.modifier_count as int,
            start_x: self.start_x as int,
            start_y: self.start_y as int,
            shape: self.shape@,
        }
    }
}

impl Clone for Gesture {
    fn clone(&self) -> (copy: Self)
        ensures
            copy@ == self@,
    {
        Gesture {
            finger_count: self.finger_count,
            modifier_count: self.modifier_count,
            start_x: self.start_x,
            start_y: self.start_y,
            shape: self.shape.clone(),
        }
    }
}

impl Default for Gesture {
    fn default() -> (gesture: Gesture)
        ensures
            gesture@ == (GestureView {
                finger_count: 0,
                modifier_count: 0,
                start_x: 0,
                start_y: 0,
                shape: GestureShapeView::Touch,
            }),
    {
        Gesture::new(0, 0, 0, 0, GestureShape::Touch)
    }
}

/// A logical cycling position that a swipe addresses: the axis of the swipe,
/// and for a one-finger swipe the band of the surface it started in.
#[derive(Clone, Copy, Debug, PartialEq, Eq, Structural)]
pub enum Slot {
    /// One finger, horizontal, first band.
    H1,
    /// One finger, horizontal, middle band.
    H2,
    /// One finger, horizontal, last band.
    H3,
    /// Any other finger count, horizontal.
    H,
    /// One finger, vertical, first band.
    V1,
    /// One finger, vertical, middle band.
    V2,
    /// One finger, vertical, last band.
    V3,
    /// Any other finger count, vertical.
    V,
}

/// What a swipe asks of the slot it addresses.
#[derive(Clone, Copy, Debug, PartialEq, Eq, Structural)]
pub enum SlotOperation {
    /// Run the forward operation of the active action.
    Forward,
    /// Run the backward operation of the active action.
    Backward,
    /// Select the action before the active one.
    PreviousAction,
    /// Select the action after the active one.
    NextAction,
    /// Select the default action.
    DefaultAction,
}

impl Slot {
    /// The name of the slot in a binding configuration.
    pub open spec fn name(self) -> Seq<char> {
        match self {
            Slot::H1 => "1h"@,
            Slot::H2 => "2h"@,
            Slot::H3 => "3h"@,
            Slot::H => "h"@,
            Slot::V1 => "1v"@,
            Slot::V2 => "2v"@,
            Slot::V3 => "3v"@,
            Slot::V => "v"@,
        }
    }

    /// The name of the slot in a binding configuration.
    pub fn token(self) -> (word: &'static str)
        ensures
            word@ == self.name(),
    {
        match self {
            Slot::H1 => "1h",
            Slot::H2 => "2h",
            Slot::H3 => "3h",
            Slot::H => "h",
            Slot::V1 => "1v",
            Slot::V2 => "2v",
            Slot::V3 => "3v",
            Slot::V => "v",
        }
    }
}

/// The band that a start coordinate, in hundredths, falls in: 1 below 0.2,
/// 2 from 0.2 to 0.8 inclusive, 3 above 0.8.
pub open spec fn band(coordinate: int) -> int {
    if coordinate < 20 {
        1
    } else if coordinate <= 80 {
        2
    } else {
        3
    }
}

/// Whether a stroke runs along the horizontal axis.
pub open spec fn horizontal(direction: Direction) -> bool {
    direction == Direction::Left || direction == Direction::Right
}

/// The slot that a swipe addresses. The first stroke gives the axis. A
/// one-finger horizontal swipe is banded by where it started vertically, a
/// one-finger vertical swipe by where it started horizontally.
pub open spec fn slot_of(first: Direction, finger_count: int, start_x: int, start_y: int) -> Slot {
    if horizontal(first) {
        if finger_count != 1 {
            Slot::H
        } else if band(start_y) == 1 {
            Slot::H1
        } else if band(start_y) == 2 {
            Slot::H2
        } else {
            Slot::H3
        }
    } else {
        if finger_count != 1 {
            Slot::V
        } else if band(start_x) == 1 {
            Slot::V1
        } else if band(start_x) == 2 {
            Slot::V2
        } else {
            Slot::V3
        }
    }
}

/// What the strokes of a swipe ask for, whatever the axis: one stroke runs the
/// active action backward (left, up) or forward (right, down); a stroke and
/// its reverse select the previous action (left-right, up-down) or the next
/// (right-left, down-up); a stroke, its reverse and the stroke again select the
/// default action. No other sequence asks for anything.
pub open spec fn slot_operation_of(directions: Seq<Direction>) -> Option<SlotOperation> {
    if directions == seq![Direction::Left] || directions == seq![Direction::Up] {
        Some(SlotOperation::Backward)
    } else if directions == seq![Direction::Right] || directions == seq![Direction::Down] {
        Some(SlotOperation::Forward)
    } else if directions == seq![Direction::Left, Direction::Right] || directions == seq![
        Direction::Up,
        Direction::Down,
    ] {
        Some(SlotOperation::PreviousAction)
    } else if directions == seq![Direction::Right, Direction::Left] || directions == seq![
        Direction::Down,
        Direction::Up,
    ] {
        Some(SlotOperation::NextAction)
    } else if directions == seq![Direction::Left, Direction::Right, Direction::Left]
        || directions == seq![Direction::Right, Direction::Left, Direction::Right] || directions
        == seq![Direction::Up, Direction::Down, Direction::Up] || directions == seq![
        Direction::Down,
        Direction::Up,
        Direction::Down,
    ] {
        Some(SlotOperation::DefaultAction)
    } else {
        None
    }
}

/// The slot and slot operation of a gesture. Only a swipe whose strokes ask
/// for something has them.
pub open spec fn classify(gesture: GestureView) -> Option<(Slot, SlotOperation)> {
    match gesture.shape {
        GestureShapeView::Swipe(directions) => match slot_operation_of(directions) {
            Some(operation) => Some(
                (
                    slot_of(
                        directions[0],
                        gesture.finger_count,
                        gesture.start_x,
                        gesture.start_y,
                    ),
                    operation,
                ),
            ),
            None => None,
        },
        _ => None,
    }
}

/// Only a swipe of one to three strokes is a slot gesture, and its slot lies
/// on the axis of its first stroke.
pub proof fn lemma_classify_domain(gesture: GestureView)
    ensures
        classify(gesture) matches Some((slot, _)) ==> gesture.shape matches GestureShapeView::Swipe(
            directions,
        ) && 1 <= directions.len() <= 3 && (horizontal(directions[0]) <==> slot == Slot::H1 || slot
            == Slot::H2 || slot == Slot::H3 || slot == Slot::H),
{
}

/// The band of a start coordinate.
fn band_of(coordinate: u8) -> (b: u8)
    ensures
        b == band(coordinate as int),
{
    if coordinate < 20 {
        1
    } else if coordinate <= 80 {
        2
    } else {
        3
    }
}

impl Gesture {
    /// A gesture with the given counts, start coordinates in hundredths, and shape.
    pub fn new(
        finger_count: i32,
        modifier_count: i32,
        start_x: u8,
        start_y: u8,
        shape: GestureShape,
    ) -> (gesture: Gesture)
        ensures
            gesture@ == (GestureView {
                finger_count: finger_count as int,
                modifier_count: modifier_count as int,
                start_x: start_x as int,
                start_y: start_y as int,
                shape: shape@,
            }),
    {
        Gesture { finger_count, modifier_count, start_x, start_y, shape }
    }

    /// Classifies the gesture: the slot it addresses and what it asks of it,
    /// or `None` when it is no slot gesture.
    pub fn try_get_slot_operation(&self) -> (result: Option<(Slot, SlotOperation)>)
        ensures
            result == classify(self@),
    {
        match &self.shape {
            GestureShape::Swipe(directions) => {
                if !(directions.len() >= 1 && directions.len() <= 3) {
                    return None;
                }
                let first = directions[0];
                let slot = if first == Direction::Left || first == Direction::Right {
                    if self.finger_count == 1 {
                        let b = band_of(self.start_y);
                        if b == 1 {
                            Slot::H1
                        } else if b == 2 {
                            Slot::H2
                        } else {
                            Slot::H3
                        }
                    } else {
                        Slot::H
                    }
                } else {
                    if self.finger_count == 1 {
                        let b = band_of(self.start_x);
                        if b == 1 {
                            Slot::V1
                        } else if b == 2 {
                            Slot::V2
                        } else {
                            Slot::V3
                        }
                    } else {
                        Slot::V
                    }
                };
                let operation = if directions.len() == 1 {
                    assert(directions@ =~= seq![first]);
                    if first == Direction::Left || first == Direction::Up {
                        Some(SlotOperation::Backward)
                    } else {
                        Some(SlotOperation::Forward)
                    }
                } else if directions.len() == 2 {
                    let second = directions[1];
                    assert(directions@ =~= seq![first, second]);
                    if (first == Direction::Left && second == Direction::Right) || (first
                        == Direction::Up && second == Direction::Down) {
                        Some(SlotOperation::PreviousAction)
                    } else if (first == Direction::Right && second == Direction::Left) || (first
                        == Direction::Down && second == Direction::Up) {
                        Some(SlotOperation::NextAction)
                    } else {
                        None
                    }
                } else {
                    let second = directions[1];
                    let third = directions[2];
                    assert(directions@ =~= seq![first, second, third]);
                    if third == first && ((first == Direction::Left && second == Direction::Right)
                        || (first == Direction::Right && second == Direction::Left) || (first
                        == Direction::Up && second == Direction::Down) || (first == Direction::Down
                        && second == Direction::Up)) {
                        Some(SlotOperation::DefaultAction)
                    } else {
                        None
                    }
                };
                match operation {
                    Some(op) => Some((slot, op)),
                    None => None,
                }
            },
            _ => None,
        }
    }
}

} // verus!
