use rbridge::binding::{Bindings, CommandBinding, Scheme};
use rbridge::braille::{BrailleMapping, BrailleScheme, BrailleSchemeManager};
use rbridge::error::ConfigError;
use rbridge::executor::{Executor, Outcome};
use rbridge::gesture::{Direction, Gesture, GestureShape};
use rbridge::key::{Key, Modifier};
use rbridge::key_executor::KeyEvent;
use rbridge::message::{ClientMessage, InputMode};
use rbridge::model::{Action, Command};
use rbridge::ring::{Ring, SlotBinding};
use rbridge::settings::Settings;

use Direction::{Down, Left, Right, Up};
use KeyEvent::{Click, Down as Press, Up as Release};

fn braille() -> BrailleSchemeManager {
    let default = BrailleMapping::from_script(
        "default",
        "ctrl+a=1\n&&nav=12\n&nav=13\n&&missing=4\nnonsense=5\nshift+x=23\n",
    )
    .0;
    let nav = BrailleMapping::from_script("nav", "left=1\n&return=123\n&default=456\n").0;
    BrailleSchemeManager::new(vec![BrailleScheme::new("main", vec![default, nav]).unwrap()])
}

fn executor() -> Executor {
    let actions = vec![
        Action::new(1, "bold", false, false, false, "ctrl+b", "ctrl+shift+b"),
        Action::new(2, "italic", true, false, false, "ctrl+i", "i"),
        Action::new(3, "underline", false, false, false, "ctrl+u", ""),
        Action::new(4, "zoom", false, false, false, "ctrl+=", "ctrl+-"),
    ];
    let commands = vec![
        Command::new(5, "undo", false, false, false, "ctrl+z"),
        Command::new(6, "redo", false, false, false, "ctrl+y"),
        Command::new(7, "nothing", false, false, false, ""),
    ];
    let rings = vec![Ring::new(10, "format", vec![1, 2, 3]), Ring::new(11, "view", vec![4])];
    let slots = vec![
        SlotBinding::new(100, "formatting", "1h", 10, 1, 1, 0),
        SlotBinding::new(101, "zoom", "v", 11, 4, 2, 0),
        SlotBinding::new(102, "formatting again", "1h", 10, 2, 1, 0),
        SlotBinding::new(103, "other modifiers", "1h", 10, 3, 1, 1),
    ];
    let bindings = vec![
        CommandBinding::new(200, "undo", "Tap", vec![], 5, 2, 0),
        CommandBinding::new(201, "redo", "Tap", vec![], 6, 2, 0),
        CommandBinding::new(
            202,
            "redo by swipe",
            "Swipe",
            vec!["Left".to_string(), "Right".to_string()],
            6,
            1,
            3,
        ),
        CommandBinding::new(203, "nothing", "Touch", vec![], 7, 1, 0),
    ];
    let mut settings = Settings::new(
        actions,
        commands,
        rings,
        vec![Scheme::new(1, "main", Bindings::new(slots, bindings))],
        braille(),
    );
    settings.finalize().unwrap();
    Executor::new(settings).unwrap()
}

fn swipe(fingers: i32, modifiers: i32, x: u8, y: u8, directions: Vec<Direction>) -> Gesture {
    Gesture::new(fingers, modifiers, x, y, GestureShape::Swipe(directions))
}

fn positions(executor: &Executor) -> Vec<usize> {
    executor.settings().schemes()[0]
        .bindings()
        .slot_bindings()
        .iter()
        .map(|binding| binding.position())
        .collect()
}

fn nothing() -> Outcome {
    Outcome { key_events: vec![], feedback: vec![] }
}

#[test]
fn settings_without_a_scheme_are_rejected() {
    assert_eq!(
        Executor::new(Settings::default()).unwrap_err(),
        ConfigError::MissingDefaultScheme
    );
}

#[test]
fn a_tap_runs_the_first_command_bound_to_it() {
    let mut executor = executor();
    let outcome = executor.process_gesture(&Gesture::new(2, 0, 50, 50, GestureShape::Tap));
    assert_eq!(
        outcome.key_events,
        vec![Press(Modifier::Ctrl), Click(Key::Layout('z')), Release(Modifier::Ctrl)]
    );
    assert!(outcome.feedback.is_empty());
    assert_eq!(executor.key_executor().last_executed_object_id(), 5);
}

#[test]
fn a_command_whose_operation_is_nothing_runs_nothing() {
    let mut executor = executor();
    let outcome = executor.process_gesture(&Gesture::new(1, 0, 50, 50, GestureShape::Touch));
    assert_eq!(outcome, nothing());
    assert_eq!(executor.key_executor().last_executed_object_id(), -1);
}

#[test]
fn gestures_without_a_meaning_do_nothing() {
    let mut executor = executor();
    let before = positions(&executor);
    assert_eq!(executor.process_gesture(&Gesture::new(3, 0, 50, 50, GestureShape::Tap)), nothing());
    assert_eq!(executor.process_gesture(&Gesture::new(2, 1, 50, 50, GestureShape::Tap)), nothing());
    assert_eq!(executor.process_gesture(&swipe(1, 0, 50, 50, vec![Left])), nothing());
    assert_eq!(executor.process_gesture(&swipe(1, 0, 50, 10, vec![Left, Left])), nothing());
    assert_eq!(executor.process_gesture(&swipe(1, 0, 50, 10, vec![])), nothing());
    assert_eq!(positions(&executor), before);
}

#[test]
fn a_slot_swipe_resolves_to_slot_and_operation() {
    let mut executor = executor();
    assert_eq!(positions(&executor), vec![0, 0, 1, 2]);
    let outcome = executor.process_gesture(&swipe(1, 0, 50, 10, vec![Left, Right]));
    assert!(outcome.key_events.is_empty());
    assert_eq!(outcome.feedback, vec!["underline".to_string(), "bold".to_string()]);
    assert_eq!(positions(&executor), vec![2, 0, 0, 2]);
}

#[test]
fn next_action_wraps_and_names_the_action() {
    let mut executor = executor();
    let gesture = swipe(1, 0, 90, 19, vec![Right, Left]);
    assert_eq!(executor.process_gesture(&gesture).feedback, vec!["italic", "underline"]);
    assert_eq!(executor.process_gesture(&gesture).feedback, vec!["underline", "bold"]);
    assert_eq!(executor.process_gesture(&gesture).feedback, vec!["bold", "italic"]);
    assert_eq!(positions(&executor), vec![0, 0, 1, 2]);
}

#[test]
fn default_action_resets_and_names_the_action() {
    let mut executor = executor();
    executor.process_gesture(&swipe(1, 0, 0, 0, vec![Right, Left]));
    assert_eq!(positions(&executor), vec![1, 0, 2, 2]);
    let outcome = executor.process_gesture(&swipe(1, 0, 0, 0, vec![Left, Right, Left]));
    assert_eq!(outcome.feedback, vec!["bold", "italic"]);
    assert!(outcome.key_events.is_empty());
    assert_eq!(positions(&executor), vec![0, 0, 1, 2]);
}

#[test]
fn forward_and_backward_run_the_selected_action_of_every_addressed_binding() {
    let mut executor = executor();
    let outcome = executor.process_gesture(&swipe(1, 0, 50, 0, vec![Right]));
    assert!(outcome.feedback.is_empty());
    assert_eq!(
        outcome.key_events,
        vec![
            Press(Modifier::Ctrl),
            Click(Key::Layout('b')),
            Release(Modifier::Ctrl),
            Press(Modifier::Ctrl),
            Click(Key::Layout('i')),
        ]
    );
    assert!(executor.key_executor().held().ctrl);
    assert_eq!(executor.key_executor().last_executed_object_id(), 2);
    let outcome = executor.process_gesture(&swipe(1, 0, 50, 0, vec![Left]));
    assert_eq!(
        outcome.key_events,
        vec![
            Release(Modifier::Ctrl),
            Press(Modifier::Ctrl),
            Press(Modifier::Shift),
            Click(Key::Layout('b')),
            Release(Modifier::Ctrl),
            Release(Modifier::Shift),
            Click(Key::Layout('i')),
        ]
    );
    assert_eq!(positions(&executor), vec![0, 0, 1, 2]);
}

#[test]
fn a_multi_finger_vertical_swipe_addresses_slot_v() {
    let mut executor = executor();
    let outcome = executor.process_gesture(&swipe(2, 0, 5, 5, vec![Down]));
    assert_eq!(
        outcome.key_events,
        vec![Press(Modifier::Ctrl), Click(Key::Layout('=')), Release(Modifier::Ctrl)]
    );
    let outcome = executor.process_gesture(&swipe(2, 0, 5, 5, vec![Up]));
    assert_eq!(
        outcome.key_events,
        vec![Press(Modifier::Ctrl), Click(Key::Layout('-')), Release(Modifier::Ctrl)]
    );
    let outcome = executor.process_gesture(&swipe(2, 0, 5, 5, vec![Down, Up]));
    assert_eq!(outcome.feedback, vec!["zoom"]);
}

#[test]
fn command_bindings_take_precedence_over_slot_bindings() {
    let mut executor = executor();
    let before = positions(&executor);
    let gesture = swipe(1, 3, 50, 10, vec![Left, Right]);
    assert!(gesture.try_get_slot_operation().is_some());
    let outcome = executor.process_gesture(&gesture);
    assert_eq!(
        outcome.key_events,
        vec![Press(Modifier::Ctrl), Click(Key::Layout('y')), Release(Modifier::Ctrl)]
    );
    assert!(outcome.feedback.is_empty());
    assert_eq!(positions(&executor), before);

    let slot = SlotBinding::new(100, "formatting", "1h", 10, 1, 1, 0);
    let command = CommandBinding::new(
        200,
        "undo",
        "Swipe",
        vec!["Left".to_string(), "Right".to_string()],
        5,
        1,
        0,
    );
    let mut settings = Settings::new(
        vec![Action::new(1, "bold", false, false, false, "ctrl+b", "")],
        vec![Command::new(5, "undo", false, false, false, "ctrl+z")],
        vec![Ring::new(10, "format", vec![1, 1])],
        vec![Scheme::new(1, "main", Bindings::new(vec![slot], vec![command]))],
        BrailleSchemeManager::new(vec![]),
    );
    settings.finalize().unwrap();
    let mut executor = Executor::new(settings).unwrap();
    let outcome = executor.process_gesture(&swipe(1, 0, 50, 10, vec![Left, Right]));
    assert_eq!(
        outcome.key_events,
        vec![Press(Modifier::Ctrl), Click(Key::Layout('z')), Release(Modifier::Ctrl)]
    );
    assert!(outcome.feedback.is_empty());
    assert_eq!(positions(&executor), vec![0]);
}

#[test]
fn a_braille_combination_runs_its_operation_for_a_negative_object() {
    let mut executor = executor();
    let outcome = executor.process_braille(1);
    assert_eq!(
        outcome.key_events,
        vec![Press(Modifier::Ctrl), Click(Key::Layout('a')), Release(Modifier::Ctrl)]
    );
    assert!(outcome.feedback.is_empty());
    assert_eq!(executor.key_executor().last_executed_object_id(), -1);
    let outcome = executor.process_braille(6);
    assert_eq!(
        outcome.key_events,
        vec![Press(Modifier::Shift), Click(Key::Layout('x')), Release(Modifier::Shift)]
    );
    assert_eq!(executor.key_executor().last_executed_object_id(), -6);
}

#[test]
fn braille_combinations_without_a_meaning_do_nothing() {
    let mut executor = executor();
    assert_eq!(executor.process_braille(2), nothing());
    assert_eq!(executor.process_braille(0), nothing());
    assert_eq!(executor.process_braille(64), nothing());
    assert_eq!(executor.process_braille(255), nothing());
    assert_eq!(executor.process_braille(16), nothing());
    assert_eq!(executor.key_executor().last_executed_object_id(), -1);
    assert_eq!(executor.process_braille(1).key_events.len(), 3);
    assert_eq!(executor.key_executor().last_executed_object_id(), -1);
}

#[test]
fn a_mapping_switch_is_answered_with_the_active_mapping() {
    let mut executor = executor();
    let outcome = executor.process_braille(3);
    assert!(outcome.key_events.is_empty());
    assert_eq!(outcome.feedback, vec!["nav"]);
    assert_eq!(executor.settings().braille().active().unwrap().depth(), 2);
    assert_eq!(executor.key_executor().last_executed_object_id(), -1);
    let outcome = executor.process_braille(1);
    assert_eq!(outcome.key_events, vec![Click(Key::LeftArrow)]);
    let outcome = executor.process_braille(7);
    assert_eq!(outcome.feedback, vec!["default"]);
    assert_eq!(executor.settings().braille().active().unwrap().depth(), 1);
}

#[test]
fn a_temporary_mapping_serves_one_combination() {
    let mut executor = executor();
    assert_eq!(executor.process_braille(5).feedback, vec!["nav"]);
    assert_eq!(executor.settings().braille().active().unwrap().depth(), 2);
    assert_eq!(executor.process_braille(1).key_events, vec![Click(Key::LeftArrow)]);
    assert_eq!(executor.settings().braille().active().unwrap().depth(), 1);
    assert_eq!(executor.process_braille(5).feedback, vec!["nav"]);
    assert_eq!(executor.process_braille(60), nothing());
    assert_eq!(executor.settings().braille().active().unwrap().depth(), 1);
    assert_eq!(executor.process_braille(5).feedback, vec!["nav"]);
    assert_eq!(executor.process_braille(7).feedback, vec!["default"]);
    assert_eq!(executor.settings().braille().active().unwrap().depth(), 1);
}

#[test]
fn a_switch_to_an_unknown_mapping_is_answered_with_the_failure() {
    let mut executor = executor();
    let outcome = executor.process_braille(8);
    assert!(outcome.key_events.is_empty());
    assert_eq!(outcome.feedback, vec!["Mapping not found: missing"]);
    assert_eq!(executor.settings().braille().active().unwrap().depth(), 1);
}

#[test]
fn braille_without_a_scheme_does_nothing() {
    let mut settings = Settings::new(
        vec![],
        vec![],
        vec![],
        vec![Scheme::default()],
        BrailleSchemeManager::new(vec![]),
    );
    settings.finalize().unwrap();
    let mut executor = Executor::new(settings).unwrap();
    assert_eq!(executor.process_braille(1), nothing());
}

#[test]
fn messages_are_dispatched() {
    let mut executor = executor();
    let tap = ClientMessage::Gesture(Gesture::new(2, 0, 0, 0, GestureShape::Tap));
    assert_eq!(executor.process(&tap).key_events.len(), 3);
    assert_eq!(executor.process(&ClientMessage::Braille(3)).feedback, vec!["nav"]);
    assert_eq!(executor.process(&ClientMessage::InputMode(InputMode::Braille)), nothing());
    assert_eq!(executor.process(&ClientMessage::InputMode(InputMode::Standard)), nothing());
    assert_eq!(executor.process(&ClientMessage::Braille(1)).key_events, vec![Click(Key::LeftArrow)]);
}

#[test]
fn every_event_of_a_stream_is_processed_in_order() {
    let mut executor = executor();
    let mut held = false;
    let mut clicks = 0;
    for round in 0..50 {
        let gesture = if round % 3 == 0 {
            Gesture::new(2, 0, 0, 0, GestureShape::Tap)
        } else {
            swipe(1, 0, 50, 0, vec![Right])
        };
        for event in executor.process_gesture(&gesture).key_events {
            match event {
                Press(Modifier::Ctrl) => {
                    assert!(!held);
                    held = true;
                }
                Release(Modifier::Ctrl) => {
                    assert!(held);
                    held = false;
                }
                Click(_) => clicks += 1,
                _ => panic!("unexpected event"),
            }
        }
    }
    assert_eq!(clicks, 17 + 33 * 2);
}
