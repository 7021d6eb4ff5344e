use rbridge::key::{Key, Modifier};
use rbridge::key_executor::{Held, KeyEvent, KeyExecutor};
use rbridge::operation::{Operation, SwitchType};

use KeyEvent::{Click, Down, Up};

fn count(events: &[KeyEvent], event: KeyEvent) -> usize {
    events.iter().filter(|e| **e == event).count()
}

#[test]
fn a_new_executor_holds_nothing() {
    let executor = KeyExecutor::new();
    assert_eq!(executor.last_executed_object_id(), -1);
    assert_eq!(
        executor.held(),
        Held { ctrl: false, shift: false, alt: false, meta: false, caps_lock: false }
    );
}

#[test]
fn a_plain_shortcut_presses_and_releases() {
    let mut executor = KeyExecutor::new();
    let events = executor.execute(3, &Operation::from_str("ctrl+shift+a"), false, false, false);
    assert_eq!(
        events,
        vec![
            Down(Modifier::Ctrl),
            Down(Modifier::Shift),
            Click(Key::Layout('a')),
            Up(Modifier::Ctrl),
            Up(Modifier::Shift)
        ]
    );
    assert_eq!(executor.last_executed_object_id(), 3);
    assert!(!executor.held().ctrl && !executor.held().shift);
}

#[test]
fn all_modifiers_in_order() {
    let mut executor = KeyExecutor::new();
    let operation = Operation::Shortcut(true, true, true, true, true, Key::Tab);
    let events = executor.execute(1, &operation, false, false, false);
    assert_eq!(
        events,
        vec![
            Down(Modifier::Ctrl),
            Down(Modifier::Shift),
            Down(Modifier::Alt),
            Down(Modifier::Meta),
            Down(Modifier::CapsLock),
            Click(Key::Tab),
            Up(Modifier::Ctrl),
            Up(Modifier::Shift),
            Up(Modifier::Alt),
            Up(Modifier::Meta),
            Up(Modifier::CapsLock)
        ]
    );
}

#[test]
fn sticky_ctrl_is_pressed_once_and_released_for_another_object() {
    let mut executor = KeyExecutor::new();
    let operation = Operation::from_str("ctrl+tab");
    let first = executor.execute(7, &operation, true, false, false);
    let second = executor.execute(7, &operation, true, false, false);
    assert_eq!(first, vec![Down(Modifier::Ctrl), Click(Key::Tab)]);
    assert_eq!(second, vec![Click(Key::Tab)]);
    let both: Vec<KeyEvent> = first.iter().chain(second.iter()).copied().collect();
    assert_eq!(count(&both, Down(Modifier::Ctrl)), 1);
    assert_eq!(count(&both, Up(Modifier::Ctrl)), 0);
    assert!(executor.held().ctrl);
    let third = executor.execute(8, &Operation::from_str("a"), false, false, false);
    assert_eq!(third, vec![Up(Modifier::Ctrl), Click(Key::Layout('a'))]);
    assert!(!executor.held().ctrl);
}

#[test]
fn sticky_modifier_stays_held_for_an_operation_without_it() {
    let mut executor = KeyExecutor::new();
    executor.execute(7, &Operation::from_str("alt+tab"), false, false, true);
    assert!(executor.held().alt);
    let events = executor.execute(7, &Operation::from_str("tab"), false, false, true);
    assert_eq!(events, vec![Click(Key::Tab)]);
    assert!(executor.held().alt);
    let events = executor.execute(7, &Operation::from_str("tab"), false, false, false);
    assert_eq!(events, vec![Click(Key::Tab), Up(Modifier::Alt)]);
    assert!(!executor.held().alt);
}

#[test]
fn meta_and_caps_lock_are_never_sticky() {
    let mut executor = KeyExecutor::new();
    let operation = Operation::from_str("meta+capslock+x");
    let events = executor.execute(1, &operation, true, true, true);
    assert_eq!(
        events,
        vec![
            Down(Modifier::Meta),
            Down(Modifier::CapsLock),
            Click(Key::Layout('x')),
            Up(Modifier::Meta),
            Up(Modifier::CapsLock)
        ]
    );
    assert!(!executor.held().meta && !executor.held().caps_lock);
}

#[test]
fn operations_that_are_no_shortcut_do_nothing() {
    let mut executor = KeyExecutor::new();
    executor.execute(7, &Operation::from_str("shift+a"), false, true, false);
    assert!(executor.held().shift);
    assert_eq!(executor.execute(9, &Operation::NoOp, false, false, false), vec![]);
    assert_eq!(
        executor.execute(9, &Operation::SwitchMapping(SwitchType::Return), false, false, false),
        vec![]
    );
    assert!(executor.held().shift);
    assert_eq!(executor.last_executed_object_id(), 7);
}

#[test]
fn events_never_repeat_a_press_or_a_release() {
    let mut executor = KeyExecutor::new();
    let mut down = [false; 5];
    let index = |m: Modifier| match m {
        Modifier::Ctrl => 0,
        Modifier::Shift => 1,
        Modifier::Alt => 2,
        Modifier::Meta => 3,
        Modifier::CapsLock => 4,
    };
    let texts = ["ctrl+a", "ctrl+shift+b", "alt+meta+c", "d", "capslock+ctrl+alt+e", "shift+f"];
    let mut step = 0u32;
    for round in 0..4 {
        for (i, text) in texts.iter().enumerate() {
            step += 1;
            let id = ((i + round) % 3) as i32;
            let events = executor.execute(
                id,
                &Operation::from_str(text),
                step % 2 == 0,
                step % 3 == 0,
                step % 5 == 0,
            );
            for event in events {
                match event {
                    Down(m) => {
                        assert!(!down[index(m)]);
                        down[index(m)] = true;
                    }
                    Up(m) => {
                        assert!(down[index(m)]);
                        down[index(m)] = false;
                    }
                    Click(_) => {}
                }
            }
            let held = executor.held();
            assert_eq!(down, [held.ctrl, held.shift, held.alt, held.meta, held.caps_lock]);
            assert!(!held.meta && !held.caps_lock);
        }
    }
}

#[test]
fn press_and_release_by_hand() {
    let mut executor = KeyExecutor::new();
    let mut events = Vec::new();
    executor.press(Modifier::Alt, &mut events);
    executor.press(Modifier::Alt, &mut events);
    executor.press(Modifier::Meta, &mut events);
    assert_eq!(events, vec![Down(Modifier::Alt), Down(Modifier::Meta)]);
    executor.release(Modifier::Shift, &mut events);
    executor.release_modifiers(&mut events);
    executor.release_modifiers(&mut events);
    assert_eq!(
        events,
        vec![Down(Modifier::Alt), Down(Modifier::Meta), Up(Modifier::Alt), Up(Modifier::Meta)]
    );
    let mut held = executor.held();
    assert!(!held.is_held(Modifier::Alt));
    held.set(Modifier::CapsLock, true);
    assert!(held.is_held(Modifier::CapsLock));
}

#[test]
fn sticky_ctrl_first_held_by_the_second_operation_is_pressed_once() {
    let mut executor = KeyExecutor::new();
    let first = executor.execute(7, &Operation::from_str("tab"), true, false, false);
    let second = executor.execute(7, &Operation::from_str("ctrl+tab"), true, false, false);
    assert_eq!(first, vec![Click(Key::Tab)]);
    assert_eq!(second, vec![Down(Modifier::Ctrl), Click(Key::Tab)]);
    let third = executor.execute(8, &Operation::from_str("ctrl+tab"), false, false, false);
    assert_eq!(
        third,
        vec![Up(Modifier::Ctrl), Down(Modifier::Ctrl), Click(Key::Tab), Up(Modifier::Ctrl)]
    );
}
