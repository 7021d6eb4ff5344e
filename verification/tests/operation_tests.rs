use rbridge::key::{Key, Modifier};
use rbridge::operation::{Chord, Operation, SwitchType};

fn named_keys() -> Vec<(&'static str, Key)> {
    vec![
        ("left", Key::LeftArrow),
        ("right", Key::RightArrow),
        ("up", Key::UpArrow),
        ("down", Key::DownArrow),
        ("tab", Key::Tab),
        ("home", Key::Home),
        ("end", Key::End),
        ("pageup", Key::PageUp),
        ("pagedown", Key::PageDown),
        ("delete", Key::Delete),
        ("backspace", Key::Backspace),
        ("return", Key::Return),
        ("space", Key::Space),
        ("escape", Key::Escape),
        ("f1", Key::F1),
        ("f2", Key::F2),
        ("f3", Key::F3),
        ("f4", Key::F4),
        ("f5", Key::F5),
        ("f6", Key::F6),
        ("f7", Key::F7),
        ("f8", Key::F8),
        ("f9", Key::F9),
        ("f10", Key::F10),
        ("f11", Key::F11),
        ("f12", Key::F12),
    ]
}

fn key_only(key: Key) -> Operation {
    Operation::Shortcut(false, false, false, false, false, key)
}

#[test]
fn empty_text_compiles_to_nothing() {
    assert_eq!(Operation::from_str(""), Operation::NoOp);
    assert_eq!(Operation::from_str("   "), Operation::NoOp);
    assert_eq!(Operation::from_str("\t\n"), Operation::NoOp);
}

#[test]
fn meta_alone_is_the_meta_key() {
    assert_eq!(Operation::from_str("meta"), key_only(Key::Meta));
    assert_eq!(Operation::from_str(" Meta "), key_only(Key::Meta));
}

#[test]
fn meta_among_tokens_is_a_modifier() {
    assert_eq!(
        Operation::from_str("meta+a"),
        Operation::Shortcut(false, false, false, true, false, Key::Layout('a'))
    );
    assert_eq!(Operation::from_str("ctrl+meta"), Operation::NoOp);
}

#[test]
fn ctrl_shift_a() {
    assert_eq!(
        Operation::from_str("ctrl+shift+a"),
        Operation::Shortcut(true, true, false, false, false, Key::Layout('a'))
    );
}

#[test]
fn every_named_key_is_recognized() {
    for (name, key) in named_keys() {
        assert_eq!(Operation::from_str(name), key_only(key), "{}", name);
    }
    assert_eq!(Operation::from_str("enter"), key_only(Key::Return));
    assert_eq!(Operation::from_str("esc"), key_only(Key::Escape));
}

#[test]
fn every_modifier_is_recognized() {
    assert_eq!(
        Operation::from_str("control+x"),
        Operation::Shortcut(true, false, false, false, false, Key::Layout('x'))
    );
    assert_eq!(
        Operation::from_str("ctrl+x"),
        Operation::Shortcut(true, false, false, false, false, Key::Layout('x'))
    );
    assert_eq!(
        Operation::from_str("shift+x"),
        Operation::Shortcut(false, true, false, false, false, Key::Layout('x'))
    );
    assert_eq!(
        Operation::from_str("alt+x"),
        Operation::Shortcut(false, false, true, false, false, Key::Layout('x'))
    );
    assert_eq!(
        Operation::from_str("capslock+x"),
        Operation::Shortcut(false, false, false, false, true, Key::Layout('x'))
    );
}

#[test]
fn text_is_lowercased_before_it_is_read() {
    assert_eq!(
        Operation::from_str("CTRL+A"),
        Operation::Shortcut(true, false, false, false, false, Key::Layout('a'))
    );
    assert_eq!(Operation::from_str("PageUp"), key_only(Key::PageUp));
    assert_eq!(Operation::from_str("É"), key_only(Key::Layout('é')));
}

#[test]
fn text_is_trimmed_before_it_is_read() {
    assert_eq!(Operation::from_str("  tab \n"), key_only(Key::Tab));
    assert_eq!(Operation::from_str("\u{a0}f5\u{2003}"), key_only(Key::F5));
    assert_eq!(Operation::from_str("ctrl + a"), Operation::NoOp);
}

#[test]
fn unknown_tokens_are_skipped() {
    assert_eq!(Operation::from_str("hyper+a"), key_only(Key::Layout('a')));
    assert_eq!(Operation::from_str("hyper"), Operation::NoOp);
    assert_eq!(Operation::from_str("ctrl"), Operation::NoOp);
    assert_eq!(Operation::from_str("ctrl+"), Operation::NoOp);
    assert_eq!(Operation::from_str("+"), Operation::NoOp);
    assert_eq!(
        Operation::from_str("ctrl++a"),
        Operation::Shortcut(true, false, false, false, false, Key::Layout('a'))
    );
}

#[test]
fn the_last_key_wins() {
    assert_eq!(Operation::from_str("a+b"), key_only(Key::Layout('b')));
    assert_eq!(
        Operation::from_str("tab+shift+f1"),
        Operation::Shortcut(false, true, false, false, false, Key::F1)
    );
    assert_eq!(
        Operation::from_str("a+ctrl"),
        Operation::Shortcut(true, false, false, false, false, Key::Layout('a'))
    );
}

#[test]
fn scheme_switches_are_parsed() {
    assert_eq!(
        Operation::from_str("&foo"),
        Operation::SwitchMapping(SwitchType::TemporaryAppend("foo".to_string()))
    );
    assert_eq!(
        Operation::from_str("&&foo"),
        Operation::SwitchMapping(SwitchType::Append("foo".to_string()))
    );
    assert_eq!(
        Operation::from_str("&&&foo"),
        Operation::SwitchMapping(SwitchType::Append("foo".to_string()))
    );
    assert_eq!(Operation::from_str("&return"), Operation::SwitchMapping(SwitchType::Return));
    assert_eq!(Operation::from_str("&default"), Operation::SwitchMapping(SwitchType::Default));
    assert_eq!(Operation::from_str("&&return"), Operation::SwitchMapping(SwitchType::Return));
    assert_eq!(Operation::from_str("&&default"), Operation::SwitchMapping(SwitchType::Default));
}

#[test]
fn scheme_switches_are_case_sensitive_and_not_trimmed() {
    assert_eq!(
        Operation::from_str("&Default"),
        Operation::SwitchMapping(SwitchType::TemporaryAppend("Default".to_string()))
    );
    assert_eq!(
        Operation::from_str("&Foo Bar"),
        Operation::SwitchMapping(SwitchType::TemporaryAppend("Foo Bar".to_string()))
    );
    assert_eq!(Operation::from_str(" &foo"), Operation::NoOp);
}

#[test]
fn text_that_only_looks_like_a_switch_is_a_shortcut() {
    assert_eq!(Operation::from_str("&"), key_only(Key::Layout('&')));
    assert_eq!(Operation::from_str("&&"), Operation::NoOp);
    assert_eq!(Operation::from_str("&a&b"), Operation::NoOp);
    assert_eq!(Operation::from_str("a&"), Operation::NoOp);
}

#[test]
fn shortcuts_of_key_combinations() {
    assert_eq!(
        Operation::Shortcut(true, true, false, false, false, Key::Layout('a')).shortcut(),
        "ctrl+shift+a"
    );
    assert_eq!(
        Operation::Shortcut(true, true, true, true, true, Key::PageDown).shortcut(),
        "ctrl+shift+alt+meta+capslock+pagedown"
    );
    assert_eq!(key_only(Key::Meta).shortcut(), "meta");
    assert_eq!(key_only(Key::Escape).shortcut(), "escape");
    assert_eq!(Operation::NoOp.shortcut(), "");
}

#[test]
fn shortcuts_of_switches() {
    assert_eq!(
        Operation::SwitchMapping(SwitchType::Append("nav".to_string())).shortcut(),
        "&&nav"
    );
    assert_eq!(
        Operation::SwitchMapping(SwitchType::TemporaryAppend("nav".to_string())).shortcut(),
        "&nav"
    );
    assert_eq!(Operation::SwitchMapping(SwitchType::Return).shortcut(), "&return");
    assert_eq!(Operation::SwitchMapping(SwitchType::Default).shortcut(), "&default");
}

#[test]
fn parsing_is_stable_for_every_named_key_and_modifier_combination() {
    for (name, key) in named_keys() {
        for bits in 0u8..32 {
            let ctrl = bits & 1 != 0;
            let shift = bits & 2 != 0;
            let alt = bits & 4 != 0;
            let meta = bits & 8 != 0;
            let caps_lock = bits & 16 != 0;
            let mut text = String::new();
            if ctrl {
                text.push_str("ctrl+");
            }
            if shift {
                text.push_str("shift+");
            }
            if alt {
                text.push_str("alt+");
            }
            if meta {
                text.push_str("meta+");
            }
            if caps_lock {
                text.push_str("capslock+");
            }
            text.push_str(name);
            let expected = Operation::Shortcut(ctrl, shift, alt, meta, caps_lock, key);
            let compiled = Operation::from_str(&text);
            assert_eq!(compiled, expected, "{}", text);
            assert_eq!(compiled.shortcut(), text);
            assert_eq!(Operation::from_str(&compiled.shortcut()), compiled);
        }
    }
}

#[test]
fn parsing_is_stable_in_any_order_and_case() {
    for text in ["Shift+Ctrl+A", "a+alt", " F12+CapsLock+meta ", "control+Enter", "x+y+z"] {
        let compiled = Operation::from_str(text);
        assert!(matches!(compiled, Operation::Shortcut(..)));
        assert_eq!(Operation::from_str(&compiled.shortcut()), compiled, "{}", text);
    }
}

#[test]
fn parse_shortcut_reads_normalized_text() {
    assert_eq!(
        Operation::parse_shortcut("alt+f4"),
        Operation::Shortcut(false, false, true, false, false, Key::F4)
    );
    assert_eq!(Operation::parse_shortcut("ALT+f4"), key_only(Key::F4));
    assert_eq!(Operation::parse_shortcut("A"), key_only(Key::Layout('A')));
    assert_eq!(Operation::parse_shortcut(" a"), Operation::NoOp);
    assert_eq!(Operation::parse_shortcut(""), Operation::NoOp);
}

#[test]
fn chord_reads_tokens() {
    let chord = Chord::new();
    assert_eq!(chord.key, None);
    let token: Vec<char> = "shift".chars().collect();
    let chord = chord.read(&token);
    assert!(chord.shift && !chord.ctrl && chord.key.is_none());
    let token: Vec<char> = "home".chars().collect();
    let chord = chord.read(&token);
    assert_eq!(chord.key, Some(Key::Home));
    assert_eq!(
        chord.into_operation(),
        Operation::Shortcut(false, true, false, false, false, Key::Home)
    );
}

#[test]
fn vocabulary_lookups() {
    let word = |s: &str| s.chars().collect::<Vec<char>>();
    assert_eq!(Modifier::from_token(&word("control")), Some(Modifier::Ctrl));
    assert_eq!(Modifier::from_token(&word("meta")), Some(Modifier::Meta));
    assert_eq!(Modifier::from_token(&word("a")), None);
    assert_eq!(Key::from_token(&word("pagedown")), Some(Key::PageDown));
    assert_eq!(Key::from_token(&word("+")), Some(Key::Layout('+')));
    assert_eq!(Key::from_token(&word("")), None);
    assert_eq!(Key::from_token(&word("f13")), None);
    assert_eq!(Key::F10.token(), "f10");
    assert_eq!(Key::Layout('q').token(), "q");
    assert_eq!(Modifier::CapsLock.token(), "capslock");
}

#[test]
fn switch_parse_on_characters() {
    let word = |s: &str| s.chars().collect::<Vec<char>>();
    assert_eq!(SwitchType::parse(&word("&x")), Some(SwitchType::TemporaryAppend("x".to_string())));
    assert_eq!(SwitchType::parse(&word("x")), None);
    assert_eq!(SwitchType::parse(&word("")), None);
    assert_eq!(SwitchType::parse(&word("&&&")), None);
}

#[test]
fn clones_are_equal() {
    let op = Operation::SwitchMapping(SwitchType::Append("nav".to_string()));
    assert_eq!(op.clone(), op);
    let op = Operation::Shortcut(true, false, true, false, true, Key::Layout('z'));
    assert_eq!(op.clone(), op);
}
