use rbridge::braille::{
    find_mapping, read_dots, BrailleMapping, BrailleScheme, BrailleSchemeManager, Line,
    MappingNotFound,
};
use rbridge::error::ConfigError;
use rbridge::key::Key;
use rbridge::operation::{Operation, SwitchType};

const DEFAULT_SCRIPT: &str = "// letters\n\na=1\nctrl+a = 12\n&&nav=14\n&symbols =145\nnot an assignment\nx=7\n&missing=4\n";
const NAV_SCRIPT: &str = "left=1\r\nright=2\r\n&return=123\r\n&default=456";

fn letter(c: char) -> Operation {
    Operation::Shortcut(false, false, false, false, false, Key::Layout(c))
}

fn scheme() -> BrailleScheme {
    let default = BrailleMapping::from_script("default", DEFAULT_SCRIPT).0;
    let nav = BrailleMapping::from_script("nav", NAV_SCRIPT).0;
    let symbols = BrailleMapping::from_script("symbols", "!=1").0;
    BrailleScheme::new("main", vec![nav, default, symbols]).unwrap()
}

fn line(text: &str) -> Line {
    Line::parse(&text.chars().collect())
}

#[test]
fn lines_of_a_script() {
    assert_eq!(line(""), Line::Blank);
    assert_eq!(line("  \t "), Line::Blank);
    assert_eq!(line("// a=1"), Line::Comment);
    assert_eq!(line("  //"), Line::Comment);
    assert_eq!(line("a=1"), Line::Assignment(1, letter('a')));
    assert_eq!(line("  Shift+B = 12 "), Line::Assignment(
        3,
        Operation::Shortcut(false, true, false, false, false, Key::Layout('b'))
    ));
    assert_eq!(line("f1=654321"), Line::Assignment(63, Operation::Shortcut(
        false, false, false, false, false, Key::F1
    )));
    assert_eq!(line("a=11"), Line::Assignment(1, letter('a')));
    assert_eq!(line("a=6"), Line::Assignment(32, letter('a')));
    assert_eq!(line("==3"), Line::Assignment(4, letter('=')));
    assert_eq!(line("=3"), Line::Assignment(4, Operation::NoOp));
    assert_eq!(line("nonsense=3"), Line::Assignment(4, Operation::NoOp));
    assert_eq!(
        line("&nav =2"),
        Line::Assignment(2, Operation::SwitchMapping(SwitchType::TemporaryAppend("nav".to_string())))
    );
}

#[test]
fn lines_that_are_not_recognized() {
    assert_eq!(line("a"), Line::Unrecognized);
    assert_eq!(line("a="), Line::Unrecognized);
    assert_eq!(line("a=0"), Line::Unrecognized);
    assert_eq!(line("a=7"), Line::Unrecognized);
    assert_eq!(line("a=1 2"), Line::Unrecognized);
    assert_eq!(line("a=12x"), Line::Unrecognized);
    assert_eq!(line("/ a=1 /"), Line::Unrecognized);
    assert_eq!(line("1=a"), Line::Unrecognized);
}

#[test]
fn a_script_becomes_a_table() {
    let (mapping, warnings) = BrailleMapping::from_script("default", DEFAULT_SCRIPT);
    assert_eq!(mapping.name(), "default");
    assert_eq!(warnings, vec![6, 7]);
    assert_eq!(mapping.lookup(1), Some(&letter('a')));
    assert_eq!(
        mapping.lookup(3),
        Some(&Operation::Shortcut(true, false, false, false, false, Key::Layout('a')))
    );
    assert_eq!(
        mapping.lookup(9),
        Some(&Operation::SwitchMapping(SwitchType::Append("nav".to_string())))
    );
    assert_eq!(
        mapping.lookup(25),
        Some(&Operation::SwitchMapping(SwitchType::TemporaryAppend("symbols".to_string())))
    );
    assert_eq!(mapping.lookup(0), None);
    assert_eq!(mapping.lookup(2), None);
    assert_eq!(mapping.lookup(63), None);
    assert_eq!(mapping.lookup(64), None);
    assert_eq!(mapping.lookup(255), None);
    assert_eq!(mapping.clone().lookup(1), Some(&letter('a')));
}

#[test]
fn a_later_assignment_replaces_an_earlier_one() {
    let (mapping, warnings) = BrailleMapping::from_script("m", "a=1\nb=1\n");
    assert!(warnings.is_empty());
    assert_eq!(mapping.lookup(1), Some(&letter('b')));
}

#[test]
fn carriage_returns_and_a_missing_last_newline_are_fine() {
    let (mapping, warnings) = BrailleMapping::from_script("nav", NAV_SCRIPT);
    assert!(warnings.is_empty());
    assert_eq!(
        mapping.lookup(1),
        Some(&Operation::Shortcut(false, false, false, false, false, Key::LeftArrow))
    );
    assert_eq!(mapping.lookup(7), Some(&Operation::SwitchMapping(SwitchType::Return)));
    assert_eq!(mapping.lookup(56), Some(&Operation::SwitchMapping(SwitchType::Default)));
}

#[test]
fn an_empty_script_assigns_nothing() {
    let (mapping, warnings) = BrailleMapping::from_script("empty", "");
    assert!(warnings.is_empty());
    for combination in 0..=255u8 {
        assert_eq!(mapping.lookup(combination), None);
        assert_eq!(BrailleMapping::new("blank").lookup(combination), None);
    }
}

#[test]
fn a_scheme_needs_a_default_mapping() {
    let nav = BrailleMapping::from_script("nav", NAV_SCRIPT).0;
    assert_eq!(
        BrailleScheme::new("main", vec![nav]).unwrap_err(),
        ConfigError::MissingDefaultMapping
    );
    assert_eq!(BrailleScheme::new("main", vec![]).unwrap_err(), ConfigError::MissingDefaultMapping);
}

#[test]
fn a_scheme_starts_on_its_default_mapping() {
    let scheme = scheme();
    assert_eq!(scheme.name(), "main");
    assert_eq!(scheme.depth(), 1);
    assert_eq!(scheme.active_mapping().name(), "default");
}

#[test]
fn mappings_are_found_by_name() {
    let mappings = vec![BrailleMapping::new("a"), BrailleMapping::new("b"), BrailleMapping::new("a")];
    assert_eq!(find_mapping(&mappings, "a"), Some(0));
    assert_eq!(find_mapping(&mappings, "b"), Some(1));
    assert_eq!(find_mapping(&mappings, "A"), None);
}

#[test]
fn a_temporary_layer_is_gone_after_one_translation_hit_or_miss() {
    for combination in [1u8, 2, 0, 63] {
        let mut scheme = scheme();
        scheme.switch_mapping(&SwitchType::Append("nav".to_string())).unwrap();
        let depth = scheme.depth();
        scheme.switch_mapping(&SwitchType::TemporaryAppend("symbols".to_string())).unwrap();
        assert_eq!(scheme.depth(), depth + 1);
        assert_eq!(scheme.active_mapping().name(), "symbols");
        let translated = scheme.translate_combination(combination);
        assert_eq!(translated, if combination == 1 { Some(letter('!')) } else { None });
        assert_eq!(scheme.depth(), depth);
        assert_eq!(scheme.active_mapping().name(), "nav");
    }
}

#[test]
fn a_persistent_layer_stays_until_a_return() {
    let mut scheme = scheme();
    scheme.switch_mapping(&SwitchType::Append("nav".to_string())).unwrap();
    assert_eq!(scheme.depth(), 2);
    assert_eq!(
        scheme.translate_combination(2),
        Some(Operation::Shortcut(false, false, false, false, false, Key::RightArrow))
    );
    assert_eq!(scheme.translate_combination(40), None);
    assert_eq!(scheme.depth(), 2);
    scheme.switch_mapping(&SwitchType::Return).unwrap();
    assert_eq!(scheme.depth(), 1);
    assert_eq!(scheme.active_mapping().name(), "default");
}

#[test]
fn a_return_never_pops_the_base_layer() {
    let mut scheme = scheme();
    scheme.switch_mapping(&SwitchType::Return).unwrap();
    scheme.switch_mapping(&SwitchType::Return).unwrap();
    assert_eq!(scheme.depth(), 1);
    assert_eq!(scheme.translate_combination(1), Some(letter('a')));
    assert_eq!(scheme.depth(), 1);
}

#[test]
fn a_switch_to_default_pops_every_layer_above_the_base() {
    let mut scheme = scheme();
    scheme.switch_mapping(&SwitchType::Append("nav".to_string())).unwrap();
    scheme.switch_mapping(&SwitchType::Append("symbols".to_string())).unwrap();
    scheme.switch_mapping(&SwitchType::TemporaryAppend("nav".to_string())).unwrap();
    assert_eq!(scheme.depth(), 4);
    scheme.switch_mapping(&SwitchType::Default).unwrap();
    assert_eq!(scheme.depth(), 1);
    assert_eq!(scheme.active_mapping().name(), "default");
    scheme.switch_mapping(&SwitchType::Default).unwrap();
    assert_eq!(scheme.depth(), 1);
}

#[test]
fn a_switch_to_an_unknown_mapping_fails_and_changes_nothing() {
    let mut scheme = scheme();
    scheme.switch_mapping(&SwitchType::Append("nav".to_string())).unwrap();
    let error = scheme.switch_mapping(&SwitchType::Append("missing".to_string())).unwrap_err();
    assert_eq!(error, MappingNotFound { name: "missing".to_string() });
    assert_eq!(error.message(), "Mapping not found: missing");
    let error =
        scheme.switch_mapping(&SwitchType::TemporaryAppend("Nav".to_string())).unwrap_err();
    assert_eq!(error.name, "Nav");
    assert_eq!(scheme.depth(), 2);
    assert_eq!(scheme.active_mapping().name(), "nav");
}

#[test]
fn only_the_first_scheme_is_active() {
    let first = scheme();
    let second = BrailleScheme::new("other", vec![BrailleMapping::new("default")]).unwrap();
    let manager = BrailleSchemeManager::new(vec![first, second]);
    assert_eq!(manager.active().unwrap().name(), "main");
    assert!(BrailleSchemeManager::new(vec![]).active().is_none());
}

#[test]
fn dot_digits_make_a_combination() {
    let dots = |text: &str| read_dots(&text.chars().collect());
    assert_eq!(dots("1"), Some(1));
    assert_eq!(dots("2"), Some(2));
    assert_eq!(dots("3"), Some(4));
    assert_eq!(dots("4"), Some(8));
    assert_eq!(dots("5"), Some(16));
    assert_eq!(dots("6"), Some(32));
    assert_eq!(dots("135"), Some(21));
    assert_eq!(dots("531135"), Some(21));
    assert_eq!(dots("123456"), Some(63));
    assert_eq!(dots(""), None);
    assert_eq!(dots("0"), None);
    assert_eq!(dots("17"), None);
    assert_eq!(dots("1 2"), None);
}
