//! Key symbols, modifier keys, and the vocabulary that names them in shortcut
//! texts.

use vstd::prelude::*;
use vstd::string::StringExecFns;
use crate::text::{push_char, spells};

verus! {

/// A modifier key that can be held down while another key is pressed.
#[derive(Clone, Copy, Debug, PartialEq, Eq, Structural)]
pub enum Modifier {
    Ctrl,
    Shift,
    Alt,
    Meta,
    CapsLock,
}

/// A key that a shortcut presses.
#[derive(Clone, Copy, Debug, PartialEq, Eq, Structural)]
pub enum Key {
    LeftArrow,
    RightArrow,
    UpArrow,
    DownArrow,
    Tab,
    Home,
    End,
    PageUp,
    PageDown,
    Delete,
    Backspace,
    Return,
    Space,
    Escape,
    F1,
    F2,
    F3,
    F4,
    F5,
    F6,
    F7,
    F8,
    F9,
    F10,
    F11,
    F12,
    /// The meta key pressed on its own, not held as a modifier.
    Meta,
    /// The key that produces this character in the current keyboard layout.
    Layout(char),
}

/// The modifier that `token` names, if it names one.
pub open spec fn modifier_named(token: Seq<char>) -> Option<Modifier> {
    if token == "control"@ || token == "ctrl"@ {
        Some(Modifier::Ctrl)
    } else if token == "shift"@ {
        Some(Modifier::Shift)
    } else if token == "alt"@ {
        Some(Modifier::Alt)
    } else if token == "meta"@ {
        Some(Modifier::Meta)
    } else if token == "capslock"@ {
        Some(Modifier::CapsLock)
    } else {
        None
    }
}

/// The key that `token` names: one of the named keys, or the layout key of a
/// token that is a single character. No other token names a key.
pub open spec fn key_named(token: Seq<char>) -> Option<Key> {
    if token == "left"@ {
        Some(Key::LeftArrow)
    } else if token == "right"@ {
        Some(Key::RightArrow)
    } else if token == "up"@ {
        Some(Key::UpArrow)
    } else if token == "down"@ {
        Some(Key::DownArrow)
    } else if token == "tab"@ {
        Some(Key::Tab)
    } else if token == "home"@ {
        Some(Key::Home)
    } else if token == "end"@ {
        Some(Key::End)
    } else if token == "pageup"@ {
        Some(Key::PageUp)
    } else if token == "pagedown"@ {
        Some(Key::PageDown)
    } else if token == "delete"@ {
        Some(Key::Delete)
    } else if token == "backspace"@ {
        Some(Key::Backspace)
    } else if token == "return"@ || token == "enter"@ {
        Some(Key::Return)
    } else if token == "space"@ {
        Some(Key::Space)
    } else if token == "escape"@ || token == "esc"@ {
        Some(Key::Escape)
    } else if token == "f1"@ {
        Some(Key::F1)
    } else if token == "f2"@ {
        Some(Key::F2)
    } else if token == "f3"@ {
        Some(Key::F3)
    } else if token == "f4"@ {
        Some(Key::F4)
    } else if token == "f5"@ {
        Some(Key::F5)
    } else if token == "f6"@ {
        Some(Key::F6)
    } else if token == "f7"@ {
        Some(Key::F7)
    } else if token == "f8"@ {
        Some(Key::F8)
    } else if token == "f9"@ {
        Some(Key::F9)
    } else if token == "f10"@ {
        Some(Key::F10)
    } else if token == "f11"@ {
        Some(Key::F11)
    } else if token == "f12"@ {
        Some(Key::F12)
    } else if token.len() == 1 {
        Some(Key::Layout(token[0]))
    } else {
        None
    }
}

impl Modifier {
    /// The token that names this modifier in a shortcut text.
    pub open spec fn name(self) -> Seq<char> {
        match self {
            Modifier::Ctrl => "ctrl"@,
            Modifier::Shift => "shift"@,
            Modifier::Alt => "alt"@,
            Modifier::Meta => "meta"@,
            Modifier::CapsLock => "capslock"@,
        }
    }

    /// Looks `token` up in the modifier vocabulary.
    pub fn from_token(token: &Vec<char>) -> (modifier: Option<Modifier>)
        ensures
            modifier == modifier_named(token@),
    {
        if spells(token, "control") || spells(token, "ctrl") {
            Some(Modifier::Ctrl)
        } else if spells(token, "shift") {
            Some(Modifier::Shift)
        } else if spells(token, "alt") {
            Some(Modifier::Alt)
        } else if spells(token, "meta") {
            Some(Modifier::Meta)
        } else if spells(token, "capslock") {
            Some(Modifier::CapsLock)
        } else {
            None
        }
    }

    /// The token that names this modifier.
    pub fn token(self) -> (word: &'static str)
        ensures
            word@ == self.name(),
    {
        match self {
            Modifier::Ctrl => "ctrl",
            Modifier::Shift => "shift",
            Modifier::Alt => "alt",
            Modifier::Meta => "meta",
            Modifier::CapsLock => "capslock",
        }
    }
}

impl Key {
    /// The token that names this key in a shortcut text.
    pub open spec fn name(self) -> Seq<char> {
        match self {
            Key::LeftArrow => "left"@,
            Key::RightArrow => "right"@,
            Key::UpArrow => "up"@,
            Key::DownArrow => "down"@,
            Key::Tab => "tab"@,
            Key::Home => "home"@,
            Key::End => "end"@,
            Key::PageUp => "pageup"@,
            Key::PageDown => "pagedown"@,
            Key::Delete => "delete"@,
            Key::Backspace => "backspace"@,
            Key::Return => "return"@,
            Key::Space => "space"@,
            Key::Escape => "escape"@,
            Key::F1 => "f1"@,
            Key::F2 => "f2"@,
            Key::F3 => "f3"@,
            Key::F4 => "f4"@,
            Key::F5 => "f5"@,
            Key::F6 => "f6"@,
            Key::F7 => "f7"@,
            Key::F8 => "f8"@,
            Key::F9 => "f9"@,
            Key::F10 => "f10"@,
            Key::F11 => "f11"@,
            Key::F12 => "f12"@,
            Key::Meta => "meta"@,
            Key::Layout(c) => seq![c],
        }
    }

    /// Looks `token` up in the key vocabulary.
    pub fn from_token(token: &Vec<char>) -> (key: Option<Key>)
        ensures
            key == key_named(token@),
    {
        if spells(token, "left") {
            Some(Key::LeftArrow)
        } else if spells(token, "right") {
            Some(Key::RightArrow)
        } else if spells(token, "up") {
            Some(Key::UpArrow)
        } else if spells(token, "down") {
            Some(Key::DownArrow)
        } else if spells(token, "tab") {
            Some(Key::Tab)
        } else if spells(token, "home") {
            Some(Key::Home)
        } else if spells(token, "end") {
            Some(Key::End)
        } else if spells(token, "pageup") {
            Some(Key::PageUp)
        } else if spells(token, "pagedown") {
            Some(Key::PageDown)
        } else if spells(token, "delete") {
            Some(Key::Delete)
        } else if spells(token, "backspace") {
            Some(Key::Backspace)
        } else if spells(token, "return") || spells(token, "enter") {
            Some(Key::Return)
        } else if spells(token, "space") {
            Some(Key::Space)
        } else if spells(token, "escape") || spells(token, "esc") {
            Some(Key::Escape)
        } else if spells(token, "f1") {
            Some(Key::F1)
        } else if spells(token, "f2") {
            Some(Key::F2)
        } else if spells(token, "f3") {
            Some(Key::F3)
        } else if spells(token, "f4") {
            Some(Key::F4)
        } else if spells(token, "f5") {
            Some(Key::F5)
        } else if spells(token, "f6") {
            Some(Key::F6)
        } else if spells(token, "f7") {
            Some(Key::F7)
        } else if spells(token, "f8") {
            Some(Key::F8)
        } else if spells(token, "f9") {
            Some(Key::F9)
        } else if spells(token, "f10") {
            Some(Key::F10)
        } else if spells(token, "f11") {
            Some(Key::F11)
        } else if spells(token, "f12") {
            Some(Key::F12)
        } else if token.len() == 1 {
            Some(Key::Layout(token[0]))
        } else {
            None
        }
    }

    /// The token that names this key.
    pub fn token(self) -> (word: String)
        ensures
            word@ == self.name(),
    {
        match self {
            Key::LeftArrow => String::from_str("left"),
            Key::RightArrow => String::from_str("right"),
            Key::UpArrow => String::from_str("up"),
            Key::DownArrow => String::from_str("down"),
            Key::Tab => String::from_str("tab"),
            Key::Home => String::from_str("home"),
            Key::End => String::from_str("end"),
            Key::PageUp => String::from_str("pageup"),
            Key::PageDown => String::from_str("pagedown"),
            Key::Delete => String::from_str("delete"),
            Key::Backspace => String::from_str("backspace"),
            Key::Return => String::from_str("return"),
            Key::Space => String::from_str("space"),
            Key::Escape => String::from_str("escape"),
            Key::F1 => String::from_str("f1"),
            Key::F2 => String::from_str("f2"),
            Key::F3 => String::from_str("f3"),
            Key::F4 => String::from_str("f4"),
            Key::F5 => String::from_str("f5"),
            Key::F6 => String::from_str("f6"),
            Key::F7 => String::from_str("f7"),
            Key::F8 => String::from_str("f8"),
            Key::F9 => String::from_str("f9"),
            Key::F10 => String::from_str("f10"),
            Key::F11 => String::from_str("f11"),
            Key::F12 => String::from_str("f12"),
            Key::Meta => String::from_str("meta"),
            Key::Layout(c) => {
                let mut word = String::new();
                push_char(&mut word, c);
                assert(word@ == seq![c]);
                word
            },
        }
    }
}

} // verus!

verus! {

/// Makes the spelling of every word of the vocabulary known to the verifier.
pub proof fn lemma_vocabulary_spelling()
    ensures
        "control"@ == seq!['c', 'o', 'n', 't', 'r', 'o', 'l'],
        "ctrl"@ == seq!['c', 't', 'r', 'l'],
        "shift"@ == seq!['s', 'h', 'i', 'f', 't'],
        "alt"@ == seq!['a', 'l', 't'],
        "meta"@ == seq!['m', 'e', 't', 'a'],
        "capslock"@ == seq!['c', 'a', 'p', 's', 'l', 'o', 'c', 'k'],
        "left"@ == seq!['l', 'e', 'f', 't'],
        "right"@ == seq!['r', 'i', 'g', 'h', 't'],
        "up"@ == seq!['u', 'p'],
        "down"@ == seq!['d', 'o', 'w', 'n'],
        "tab"@ == seq!['t', 'a', 'b'],
        "home"@ == seq!['h', 'o', 'm', 'e'],
        "end"@ == seq!['e', 'n', 'd'],
        "pageup"@ == seq!['p', 'a', 'g', 'e', 'u', 'p'],
        "pagedown"@ == seq!['p', 'a', 'g', 'e', 'd', 'o', 'w', 'n'],
        "delete"@ == seq!['d', 'e', 'l', 'e', 't', 'e'],
        "backspace"@ == seq!['b', 'a', 'c', 'k', 's', 'p', 'a', 'c', 'e'],
        "return"@ == seq!['r', 'e', 't', 'u', 'r', 'n'],
        "enter"@ == seq!['e', 'n', 't', 'e', 'r'],
        "space"@ == seq!['s', 'p', 'a', 'c', 'e'],
        "escape"@ == seq!['e', 's', 'c', 'a', 'p', 'e'],
        "esc"@ == seq!['e', 's', 'c'],
        "f1"@ == seq!['f', '1'],
        "f2"@ == seq!['f', '2'],
        "f3"@ == seq!['f', '3'],
        "f4"@ == seq!['f', '4'],
        "f5"@ == seq!['f', '5'],
        "f6"@ == seq!['f', '6'],
        "f7"@ == seq!['f', '7'],
        "f8"@ == seq!['f', '8'],
        "f9"@ == seq!['f', '9'],
        "f10"@ == seq!['f', '1', '0'],
        "f11"@ == seq!['f', '1', '1'],
        "f12"@ == seq!['f', '1', '2'],
{
    reveal_strlit("control");
    reveal_strlit("ctrl");
    reveal_strlit("shift");
    reveal_strlit("alt");
    reveal_strlit("meta");
    reveal_strlit("capslock");
    reveal_strlit("left");
    reveal_strlit("right");
    reveal_strlit("up");
    reveal_strlit("down");
    reveal_strlit("tab");
    reveal_strlit("home");
    reveal_strlit("end");
    reveal_strlit("pageup");
    reveal_strlit("pagedown");
    reveal_strlit("delete");
    reveal_strlit("backspace");
    reveal_strlit("return");
    reveal_strlit("enter");
    reveal_strlit("space");
    reveal_strlit("escape");
    reveal_strlit("esc");
    reveal_strlit("f1");
    reveal_strlit("f2");
    reveal_strlit("f3");
    reveal_strlit("f4");
    reveal_strlit("f5");
    reveal_strlit("f6");
    reveal_strlit("f7");
    reveal_strlit("f8");
    reveal_strlit("f9");
    reveal_strlit("f10");
    reveal_strlit("f11");
    reveal_strlit("f12");
}

/// Every modifier is found again under its own name, and no modifier name
/// holds a `+`.
pub proof fn lemma_modifier_name(modifier: Modifier)
    ensures
        modifier_named(modifier.name()) == Some(modifier),
        !modifier.name().contains('+'),
        modifier.name().len() > 1,
{
    lemma_vocabulary_spelling();
}

/// Every key but the meta key is found again under its own name, which names
/// no modifier and holds no `+`, provided a layout key is not the `+` key.
pub proof fn lemma_key_name(key: Key)
    requires
        key != Key::Meta,
        key matches Key::Layout(c) ==> c != '+',
    ensures
        modifier_named(key.name()) is None,
        key_named(key.name()) == Some(key),
        !key.name().contains('+'),
        key.name().len() > 0,
{
    lemma_vocabulary_spelling();
    match key {
        Key::LeftArrow => { assert(key_named(key.name()) == Some(key)); },
        Key::RightArrow => { assert(key_named(key.name()) == Some(key)); },
        Key::UpArrow => { assert(key_named(key.name()) == Some(key)); },
        Key::DownArrow => { assert(key_named(key.name()) == Some(key)); },
        Key::Tab => { assert(key_named(key.name()) == Some(key)); },
        Key::Home => { assert(key_named(key.name()) == Some(key)); },
        Key::End => { assert(key_named(key.name()) == Some(key)); },
        Key::PageUp => { assert(key_named(key.name()) == Some(key)); },
        Key::PageDown => { assert(key_named(key.name()) == Some(key)); },
        Key::Delete => { assert(key_named(key.name()) == Some(key)); },
        Key::Backspace => { assert(key_named(key.name()) == Some(key)); },
        Key::Return => { assert(key_named(key.name()) == Some(key)); },
        Key::Space => { assert(key_named(key.name()) == Some(key)); },
        Key::Escape => { assert(key_named(key.name()) == Some(key)); },
        Key::F1 => { assert(key_named(key.name()) == Some(key)); },
        Key::F2 => { assert(key_named(key.name()) == Some(key)); },
        Key::F3 => { assert(key_named(key.name()) == Some(key)); },
        Key::F4 => { assert(key_named(key.name()) == Some(key)); },
        Key::F5 => { assert(key_named(key.name()) == Some(key)); },
        Key::F6 => { assert(key_named(key.name()) == Some(key)); },
        Key::F7 => { assert(key_named(key.name()) == Some(key)); },
        Key::F8 => { assert(key_named(key.name()) == Some(key)); },
        Key::F9 => { assert(key_named(key.name()) == Some(key)); },
        Key::F10 => {
            assert(key.name().len() == 3 && key.name()[0] == 'f');
            assert("tab"@[0] == 't' && "end"@[0] == 'e');
            assert(key_named(key.name()) == Some(key));
        },
        Key::F11 => {
            assert(key.name().len() == 3 && key.name()[0] == 'f');
            assert("tab"@[0] == 't' && "end"@[0] == 'e');
            assert(key_named(key.name()) == Some(key));
        },
        Key::F12 => {
            assert(key.name().len() == 3 && key.name()[0] == 'f');
            assert("tab"@[0] == 't' && "end"@[0] == 'e');
            assert(key_named(key.name()) == Some(key));
        },
        Key::Meta => {},
        Key::Layout(c) => {
            assert(key.name().len() == 1);
            assert(key.name()[0] == c);
        },
    }
}

} // verus!
