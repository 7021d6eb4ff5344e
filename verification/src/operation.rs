//! Operations: what a binding resolves to, and the parser that compiles a
//! shortcut text into one.

use vstd::prelude::*;
use vstd::string::StringExecFns;
use crate::key::{
    key_named, lemma_key_name, lemma_modifier_name, lemma_vocabulary_spelling, modifier_named, Key,
    Modifier,
};
use crate::text::{
    chars_of, lemma_split_joins, lemma_split_nonempty, lemma_split_word, lowercase, slice_of,
    spells, split, string_of, to_lowercase, trim_bounds, trimmed,
};

verus! {

/// How a braille mapping switch changes the stack of mapping layers.
#[derive(Debug, PartialEq, Eq)]
pub enum SwitchType {
    /// Push the named mapping; it stays until it is returned from.
    Append(String),
    /// Push the named mapping for a single translation.
    TemporaryAppend(String),
    /// Pop one layer, unless only the base layer remains.
    Return,
    /// Pop every layer above the base layer.
    Default,
}

/// The mathematical value of a [`SwitchType`].
pub enum SwitchTypeView {
    Append(Seq<char>),
    TemporaryAppend(Seq<char>),
    Return,
    Default,
}

/// The resolved action of a binding.
#[derive(Debug, PartialEq, Eq)]
pub enum Operation {
    /// A key pressed with the flagged modifiers: ctrl, shift, alt, meta, caps lock.
    Shortcut(bool, bool, bool, bool, bool, Key),
    /// A switch of the active braille mapping.
    SwitchMapping(SwitchType),
    /// Nothing to do.
    NoOp,
}

/// The mathematical value of an [`Operation`].
pub enum OperationView {
    Shortcut(bool, bool, bool, bool, bool, Key),
    SwitchMapping(SwitchTypeView),
    NoOp,
}

impl View for SwitchType {
    type V = SwitchTypeView;

    open spec fn view(&self) -> SwitchTypeView {
        match self {
            SwitchType::Append(name) => SwitchTypeView::Append(name@),
            SwitchType::TemporaryAppend(name) => SwitchTypeView::TemporaryAppend(name@),
            SwitchType::Return => SwitchTypeView::Return,
            SwitchType::Default => SwitchTypeView::Default,
        }
    }
}

impl View for Operation {
    type V = OperationView;

    open spec fn view(&self) -> OperationView {
        match self {
            Operation::Shortcut(ctrl, shift, alt, meta, caps_lock, key) => OperationView::Shortcut(
                *ctrl,
                *shift,
                *alt,
                *meta,
                *caps_lock,
                *key,
            ),
            Operation::SwitchMapping(switch) => OperationView::SwitchMapping(switch@),
            Operation::NoOp => OperationView::NoOp,
        }
    }
}

impl Clone for SwitchType {
    fn clone(&self) -> (copy: Self)
        ensures
            copy@ == self@,
    {
        match self {
            SwitchType::Append(name) => SwitchType::Append(name.clone()),
            SwitchType::TemporaryAppend(name) => SwitchType::TemporaryAppend(name.clone()),
            SwitchType::Return => SwitchType::Return,
            SwitchType::Default => SwitchType::Default,
        }
    }
}

impl Clone for Operation {
    fn clone(&self) -> (copy: Self)
        ensures
            copy@ == self@,
    {
        match self {
            Operation::Shortcut(ctrl, shift, alt, meta, caps_lock, key) => Operation::Shortcut(
                *ctrl,
                *shift,
                *alt,
                *meta,
                *caps_lock,
                *key,
            ),
            Operation::SwitchMapping(switch) => Operation::SwitchMapping(switch.clone()),
            Operation::NoOp => Operation::NoOp,
        }
    }
}

/// The modifiers and the key gathered while the tokens of a shortcut are read.
#[derive(Clone, Copy, Debug, PartialEq, Eq, Structural)]
pub struct Chord {
    pub ctrl: bool,
    pub shift: bool,
    pub alt: bool,
    pub meta: bool,
    pub caps_lock: bool,
    pub key: Option<Key>,
}

impl Chord {
    /// No modifier and no key.
    pub open spec fn empty() -> Chord {
        Chord { ctrl: false, shift: false, alt: false, meta: false, caps_lock: false, key: None }
    }

    /// The chord with `modifier` flagged.
    pub open spec fn with_modifier(self, modifier: Modifier) -> Chord {
        match modifier {
            Modifier::Ctrl => Chord { ctrl: true, ..self },
            Modifier::Shift => Chord { shift: true, ..self },
            Modifier::Alt => Chord { alt: true, ..self },
            Modifier::Meta => Chord { meta: true, ..self },
            Modifier::CapsLock => Chord { caps_lock: true, ..self },
        }
    }

    /// The chord after one more token: a modifier name flags that modifier, a
    /// key name replaces the key, any other token changes nothing.
    pub open spec fn with_token(self, token: Seq<char>) -> Chord {
        match modifier_named(token) {
            Some(modifier) => self.with_modifier(modifier),
            None => match key_named(token) {
                Some(key) => Chord { key: Some(key), ..self },
                None => self,
            },
        }
    }

    /// The operation the chord stands for: a shortcut if it has a key.
    pub open spec fn operation(self) -> OperationView {
        match self.key {
            Some(key) => OperationView::Shortcut(
                self.ctrl,
                self.shift,
                self.alt,
                self.meta,
                self.caps_lock,
                key,
            ),
            None => OperationView::NoOp,
        }
    }

    /// A chord with no modifier and no key.
    pub fn new() -> (chord: Chord)
        ensures
            chord == Chord::empty(),
    {
        Chord { ctrl: false, shift: false, alt: false, meta: false, caps_lock: false, key: None }
    }

    /// Reads one token into the chord.
    pub fn read(self, token: &Vec<char>) -> (chord: Chord)
        ensures
            chord == self.with_token(token@),
    {
        let mut chord = self;
        match Modifier::from_token(token) {
            Some(Modifier::Ctrl) => {
                chord.ctrl = true;
            },
            Some(Modifier::Shift) => {
                chord.shift = true;
            },
            Some(Modifier::Alt) => {
                chord.alt = true;
            },
            Some(Modifier::Meta) => {
                chord.meta = true;
            },
            Some(Modifier::CapsLock) => {
                chord.caps_lock = true;
            },
            None => match Key::from_token(token) {
                Some(key) => {
                    chord.key = Some(key);
                },
                None => {},
            },
        }
        chord
    }

    /// The operation the chord stands for.
    pub fn into_operation(self) -> (op: Operation)
        ensures
            op@ == self.operation(),
    {
        match self.key {
            Some(key) => Operation::Shortcut(
                self.ctrl,
                self.shift,
                self.alt,
                self.meta,
                self.caps_lock,
                key,
            ),
            None => Operation::NoOp,
        }
    }
}

/// The pieces of `text` between its `+` characters, in order. There is always
/// at least one piece, and a piece may be empty.
pub open spec fn tokens(text: Seq<char>) -> Seq<Seq<char>> {
    split(text, '+')
}

/// The chord that reading `tokens` from first to last leaves.
pub open spec fn scan(tokens: Seq<Seq<char>>) -> Chord
    decreases tokens.len(),
{
    if tokens.len() == 0 {
        Chord::empty()
    } else {
        scan(tokens.drop_last()).with_token(tokens.last())
    }
}

/// The operation that a trimmed, lowercased shortcut text stands for.
///
/// Empty text is no operation; the text `meta` is the meta key pressed alone;
/// any other text is split at `+` and its tokens are read in order.
pub open spec fn shortcut_of(normalized: Seq<char>) -> OperationView {
    if normalized.len() == 0 {
        OperationView::NoOp
    } else if normalized == "meta"@ {
        OperationView::Shortcut(false, false, false, false, false, Key::Meta)
    } else {
        scan(tokens(normalized)).operation()
    }
}

/// The number of `&` characters that `text` starts with.
pub open spec fn leading_ampersands(text: Seq<char>) -> nat
    decreases text.len(),
{
    if text.len() > 0 && text.first() == '&' {
        1 + leading_ampersands(text.drop_first())
    } else {
        0
    }
}

/// The mapping switch that `text` spells, if it spells one: one or more `&`
/// followed by a name that is not empty and holds no `&`. The names `default`
/// and `return` are the two fixed switches; any other name is pushed, for one
/// translation after a single `&`, to stay after several.
pub open spec fn switch_of(text: Seq<char>) -> Option<SwitchTypeView> {
    let marks = leading_ampersands(text);
    let name = text.skip(marks as int);
    if marks == 0 || name.len() == 0 || name.contains('&') {
        None
    } else if name == "default"@ {
        Some(SwitchTypeView::Default)
    } else if name == "return"@ {
        Some(SwitchTypeView::Return)
    } else if marks == 1 {
        Some(SwitchTypeView::TemporaryAppend(name))
    } else {
        Some(SwitchTypeView::Append(name))
    }
}

/// The operation that the shortcut text `text` stands for.
///
/// A mapping switch is recognised in the text as written; anything else is
/// trimmed and lowercased, then read as a key combination.
pub open spec fn compile(text: Seq<char>) -> OperationView {
    match switch_of(text) {
        Some(switch) => OperationView::SwitchMapping(switch),
        None => shortcut_of(lowercase(trimmed(text))),
    }
}

/// `tokens` never yields an empty list.
pub proof fn lemma_tokens_nonempty(text: Seq<char>)
    ensures
        tokens(text).len() >= 1,
{
    lemma_split_nonempty(text, '+');
}

impl SwitchType {
    /// Reads a mapping switch from `text`, if it spells one.
    pub fn parse(text: &Vec<char>) -> (switch: Option<SwitchType>)
        ensures
            match switch {
                Some(s) => switch_of(text@) == Some(s@),
                None => switch_of(text@).is_none(),
            },
    {
        let n = text.len();
        let mut marks: usize = 0;
        assert(text@.skip(0) == text@);
        while marks < n && text[marks] == '&'
            invariant
                n == text@.len(),
                marks <= n,
                leading_ampersands(text@) == marks + leading_ampersands(text@.skip(marks as int)),
            decreases n - marks,
        {
            assert(text@.skip(marks as int).drop_first() == text@.skip(marks + 1));
            marks = marks + 1;
        }
        assert(leading_ampersands(text@) == marks);
        if marks == 0 || marks == n {
            return None;
        }
        let ghost name = text@.skip(marks as int);
        let mut i: usize = marks;
        while i < n
            invariant
                marks <= i <= n,
                n == text@.len(),
                name == text@.skip(marks as int),
                leading_ampersands(text@) == marks,
                forall|j: int| 0 <= j < i - marks ==> name[j] != '&',
            decreases n - i,
        {
            if text[i] == '&' {
                assert(name[i - marks] == '&');
                return None;
            }
            i = i + 1;
        }
        assert(!name.contains('&'));
        let letters = slice_of(text, marks, n);
        assert(letters@ == name);
        if spells(&letters, "default") {
            Some(SwitchType::Default)
        } else if spells(&letters, "return") {
            Some(SwitchType::Return)
        } else if marks == 1 {
            Some(SwitchType::TemporaryAppend(string_of(text, marks, n)))
        } else {
            Some(SwitchType::Append(string_of(text, marks, n)))
        }
    }
}

impl Operation {
    /// Reads a key combination from text that is already trimmed and lowercased.
    pub fn parse_shortcut(normalized: &str) -> (op: Operation)
        ensures
            op@ == shortcut_of(normalized@),
    {
        let text = chars_of(normalized);
        let n = text.len();
        if n == 0 {
            return Operation::NoOp;
        }
        if spells(&text, "meta") {
            return Operation::Shortcut(false, false, false, false, false, Key::Meta);
        }
        let mut chord = Chord::new();
        let mut token: Vec<char> = Vec::new();
        let mut i: usize = 0;
        assert(text@.take(0) == Seq::<char>::empty());
        assert(tokens(text@.take(0)).drop_last() == Seq::<Seq<char>>::empty());
        while i < n
            invariant
                n == text@.len(),
                i <= n,
                chord == scan(tokens(text@.take(i as int)).drop_last()),
                token@ == tokens(text@.take(i as int)).last(),
            decreases n - i,
        {
            let c = text[i];
            proof {
                let before = tokens(text@.take(i as int));
                let now = text@.take(i + 1);
                lemma_tokens_nonempty(text@.take(i as int));
                assert(now.drop_last() == text@.take(i as int));
                assert(now.last() == c);
                if c == '+' {
                    assert(tokens(now).drop_last() == before);
                } else {
                    assert(tokens(now).drop_last() == before.drop_last());
                }
            }
            if c == '+' {
                chord = chord.read(&token);
                token = Vec::new();
            } else {
                token.push(c);
            }
            i = i + 1;
        }
        proof {
            assert(text@.take(n as int) == text@);
            lemma_tokens_nonempty(text@);
        }
        chord = chord.read(&token);
        chord.into_operation()
    }

    /// Compiles a shortcut text. Text that spells nothing compiles to
    /// [`Operation::NoOp`].
    pub fn from_str(input: &str) -> (op: Operation)
        ensures
            op@ == compile(input@),
    {
        let text = chars_of(input);
        match SwitchType::parse(&text) {
            Some(switch) => Operation::SwitchMapping(switch),
            None => {
                let (start, end) = trim_bounds(&text);
                let core = string_of(&text, start, end);
                let lowered = to_lowercase(core.as_str());
                Operation::parse_shortcut(lowered.as_str())
            },
        }
    }
}

} // verus!

verus! {

/// The text that flags `modifier` in a shortcut text when `held` is
/// set: its name and a `+`. Empty when `held` is not set.
pub open spec fn held_prefix(held: bool, modifier: Modifier) -> Seq<char> {
    if held {
        modifier.name().push('+')
    } else {
        Seq::<char>::empty()
    }
}

impl OperationView {
    /// The shortcut text that spells this operation: the held
    /// modifiers in the order ctrl, shift, alt, meta, capslock, each followed
    /// by `+`, then the name of the key; or `&` marks and the name of the
    /// mapping to switch to; or nothing.
    pub open spec fn shortcut(self) -> Seq<char> {
        match self {
            OperationView::Shortcut(ctrl, shift, alt, meta, caps_lock, key) => held_prefix(
                ctrl,
                Modifier::Ctrl,
            ) + held_prefix(shift, Modifier::Shift) + held_prefix(alt, Modifier::Alt)
                + held_prefix(meta, Modifier::Meta) + held_prefix(caps_lock, Modifier::CapsLock)
                + key.name(),
            OperationView::SwitchMapping(SwitchTypeView::Append(name)) => seq!['&', '&'] + name,
            OperationView::SwitchMapping(SwitchTypeView::TemporaryAppend(name)) => seq!['&']
                + name,
            OperationView::SwitchMapping(SwitchTypeView::Return) => seq!['&'] + "return"@,
            OperationView::SwitchMapping(SwitchTypeView::Default) => seq!['&'] + "default"@,
            OperationView::NoOp => Seq::<char>::empty(),
        }
    }

    /// Whether reading the operation's own shortcut text gives the
    /// operation back. The meta key cannot be pressed with modifiers, since
    /// `meta` among other tokens names the modifier; a layout key cannot be
    /// `+`, which separates tokens; a mapping name cannot be empty, hold `&`,
    /// or be one of the two fixed switches.
    pub open spec fn spellable(self) -> bool {
        match self {
            OperationView::Shortcut(ctrl, shift, alt, meta, caps_lock, key) => match key {
                Key::Meta => !ctrl && !shift && !alt && !meta && !caps_lock,
                Key::Layout(c) => c != '+',
                _ => true,
            },
            OperationView::SwitchMapping(SwitchTypeView::Append(name)) => spellable_name(name),
            OperationView::SwitchMapping(SwitchTypeView::TemporaryAppend(name)) => spellable_name(
                name,
            ),
            _ => true,
        }
    }
}

/// Whether `name` can follow the `&` marks of a mapping switch and be read back
/// as the name of a mapping to push.
pub open spec fn spellable_name(name: Seq<char>) -> bool {
    name.len() > 0 && !name.contains('&') && name != "default"@ && name != "return"@
}

/// Appends to `text` what flags `modifier` when `held` is set.
fn append_held(text: &mut String, held: bool, modifier: Modifier)
    ensures
        final(text)@ == old(text)@ + held_prefix(held, modifier),
{
    if held {
        text.append(modifier.token());
        text.append("+");
        proof {
            reveal_strlit("+");
            assert("+"@ == seq!['+']);
            assert(text@ =~= old(text)@ + modifier.name().push('+'));
        }
    } else {
        assert(text@ =~= old(text)@ + Seq::<char>::empty());
    }
}

impl Operation {
    /// The shortcut text that spells this operation.
    pub fn shortcut(&self) -> (text: String)
        ensures
            text@ == self@.shortcut(),
    {
        let mut text = String::new();
        match self {
            Operation::Shortcut(ctrl, shift, alt, meta, caps_lock, key) => {
                append_held(&mut text, *ctrl, Modifier::Ctrl);
                append_held(&mut text, *shift, Modifier::Shift);
                append_held(&mut text, *alt, Modifier::Alt);
                append_held(&mut text, *meta, Modifier::Meta);
                append_held(&mut text, *caps_lock, Modifier::CapsLock);
                let name = key.token();
                text.append(name.as_str());
                assert(text@ =~= self@.shortcut());
            },
            Operation::SwitchMapping(SwitchType::Append(name)) => {
                text.append("&&");
                text.append(name.as_str());
                proof {
                    reveal_strlit("&&");
                    assert("&&"@ == seq!['&', '&']);
                }
            },
            Operation::SwitchMapping(SwitchType::TemporaryAppend(name)) => {
                text.append("&");
                text.append(name.as_str());
                proof {
                    reveal_strlit("&");
                    assert("&"@ == seq!['&']);
                }
            },
            Operation::SwitchMapping(SwitchType::Return) => {
                text.append("&");
                text.append("return");
                proof {
                    reveal_strlit("&");
                    assert("&"@ == seq!['&']);
                }
            },
            Operation::SwitchMapping(SwitchType::Default) => {
                text.append("&");
                text.append("default");
                proof {
                    reveal_strlit("&");
                    assert("&"@ == seq!['&']);
                }
            },
            Operation::NoOp => {},
        }
        text
    }
}

} // verus!

verus! {

/// Appending a word that holds no `+` lengthens the last token and leaves the
/// tokens before it as they were.
proof fn lemma_tokens_word(text: Seq<char>, word: Seq<char>)
    requires
        !word.contains('+'),
    ensures
        tokens(text + word) == tokens(text).drop_last().push(tokens(text).last() + word),
{
    lemma_split_word(text, word, '+');
}

/// No token holds a `+`.
proof fn lemma_tokens_hold_no_plus(text: Seq<char>)
    ensures
        forall|i: int| 0 <= i < tokens(text).len() ==> !(#[trigger] tokens(text)[i]).contains('+'),
{
    lemma_split_joins(text, '+');
}

/// A key read from tokens that hold no `+` is never the meta key and never
/// the layout key `+`.
proof fn lemma_scan_key(words: Seq<Seq<char>>)
    requires
        forall|i: int| 0 <= i < words.len() ==> !(#[trigger] words[i]).contains('+'),
    ensures
        scan(words).key matches Some(key) ==> key != Key::Meta && (key matches Key::Layout(c)
            ==> c != '+'),
    decreases words.len(),
{
    if words.len() > 0 {
        lemma_scan_key(words.drop_last());
        let word = words.last();
        assert(!word.contains('+'));
        if word.len() == 1 {
            assert(word[0] != '+');
        }
    }
}

/// Appending what flags a modifier to text that ends a token completes one
/// more token, which flags that modifier.
proof fn lemma_held_prefix(text: Seq<char>, held: bool, modifier: Modifier)
    requires
        tokens(text).last().len() == 0,
    ensures
        tokens(text + held_prefix(held, modifier)).last().len() == 0,
        scan(tokens(text + held_prefix(held, modifier)).drop_last()) == if held {
            scan(tokens(text).drop_last()).with_modifier(modifier)
        } else {
            scan(tokens(text).drop_last())
        },
{
    lemma_tokens_nonempty(text);
    if held {
        let name = modifier.name();
        lemma_modifier_name(modifier);
        lemma_tokens_word(text, name);
        let named = text + name;
        assert(text + held_prefix(held, modifier) == named.push('+'));
        assert(named.push('+').drop_last() == named);
        assert(tokens(named.push('+')) == tokens(named).push(Seq::<char>::empty()));
        assert(tokens(named.push('+')).drop_last() == tokens(named));
        assert(tokens(named).drop_last() == tokens(text).drop_last());
        assert(tokens(named).last() == name) by {
            assert(tokens(text).last() + name == name);
        }
    } else {
        assert(text + held_prefix(held, modifier) == text);
    }
}

/// Reading the shortcut text of a spellable key combination gives
/// the combination back.
pub proof fn lemma_shortcut_round_trip(op: OperationView)
    requires
        op is Shortcut,
        op.spellable(),
    ensures
        shortcut_of(op.shortcut()) == op,
{
    let ctrl = op->Shortcut_0;
    let shift = op->Shortcut_1;
    let alt = op->Shortcut_2;
    let meta = op->Shortcut_3;
    let caps_lock = op->Shortcut_4;
    let key = op->Shortcut_5;
    lemma_vocabulary_spelling();
    let t0 = Seq::<char>::empty();
    let t1 = t0 + held_prefix(ctrl, Modifier::Ctrl);
    let t2 = t1 + held_prefix(shift, Modifier::Shift);
    let t3 = t2 + held_prefix(alt, Modifier::Alt);
    let t4 = t3 + held_prefix(meta, Modifier::Meta);
    let t5 = t4 + held_prefix(caps_lock, Modifier::CapsLock);
    let text = t5 + key.name();
    assert(t1 == held_prefix(ctrl, Modifier::Ctrl));
    assert(text == op.shortcut());
    if key == Key::Meta {
        assert(t5 == t0);
        assert(text == "meta"@);
    } else {
        assert(tokens(t0).drop_last() == Seq::<Seq<char>>::empty());
        lemma_held_prefix(t0, ctrl, Modifier::Ctrl);
        lemma_held_prefix(t1, shift, Modifier::Shift);
        lemma_held_prefix(t2, alt, Modifier::Alt);
        lemma_held_prefix(t3, meta, Modifier::Meta);
        lemma_held_prefix(t4, caps_lock, Modifier::CapsLock);
        lemma_key_name(key);
        lemma_tokens_word(t5, key.name());
        lemma_tokens_nonempty(t5);
        let held = scan(tokens(t5).drop_last());
        assert(held == Chord { ctrl, shift, alt, meta, caps_lock, key: None });
        assert(tokens(text).drop_last() == tokens(t5).drop_last());
        assert(tokens(text).last() == key.name()) by {
            assert(tokens(t5).last() + key.name() == key.name());
        }
        assert(scan(tokens(text)) == held.with_token(key.name()));
        assert(text.len() > 0);
        assert(text != "meta"@) by {
            if text == "meta"@ {
                lemma_tokens_word(t0, "meta"@);
                assert(t0 + "meta"@ == "meta"@);
                assert(tokens(text).last() == t0 + "meta"@);
            }
        }
    }
}

/// Parse stability: whatever key combination a normalized shortcut text is
/// read as, writing that combination out and reading it again gives the same
/// combination.
pub proof fn lemma_parse_stability(normalized: Seq<char>)
    ensures
        shortcut_of(normalized) is Shortcut ==> shortcut_of(normalized).spellable() && shortcut_of(
            shortcut_of(normalized).shortcut(),
        ) == shortcut_of(normalized),
{
    let op = shortcut_of(normalized);
    if op is Shortcut {
        if normalized.len() != 0 && normalized != "meta"@ {
            lemma_tokens_hold_no_plus(normalized);
            lemma_scan_key(tokens(normalized));
        }
        lemma_shortcut_round_trip(op);
    }
}

/// Compiling the shortcut text of a spellable mapping switch gives
/// the switch back.
pub proof fn lemma_switch_round_trip(op: OperationView)
    requires
        op is SwitchMapping,
        op.spellable(),
    ensures
        compile(op.shortcut()) == op,
{
    reveal_strlit("default");
    reveal_strlit("return");
    let text = op.shortcut();
    let switch = op->SwitchMapping_0;
    let name = match switch {
        SwitchTypeView::Append(name) => name,
        SwitchTypeView::TemporaryAppend(name) => name,
        SwitchTypeView::Return => "return"@,
        SwitchTypeView::Default => "default"@,
    };
    assert(name.len() > 0 && !name.contains('&'));
    assert(name[0] != '&');
    assert(leading_ampersands(name) == 0);
    if switch is Append {
        assert(text.drop_first() == seq!['&'] + name);
        assert(text.drop_first().drop_first() == name);
        assert(text.drop_first().first() == '&');
        assert(leading_ampersands(text.drop_first()) == 1);
        assert(text.first() == '&');
        assert(leading_ampersands(text) == 2);
        assert(text.skip(2) == name);
    } else {
        assert(text.drop_first() == name);
        assert(leading_ampersands(text) == 1);
        assert(text.skip(1) == name);
    }
}

} // verus!

verus! {

/// The shortcut text of a key combination never spells a mapping
/// switch.
pub proof fn lemma_shortcut_is_no_switch(op: OperationView)
    requires
        op is Shortcut,
        op.spellable(),
    ensures
        switch_of(op.shortcut()) is None,
{
    lemma_vocabulary_spelling();
    let ctrl = op->Shortcut_0;
    let shift = op->Shortcut_1;
    let alt = op->Shortcut_2;
    let meta = op->Shortcut_3;
    let caps_lock = op->Shortcut_4;
    let key = op->Shortcut_5;
    let ctrl_part = held_prefix(ctrl, Modifier::Ctrl);
    let shift_part = held_prefix(shift, Modifier::Shift);
    let alt_part = held_prefix(alt, Modifier::Alt);
    let meta_part = held_prefix(meta, Modifier::Meta);
    let caps_part = held_prefix(caps_lock, Modifier::CapsLock);
    let text = op.shortcut();
    assert(text == ctrl_part + shift_part + alt_part + meta_part + caps_part + key.name());
    assert(key.name().len() > 0);
    assert(text.len() > 0);
    if text[0] == '&' {
        assert(ctrl_part.len() == 0 || ctrl_part[0] == 'c');
        assert(shift_part.len() == 0 || shift_part[0] == 's');
        assert(alt_part.len() == 0 || alt_part[0] == 'a');
        assert(meta_part.len() == 0 || meta_part[0] == 'm');
        assert(caps_part.len() == 0 || caps_part[0] == 'c');
        assert(!ctrl && !shift && !alt && !meta && !caps_lock);
        assert(text == key.name());
        assert(key == Key::Layout('&'));
        assert(text.len() == 1);
        assert(leading_ampersands(text.drop_first()) == 0);
        assert(leading_ampersands(text) == 1);
        assert(text.skip(1).len() == 0);
    } else {
        assert(leading_ampersands(text) == 0);
    }
}

/// Parse stability of `compile`: when a text compiles to a key combination
/// and the shortcut text of that combination is text that trimming
/// and lowercasing leave as it is, then compiling that text gives the
/// same combination.
pub proof fn lemma_compile_stability(text: Seq<char>)
    ensures
        compile(text) is Shortcut && lowercase(trimmed(compile(text).shortcut())) == compile(
            text,
        ).shortcut() ==> compile(compile(text).shortcut()) == compile(text),
{
    let op = compile(text);
    if op is Shortcut {
        lemma_parse_stability(lowercase(trimmed(text)));
        lemma_shortcut_is_no_switch(op);
    }
}

} // verus!
