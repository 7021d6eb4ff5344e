//! The braille mapping engine: tables from six-dot combinations to
//! operations, read from mapping scripts, and the stack of mapping layers that
//! decides which table translates the next combination.

use vstd::prelude::*;
use vstd::string::StringExecFns;
use crate::error::ConfigError;
use crate::lookup::{
    first_position, lemma_first_where, lemma_first_where_found, lemma_first_where_none, same_as,
    views,
};
use crate::operation::{compile, Operation, OperationView, SwitchType, SwitchTypeView};
use crate::text::{
    chars_of, lemma_split_nonempty, same_text, slice_of, split, string_of, trim_bounds, trimmed,
};

verus! {

/// Whether `c` is one of the dot digits `1` to `6`.
pub open spec fn is_dot(c: char) -> bool {
    c == '1' || c == '2' || c == '3' || c == '4' || c == '5' || c == '6'
}

/// The bit that stands for the dot digit `c` in a combination: dot `k` is bit
/// `k - 1`. No bit for any other character.
pub open spec fn dot_bit(c: char) -> u8 {
    if c == '1' {
        1
    } else if c == '2' {
        2
    } else if c == '3' {
        4
    } else if c == '4' {
        8
    } else if c == '5' {
        16
    } else if c == '6' {
        32
    } else {
        0
    }
}

/// The combination that the dot digits of `dots` make up. A digit that
/// occurs again adds nothing.
pub open spec fn combination_of(dots: Seq<char>) -> u8
    decreases dots.len(),
{
    if dots.len() == 0 {
        0
    } else {
        combination_of(dots.drop_last()) | dot_bit(dots.last())
    }
}

/// Whether every character of `dots` is a dot digit.
pub open spec fn all_dots(dots: Seq<char>) -> bool {
    forall|i: int| 0 <= i < dots.len() ==> is_dot(#[trigger] dots[i])
}

/// The index of the last occurrence of `c` in `text`.
pub open spec fn last_position(text: Seq<char>, c: char) -> Option<int>
    decreases text.len(),
{
    if text.len() == 0 {
        None
    } else if text.last() == c {
        Some(text.len() - 1)
    } else {
        last_position(text.drop_last(), c)
    }
}

/// What one line of a mapping script says.
#[derive(Debug, PartialEq, Eq)]
pub enum Line {
    /// Nothing but white space.
    Blank,
    /// A comment: the line starts with `//`.
    Comment,
    /// The combination is assigned the operation.
    Assignment(u8, Operation),
    /// Anything else. Such a line is passed over.
    Unrecognized,
}

/// The mathematical value of a [`Line`].
pub enum LineView {
    Blank,
    Comment,
    Assignment(u8, OperationView),
    Unrecognized,
}

impl View for Line {
    type V = LineView;

    open spec fn view(&self) -> LineView {
        match self {
            Line::Blank => LineView::Blank,
            Line::Comment => LineView::Comment,
            Line::Assignment(combination, operation) => LineView::Assignment(
                *combination,
                operation@,
            ),
            Line::Unrecognized => LineView::Unrecognized,
        }
    }
}

/// What the line `line` of a mapping script says.
///
/// White space around the line is dropped. An assignment is a shortcut
/// text, the last `=` of the line, and one or more dot digits; white
/// space around either side is dropped. The shortcut text is compiled,
/// whatever it spells.
pub open spec fn read_line(line: Seq<char>) -> LineView {
    let body = trimmed(line);
    if body.len() == 0 {
        LineView::Blank
    } else if body.len() >= 2 && body[0] == '/' && body[1] == '/' {
        LineView::Comment
    } else {
        match last_position(body, '=') {
            None => LineView::Unrecognized,
            Some(at) => {
                let dots = trimmed(body.skip(at + 1));
                if dots.len() == 0 || !all_dots(dots) {
                    LineView::Unrecognized
                } else {
                    LineView::Assignment(combination_of(dots), compile(trimmed(body.take(at))))
                }
            },
        }
    }
}

/// Every combination of dot digits is below 64.
pub proof fn lemma_combination_bound(dots: Seq<char>)
    ensures
        combination_of(dots) < 64,
    decreases dots.len(),
{
    if dots.len() > 0 {
        lemma_combination_bound(dots.drop_last());
        let a = combination_of(dots.drop_last());
        let b = dot_bit(dots.last());
        assert((a | b) < 64) by (bit_vector)
            requires
                a < 64,
                b < 64,
        ;
    }
}

/// Reads a combination from dot digits. Text that is empty or holds anything
/// but dot digits is no combination.
pub fn read_dots(dots: &Vec<char>) -> (combination: Option<u8>)
    ensures
        match combination {
            Some(c) => dots@.len() > 0 && all_dots(dots@) && c == combination_of(dots@) && c < 64,
            None => dots@.len() == 0 || !all_dots(dots@),
        },
{
    if dots.len() == 0 {
        return None;
    }
    let mut combination: u8 = 0;
    let mut i: usize = 0;
    assert(dots@.take(0) == Seq::<char>::empty());
    while i < dots.len()
        invariant
            i <= dots@.len(),
            forall|j: int| 0 <= j < i ==> is_dot(#[trigger] dots@[j]),
            combination == combination_of(dots@.take(i as int)),
            combination < 64,
        decreases dots.len() - i,
    {
        let c = dots[i];
        let bit: u8 = if c == '1' {
            1
        } else if c == '2' {
            2
        } else if c == '3' {
            4
        } else if c == '4' {
            8
        } else if c == '5' {
            16
        } else if c == '6' {
            32
        } else {
            assert(!is_dot(dots@[i as int]));
            return None;
        };
        proof {
            assert(dots@.take(i + 1).drop_last() == dots@.take(i as int));
            assert(dots@.take(i + 1).last() == c);
            assert((combination | bit) < 64) by (bit_vector)
                requires
                    combination < 64,
                    bit < 64,
            ;
        }
        combination = combination | bit;
        i = i + 1;
    }
    assert(dots@.take(dots@.len() as int) == dots@);
    Some(combination)
}

impl Line {
    /// Reads one line of a mapping script.
    pub fn parse(line: &Vec<char>) -> (read: Line)
        ensures
            read@ == read_line(line@),
    {
        let (start, end) = trim_bounds(line);
        let body = slice_of(line, start, end);
        let n = body.len();
        if n == 0 {
            return Line::Blank;
        }
        if n >= 2 && body[0] == '/' && body[1] == '/' {
            return Line::Comment;
        }
        let mut at: usize = n;
        assert(body@.take(n as int) == body@);
        while at > 0 && body[at - 1] != '='
            invariant
                at <= n,
                n == body@.len(),
                last_position(body@, '=') == last_position(body@.take(at as int), '='),
            decreases at,
        {
            assert(body@.take(at as int).drop_last() == body@.take(at - 1));
            at = at - 1;
        }
        if at == 0 {
            return Line::Unrecognized;
        }
        assert(body@.take(at as int).last() == '=');
        assert(last_position(body@, '=') == Some(at - 1));
        let right = slice_of(&body, at, n);
        assert(right@ == body@.skip(at as int));
        let (right_start, right_end) = trim_bounds(&right);
        let dots = slice_of(&right, right_start, right_end);
        match read_dots(&dots) {
            None => Line::Unrecognized,
            Some(combination) => {
                let left = slice_of(&body, 0, at - 1);
                assert(left@ == body@.take(at - 1));
                let (left_start, left_end) = trim_bounds(&left);
                let shortcut = string_of(&left, left_start, left_end);
                Line::Assignment(combination, Operation::from_str(shortcut.as_str()))
            },
        }
    }
}

/// The value of a table entry.
pub open spec fn entry_view(entry: Option<Operation>) -> Option<OperationView> {
    match entry {
        Some(operation) => Some(operation@),
        None => None,
    }
}

/// The values of the entries of a table.
pub open spec fn entries(table: Seq<Option<Operation>>) -> Seq<Option<OperationView>> {
    table.map_values(|entry: Option<Operation>| entry_view(entry))
}

/// The table with no combination assigned.
pub open spec fn empty_table() -> Seq<Option<OperationView>> {
    Seq::new(64, |i: int| None::<OperationView>)
}

/// The table that the lines of a mapping script make up: each assignment
/// sets the entry of its combination, a later one replacing an earlier one.
pub open spec fn table_of(lines: Seq<Seq<char>>) -> Seq<Option<OperationView>>
    decreases lines.len(),
{
    if lines.len() == 0 {
        empty_table()
    } else {
        let before = table_of(lines.drop_last());
        match read_line(lines.last()) {
            LineView::Assignment(combination, operation) => before.update(
                combination as int,
                Some(operation),
            ),
            _ => before,
        }
    }
}

/// The indices of the lines of a mapping script that are not recognized, in
/// order, counting from 0.
pub open spec fn unrecognized(lines: Seq<Seq<char>>) -> Seq<usize>
    decreases lines.len(),
{
    if lines.len() == 0 {
        Seq::<usize>::empty()
    } else {
        let before = unrecognized(lines.drop_last());
        if read_line(lines.last()) is Unrecognized {
            before.push((lines.len() - 1) as usize)
        } else {
            before
        }
    }
}

/// A line assigns only combinations below 64.
pub proof fn lemma_line_bound(line: Seq<char>)
    ensures
        read_line(line) matches LineView::Assignment(combination, _) ==> combination < 64,
{
    let body = trimmed(line);
    if last_position(body, '=') is Some {
        let at = last_position(body, '=')->Some_0;
        lemma_combination_bound(trimmed(body.skip(at + 1)));
    }
}

/// A table always has 64 entries.
pub proof fn lemma_table_len(lines: Seq<Seq<char>>)
    ensures
        table_of(lines).len() == 64,
    decreases lines.len(),
{
    if lines.len() > 0 {
        lemma_table_len(lines.drop_last());
        lemma_line_bound(lines.last());
    }
}

/// A named table from six-dot combinations to operations.
#[derive(Debug)]
pub struct BrailleMapping {
    pub(crate) name: String,
    pub(crate) table: Vec<Option<Operation>>,
}

/// The mathematical value of a [`BrailleMapping`].
pub struct BrailleMappingView {
    pub name: Seq<char>,
    pub table: Seq<Option<OperationView>>,
}

impl View for BrailleMapping {
    type V = BrailleMappingView;

    open(crate) spec fn view(&self) -> BrailleMappingView {
        BrailleMappingView { name: self.name@, table: entries(self.table@) }
    }
}

impl Clone for BrailleMapping {
    fn clone(&self) -> (copy: Self)
        ensures
            copy@ == self@,
    {
        proof {
            use_type_invariant(self);
        }
        let mut table: Vec<Option<Operation>> = Vec::new();
        let mut i: usize = 0;
        while i < self.table.len()
            invariant
                i <= self.table@.len(),
                table@.len() == i,
                forall|j: int| 0 <= j < i ==> entry_view(#[trigger] table@[j]) == entry_view(
                    self.table@[j],
                ),
            decreases self.table.len() - i,
        {
            let entry = match &self.table[i] {
                Some(operation) => Some(operation.clone()),
                None => None,
            };
            table.push(entry);
            i = i + 1;
        }
        assert(entries(table@) =~= entries(self.table@));
        BrailleMapping { name: self.name.clone(), table }
    }
}

/// Adds to the state of a script reader what `line` says: an assignment sets
/// an entry of `table`, an unrecognized line adds `index` to `warnings`.
fn absorb_line(
    table: &mut Vec<Option<Operation>>,
    warnings: &mut Vec<usize>,
    line: &Vec<char>,
    index: usize,
    Ghost(before): Ghost<Seq<Seq<char>>>,
)
    requires
        before.len() == index,
        entries(old(table)@) == table_of(before),
        old(warnings)@ == unrecognized(before),
    ensures
        entries(final(table)@) == table_of(before.push(line@)),
        final(warnings)@ == unrecognized(before.push(line@)),
{
    proof {
        lemma_table_len(before);
        assert(before.push(line@).drop_last() == before);
    }
    match Line::parse(line) {
        Line::Assignment(combination, operation) => {
            proof {
                lemma_line_bound(line@);
            }
            table.set(combination as usize, Some(operation));
            assert(entries(table@) =~= table_of(before).update(
                combination as int,
                Some(operation@),
            ));
        },
        Line::Unrecognized => {
            warnings.push(index);
        },
        _ => {},
    }
}

impl BrailleMapping {
    #[verifier::type_invariant]
    spec fn inv(self) -> bool {
        self.table@.len() == 64
    }

    /// A mapping that assigns no combination.
    pub fn new(name: &str) -> (mapping: BrailleMapping)
        ensures
            mapping@ == (BrailleMappingView { name: name@, table: empty_table() }),
    {
        let table = blank_table();
        BrailleMapping { name: String::from_str(name), table }
    }

    /// Reads a mapping from a script: one assignment per line, blank lines
    /// and comments ignored. Also answers with the indices of the lines that
    /// were not recognized and passed over, counting from 0.
    pub fn from_script(name: &str, script: &str) -> (read: (BrailleMapping, Vec<usize>))
        ensures
            read.0@ == (BrailleMappingView {
                name: name@,
                table: table_of(split(script@, '\n')),
            }),
            read.1@ == unrecognized(split(script@, '\n')),
    {
        let text = chars_of(script);
        let n = text.len();
        let mut table = blank_table();
        let mut warnings: Vec<usize> = Vec::new();
        let mut line: Vec<char> = Vec::new();
        let mut index: usize = 0;
        let mut i: usize = 0;
        proof {
            assert(text@.take(0) == Seq::<char>::empty());
            assert(split(text@.take(0), '\n').drop_last() == Seq::<Seq<char>>::empty());
        }
        while i < n
            invariant
                n == text@.len(),
                i <= n,
                index <= i,
                table@.len() == 64,
                index + 1 == split(text@.take(i as int), '\n').len(),
                entries(table@) == table_of(split(text@.take(i as int), '\n').drop_last()),
                warnings@ == unrecognized(split(text@.take(i as int), '\n').drop_last()),
                line@ == split(text@.take(i as int), '\n').last(),
            decreases n - i,
        {
            let c = text[i];
            let ghost pieces = split(text@.take(i as int), '\n');
            proof {
                let now = text@.take(i + 1);
                lemma_split_nonempty(text@.take(i as int), '\n');
                assert(now.drop_last() == text@.take(i as int));
                assert(now.last() == c);
                if c == '\n' {
                    assert(split(now, '\n').drop_last() == pieces);
                    assert(pieces == pieces.drop_last().push(pieces.last()));
                } else {
                    assert(split(now, '\n').drop_last() == pieces.drop_last());
                }
            }
            if c == '\n' {
                absorb_line(&mut table, &mut warnings, &line, index, Ghost(pieces.drop_last()));
                line = Vec::new();
                index = index + 1;
                proof {
                    lemma_table_len(pieces);
                }
            } else {
                line.push(c);
            }
            i = i + 1;
        }
        let ghost pieces = split(text@, '\n');
        proof {
            assert(text@.take(n as int) == text@);
            lemma_split_nonempty(text@, '\n');
            assert(pieces == pieces.drop_last().push(pieces.last()));
            lemma_table_len(pieces);
        }
        absorb_line(&mut table, &mut warnings, &line, index, Ghost(pieces.drop_last()));
        (BrailleMapping { name: String::from_str(name), table }, warnings)
    }

    pub fn name(&self) -> (name: &str)
        ensures
            name@ == self@.name,
    {
        self.name.as_str()
    }

    /// The operation assigned to `combination`, if any. No combination above
    /// 63 is assigned one.
    pub fn lookup(&self, combination: u8) -> (entry: Option<&Operation>)
        ensures
            self@.table.len() == 64,
            match entry {
                Some(operation) => combination < 64 && self@.table[combination as int] == Some(
                    operation@,
                ),
                None => combination >= 64 || self@.table[combination as int] is None,
            },
    {
        proof {
            use_type_invariant(self);
        }
        if combination >= 64 {
            return None;
        }
        match &self.table[combination as usize] {
            Some(operation) => Some(operation),
            None => None,
        }
    }
}

/// A table of 64 entries, none assigned.
fn blank_table() -> (table: Vec<Option<Operation>>)
    ensures
        table@.len() == 64,
        entries(table@) == empty_table(),
{
    let mut table: Vec<Option<Operation>> = Vec::new();
    let mut i: usize = 0;
    while i < 64
        invariant
            i <= 64,
            table@.len() == i,
            forall|j: int| 0 <= j < i ==> (#[trigger] table@[j]) is None,
        decreases 64 - i,
    {
        table.push(None);
        i = i + 1;
    }
    assert(entries(table@) =~= empty_table());
    table
}

} // verus!

verus! {

/// One layer of the mapping stack: a mapping of the scheme, by its index, and
/// whether the layer is gone after one translation.
#[derive(Clone, Copy, Debug, PartialEq, Eq, Structural)]
pub struct BrailleMappingStackLayer {
    pub mapping: usize,
    pub is_temporary: bool,
}

/// The switch named a mapping that the scheme does not have.
#[derive(Debug, PartialEq, Eq)]
pub struct MappingNotFound {
    pub name: String,
}

impl MappingNotFound {
    /// The text that tells a user of the failure.
    pub open spec fn message_of(name: Seq<char>) -> Seq<char> {
        "Mapping not found: "@ + name
    }

    /// The text that tells a user of the failure.
    pub fn message(&self) -> (text: String)
        ensures
            text@ == Self::message_of(self.name@),
    {
        let mut text = String::from_str("Mapping not found: ");
        text.append(self.name.as_str());
        text
    }
}

/// A named collection of braille mappings with its stack of mapping layers.
///
/// The layer at the bottom of the stack is the base layer, the mapping named
/// `default`. It is never popped.
#[derive(Debug)]
pub struct BrailleScheme {
    pub(crate) name: String,
    pub(crate) mappings: Vec<BrailleMapping>,
    pub(crate) stack: Vec<BrailleMappingStackLayer>,
}

/// The mathematical value of a [`BrailleScheme`].
pub struct BrailleSchemeView {
    pub name: Seq<char>,
    pub mappings: Seq<BrailleMappingView>,
    pub stack: Seq<BrailleMappingStackLayer>,
}

impl View for BrailleScheme {
    type V = BrailleSchemeView;

    open(crate) spec fn view(&self) -> BrailleSchemeView {
        BrailleSchemeView {
            name: self.name@,
            mappings: views(self.mappings@),
            stack: self.stack@,
        }
    }
}

/// The names of `mappings`, in order.
pub open spec fn mapping_names(mappings: Seq<BrailleMappingView>) -> Seq<Seq<char>> {
    mappings.map_values(|mapping: BrailleMappingView| mapping.name)
}

impl BrailleSchemeView {
    /// What holds of every scheme: every layer is a mapping of the scheme,
    /// and the stack stands on a base layer that is the mapping named `default`
    /// and is not temporary.
    pub open spec fn wf(self) -> bool {
        &&& self.stack.len() >= 1
        &&& forall|i: int|
            0 <= i < self.stack.len() ==> (#[trigger] self.stack[i]).mapping < self.mappings.len()
        &&& !self.stack[0].is_temporary
        &&& first_position(mapping_names(self.mappings), "default"@) == Some(
            self.stack[0].mapping as int,
        )
    }

    /// The scheme of the given mappings with only the base layer on its
    /// stack. There is none when no mapping is named `default`.
    pub open spec fn new(name: Seq<char>, mappings: Seq<BrailleMappingView>) -> Result<
        BrailleSchemeView,
        ConfigError,
    > {
        match first_position(mapping_names(mappings), "default"@) {
            Some(base) => Ok(
                BrailleSchemeView {
                    name,
                    mappings,
                    stack: seq![
                        BrailleMappingStackLayer { mapping: base as usize, is_temporary: false },
                    ],
                },
            ),
            None => Err(ConfigError::MissingDefaultMapping),
        }
    }

    /// The number of layers on the stack.
    pub open spec fn depth(self) -> nat {
        self.stack.len()
    }

    /// The mapping of the top layer.
    pub open spec fn active(self) -> BrailleMappingView {
        self.mappings[self.stack.last().mapping as int]
    }

    /// The scheme with one more layer, for the first mapping named `name`.
    /// Fails with the name when no mapping has it.
    pub open spec fn pushed(self, name: Seq<char>, is_temporary: bool) -> Result<
        BrailleSchemeView,
        Seq<char>,
    > {
        match first_position(mapping_names(self.mappings), name) {
            Some(m) => Ok(
                BrailleSchemeView {
                    stack: self.stack.push(
                        BrailleMappingStackLayer { mapping: m as usize, is_temporary },
                    ),
                    ..self
                },
            ),
            None => Err(name),
        }
    }

    /// The scheme after a mapping switch: a layer is pushed, to stay or for
    /// one translation; or the top layer is popped unless it is the base layer;
    /// or every layer above the base layer is popped. Pushing fails with the
    /// name when no mapping has it.
    pub open spec fn switched(self, switch: SwitchTypeView) -> Result<
        BrailleSchemeView,
        Seq<char>,
    > {
        match switch {
            SwitchTypeView::Append(name) => self.pushed(name, false),
            SwitchTypeView::TemporaryAppend(name) => self.pushed(name, true),
            SwitchTypeView::Return => Ok(
                if self.stack.len() > 1 {
                    BrailleSchemeView { stack: self.stack.drop_last(), ..self }
                } else {
                    self
                },
            ),
            SwitchTypeView::Default => Ok(BrailleSchemeView { stack: self.stack.take(1), ..self }),
        }
    }

    /// The scheme after the translation of `combination`, and the operation
    /// that the top layer assigns to it. A temporary top layer is popped,
    /// whether or not it assigns one.
    pub open spec fn translated(self, combination: u8) -> (
        BrailleSchemeView,
        Option<OperationView>,
    ) {
        (
            if self.stack.last().is_temporary {
                BrailleSchemeView { stack: self.stack.drop_last(), ..self }
            } else {
                self
            },
            self.active().table[combination as int],
        )
    }
}

/// Switching and translating keep a scheme well formed.
pub proof fn lemma_scheme_wf(scheme: BrailleSchemeView, switch: SwitchTypeView, combination: u8)
    requires
        scheme.wf(),
    ensures
        scheme.switched(switch) matches Ok(after) ==> after.wf(),
        scheme.translated(combination).0.wf(),
{
    if scheme.switched(switch) is Ok {
        let after = scheme.switched(switch)->Ok_0;
        match switch {
            SwitchTypeView::Append(name) => {
                lemma_first_where(mapping_names(scheme.mappings), same_as(name));
            },
            SwitchTypeView::TemporaryAppend(name) => {
                lemma_first_where(mapping_names(scheme.mappings), same_as(name));
            },
            _ => {},
        }
        assert(after.stack[0] == scheme.stack[0]);
        assert forall|i: int| 0 <= i < after.stack.len() implies (
        #[trigger] after.stack[i]).mapping < after.mappings.len() by {
            if i < scheme.stack.len() {
                assert(after.stack[i] == scheme.stack[i]);
            }
        }
    }
    let after = scheme.translated(combination).0;
    if scheme.stack.last().is_temporary {
        assert(scheme.stack.len() >= 2);
        assert(after.stack[0] == scheme.stack[0]);
        assert forall|i: int| 0 <= i < after.stack.len() implies (
        #[trigger] after.stack[i]).mapping < after.mappings.len() by {
            assert(after.stack[i] == scheme.stack[i]);
        }
    }
}

/// A temporary layer grants one translation. After a temporary layer is
/// pushed, the translation of any one combination, whether or not the layer
/// assigns it an operation, leaves the scheme as it was before the push, and
/// so its stack at the depth it had.
pub proof fn lemma_temporary_layer(scheme: BrailleSchemeView, name: Seq<char>, combination: u8)
    requires
        scheme.wf(),
        scheme.switched(SwitchTypeView::TemporaryAppend(name)) is Ok,
    ensures
        scheme.switched(SwitchTypeView::TemporaryAppend(name))->Ok_0.translated(combination).0
            == scheme,
        scheme.switched(SwitchTypeView::TemporaryAppend(name))->Ok_0.depth() == scheme.depth() + 1,
{
    let pushed = scheme.switched(SwitchTypeView::TemporaryAppend(name))->Ok_0;
    assert(pushed.stack.drop_last() == scheme.stack);
}

/// A layer that was pushed to stay is popped by a return, and nothing else
/// is: the scheme is as it was before the push.
pub proof fn lemma_append_return(scheme: BrailleSchemeView, name: Seq<char>)
    requires
        scheme.wf(),
        scheme.switched(SwitchTypeView::Append(name)) is Ok,
    ensures
        scheme.switched(SwitchTypeView::Append(name))->Ok_0.switched(SwitchTypeView::Return) == Ok::<
            BrailleSchemeView,
            Seq<char>,
        >(scheme),
        scheme.switched(SwitchTypeView::Append(name))->Ok_0.depth() == scheme.depth() + 1,
{
    let pushed = scheme.switched(SwitchTypeView::Append(name))->Ok_0;
    assert(pushed.stack.drop_last() == scheme.stack);
}

/// A return never fails and never pops the base layer: it pops exactly one
/// layer when there is one above the base layer, and nothing otherwise. A
/// switch to the default leaves the base layer alone.
pub proof fn lemma_return_floor(scheme: BrailleSchemeView)
    requires
        scheme.wf(),
    ensures
        scheme.switched(SwitchTypeView::Return) is Ok,
        scheme.switched(SwitchTypeView::Return)->Ok_0.depth() == if scheme.depth() > 1 {
            scheme.depth() - 1
        } else {
            1
        },
        scheme.switched(SwitchTypeView::Return)->Ok_0.stack[0] == scheme.stack[0],
        scheme.switched(SwitchTypeView::Default) is Ok,
        scheme.switched(SwitchTypeView::Default)->Ok_0.stack == seq![scheme.stack[0]],
{
    assert(scheme.stack.take(1) == seq![scheme.stack[0]]);
}

/// The index of the first mapping named `name`.
pub fn find_mapping(mappings: &Vec<BrailleMapping>, name: &str) -> (found: Option<usize>)
    ensures
        match found {
            Some(index) => index < mappings@.len() && first_position(
                mapping_names(views(mappings@)),
                name@,
            ) == Some(index as int),
            None => first_position(mapping_names(views(mappings@)), name@) is None,
        },
{
    let ghost names = mapping_names(views(mappings@));
    let mut i: usize = 0;
    while i < mappings.len()
        invariant
            i <= mappings@.len(),
            names == mapping_names(views(mappings@)),
            forall|j: int| 0 <= j < i ==> !same_as(name@)(#[trigger] names[j]),
        decreases mappings.len() - i,
    {
        if same_text(mappings[i].name.as_str(), name) {
            proof {
                lemma_first_where_found(names, same_as(name@), i as int);
            }
            return Some(i);
        }
        i = i + 1;
    }
    proof {
        lemma_first_where_none(names, same_as(name@));
    }
    None
}

/// The view of the result of making a scheme.
pub open spec fn scheme_made(result: Result<BrailleScheme, ConfigError>) -> Result<
    BrailleSchemeView,
    ConfigError,
> {
    match result {
        Ok(scheme) => Ok(scheme@),
        Err(error) => Err(error),
    }
}

impl BrailleScheme {
    #[verifier::type_invariant]
    spec fn inv(self) -> bool {
        self@.wf()
    }

    /// A scheme of the given mappings, with only the base layer on its stack:
    /// the first mapping named `default`. Without such a mapping there is no
    /// scheme.
    pub fn new(name: &str, mappings: Vec<BrailleMapping>) -> (result: Result<
        BrailleScheme,
        ConfigError,
    >)
        ensures
            scheme_made(result) == BrailleSchemeView::new(name@, views(mappings@)),
            result matches Ok(scheme) ==> scheme@.wf(),
    {
        match find_mapping(&mappings, "default") {
            Some(base) => {
                let mut stack: Vec<BrailleMappingStackLayer> = Vec::new();
                stack.push(BrailleMappingStackLayer { mapping: base, is_temporary: false });
                proof {
                    assert(stack@ =~= seq![
                        BrailleMappingStackLayer { mapping: base, is_temporary: false },
                    ]);
                }
                Ok(BrailleScheme { name: String::from_str(name), mappings, stack })
            },
            None => Err(ConfigError::MissingDefaultMapping),
        }
    }

    pub fn name(&self) -> (name: &str)
        ensures
            name@ == self@.name,
    {
        self.name.as_str()
    }

    /// The number of layers on the stack; at least 1.
    pub fn depth(&self) -> (depth: usize)
        ensures
            depth == self@.depth(),
            depth >= 1,
            self@.wf(),
    {
        proof {
            use_type_invariant(self);
        }
        self.stack.len()
    }

    /// The mapping of the top layer.
    pub fn active_mapping(&self) -> (mapping: &BrailleMapping)
        ensures
            mapping@ == self@.active(),
            self@.wf(),
    {
        proof {
            use_type_invariant(self);
        }
        let top = self.stack[self.stack.len() - 1];
        &self.mappings[top.mapping]
    }

    /// Pushes a layer for the first mapping named `name`.
    fn push_layer(&mut self, name: &String, is_temporary: bool) -> (result: Result<
        (),
        MappingNotFound,
    >)
        ensures
            match old(self)@.pushed(name@, is_temporary) {
                Ok(after) => result is Ok && final(self)@ == after,
                Err(missing) => result matches Err(error) && error.name@ == missing && final(self)@
                    == old(self)@,
            },
    {
        proof {
            use_type_invariant(&*self);
            lemma_scheme_wf(self@, SwitchTypeView::Append(name@), 0);
            lemma_scheme_wf(self@, SwitchTypeView::TemporaryAppend(name@), 0);
        }
        match find_mapping(&self.mappings, name.as_str()) {
            Some(mapping) => {
                let mut stack = self.stack.clone();
                stack.push(BrailleMappingStackLayer { mapping, is_temporary });
                self.stack = stack;
                Ok(())
            },
            None => Err(MappingNotFound { name: name.clone() }),
        }
    }

    /// Applies a mapping switch to the stack. A switch to a mapping that the
    /// scheme does not have fails and changes nothing.
    pub fn switch_mapping(&mut self, switch: &SwitchType) -> (result: Result<(), MappingNotFound>)
        ensures
            match old(self)@.switched(switch@) {
                Ok(after) => result is Ok && final(self)@ == after,
                Err(missing) => result matches Err(error) && error.name@ == missing && final(self)@
                    == old(self)@,
            },
            final(self)@.wf(),
    {
        proof {
            use_type_invariant(&*self);
            lemma_scheme_wf(self@, switch@, 0);
        }
        match switch {
            SwitchType::Append(name) => self.push_layer(name, false),
            SwitchType::TemporaryAppend(name) => self.push_layer(name, true),
            SwitchType::Return => {
                if self.stack.len() > 1 {
                    let mut stack = self.stack.clone();
                    stack.pop();
                    self.stack = stack;
                }
                Ok(())
            },
            SwitchType::Default => {
                let mut stack = self.stack.clone();
                stack.truncate(1);
                self.stack = stack;
                Ok(())
            },
        }
    }

    /// Translates `combination` by the top layer of the stack. A temporary
    /// top layer is popped after this one translation, whether or not it
    /// assigns the combination an operation.
    pub fn translate_combination(&mut self, combination: u8) -> (operation: Option<Operation>)
        requires
            combination < 64,
        ensures
            (final(self)@, entry_view(operation)) == old(self)@.translated(combination),
            final(self)@.wf(),
    {
        proof {
            use_type_invariant(&*self);
            lemma_scheme_wf(self@, SwitchTypeView::Return, combination);
        }
        let top = self.stack[self.stack.len() - 1];
        let mapping = &self.mappings[top.mapping];
        proof {
            use_type_invariant(mapping);
        }
        let operation = match &mapping.table[combination as usize] {
            Some(operation) => Some(operation.clone()),
            None => None,
        };
        if top.is_temporary {
            let mut stack = self.stack.clone();
            stack.pop();
            self.stack = stack;
        }
        operation
    }
}

/// The braille schemes of a configuration. Only the first is ever active.
#[derive(Debug)]
pub struct BrailleSchemeManager {
    pub(crate) schemes: Vec<BrailleScheme>,
}

impl View for BrailleSchemeManager {
    type V = Seq<BrailleSchemeView>;

    open(crate) spec fn view(&self) -> Seq<BrailleSchemeView> {
        views(self.schemes@)
    }
}

impl BrailleSchemeManager {
    /// A manager of the given schemes.
    pub fn new(schemes: Vec<BrailleScheme>) -> (manager: BrailleSchemeManager)
        ensures
            manager@ == views(schemes@),
    {
        BrailleSchemeManager { schemes }
    }

    /// The active scheme: the first one, if there is any.
    pub fn active(&self) -> (scheme: Option<&BrailleScheme>)
        ensures
            match scheme {
                Some(s) => self@.len() > 0 && s@ == self@[0] && s@.wf(),
                None => self@.len() == 0,
            },
    {
        if self.schemes.len() == 0 {
            None
        } else {
            let scheme = &self.schemes[0];
            proof {
                use_type_invariant(scheme);
            }
            Some(scheme)
        }
    }
}

} // verus!
