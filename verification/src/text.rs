//! Characters and strings: the few standard-library text operations the parsers
//! rest on, and verified helpers built on them.

use vstd::prelude::*;

verus! {

/// Whether `c` has the Unicode `White_Space` property, as `char::is_whitespace` reports it.
pub uninterp spec fn white_space(c: char) -> bool;

/// The Unicode lowercase equivalent of `text`, as `str::to_lowercase` computes it.
pub uninterp spec fn lowercase(text: Seq<char>) -> Seq<char>;

/// Calls `char::is_whitespace`. Trusted: the answer is the `White_Space`
/// property of `c`, which the contracts of this crate call [`white_space`].
#[verifier::external_body]
pub(crate) fn is_whitespace(c: char) -> (b: bool)
    ensures
        b == white_space(c),
{
    c.is_whitespace()
}

/// Calls `str::to_lowercase`. Trusted: the result depends on the characters of
/// `text` alone; the contracts of this crate call it [`lowercase`].
#[verifier::external_body]
pub(crate) fn to_lowercase(text: &str) -> (lowered: String)
    ensures
        lowered@ == lowercase(text@),
{
    text.to_lowercase()
}

/// Calls `String::push`. Trusted: `c` is appended to the end of `s`.
#[verifier::external_body]
pub(crate) fn push_char(s: &mut String, c: char)
    ensures
        final(s)@ == old(s)@.push(c),
{
    s.push(c)
}

/// `text` without its leading white space.
pub open spec fn skip_leading(text: Seq<char>) -> Seq<char>
    decreases text.len(),
{
    if text.len() > 0 && white_space(text.first()) {
        skip_leading(text.drop_first())
    } else {
        text
    }
}

/// `text` without its trailing white space.
pub open spec fn skip_trailing(text: Seq<char>) -> Seq<char>
    decreases text.len(),
{
    if text.len() > 0 && white_space(text.last()) {
        skip_trailing(text.drop_last())
    } else {
        text
    }
}

/// `text` without leading and trailing white space.
pub open spec fn trimmed(text: Seq<char>) -> Seq<char> {
    skip_trailing(skip_leading(text))
}

/// What `skip_leading` drops is white space, and what it leaves does not
/// start with white space.
pub proof fn lemma_skip_leading(text: Seq<char>)
    ensures
        skip_leading(text).len() <= text.len(),
        skip_leading(text) == text.skip(text.len() - skip_leading(text).len()),
        forall|i: int| 0 <= i < text.len() - skip_leading(text).len() ==> white_space(text[i]),
        skip_leading(text).len() > 0 ==> !white_space(skip_leading(text).first()),
    decreases text.len(),
{
    if text.len() > 0 && white_space(text.first()) {
        let rest = text.drop_first();
        lemma_skip_leading(rest);
        let dropped = text.len() - skip_leading(text).len();
        assert(rest.skip(dropped - 1) == text.skip(dropped));
        assert forall|i: int| 0 <= i < dropped implies white_space(text[i]) by {
            if i > 0 {
                assert(text[i] == rest[i - 1]);
            }
        }
    } else {
        assert(text.skip(0) == text);
    }
}

/// What `skip_trailing` drops is white space, and what it leaves does not
/// end with white space.
pub proof fn lemma_skip_trailing(text: Seq<char>)
    ensures
        skip_trailing(text).len() <= text.len(),
        skip_trailing(text) == text.take(skip_trailing(text).len() as int),
        forall|i: int| skip_trailing(text).len() <= i < text.len() ==> white_space(text[i]),
        skip_trailing(text).len() > 0 ==> !white_space(skip_trailing(text).last()),
    decreases text.len(),
{
    if text.len() > 0 && white_space(text.last()) {
        let rest = text.drop_last();
        lemma_skip_trailing(rest);
        let kept = skip_trailing(text).len() as int;
        assert(rest.take(kept) == text.take(kept));
        assert forall|i: int| kept <= i < text.len() implies white_space(text[i]) by {
            if i < text.len() - 1 {
                assert(text[i] == rest[i]);
            }
        }
    } else {
        assert(text.take(text.len() as int) == text);
    }
}

/// Trimming drops white space from both ends and nothing else: what is left
/// is a stretch of the text that neither starts nor ends with white space,
/// and every character before and after it is white space.
pub proof fn lemma_trimmed(text: Seq<char>)
    ensures
        ({
            let from = text.len() - skip_leading(text).len();
            let to = from + trimmed(text).len();
            &&& 0 <= from <= to <= text.len()
            &&& trimmed(text) == text.subrange(from, to)
            &&& forall|i: int| 0 <= i < from ==> white_space(text[i])
            &&& forall|i: int| to <= i < text.len() ==> white_space(text[i])
            &&& trimmed(text).len() > 0 ==> !white_space(trimmed(text).first()) && !white_space(
                trimmed(text).last(),
            )
        }),
{
    let rest = skip_leading(text);
    lemma_skip_leading(text);
    lemma_skip_trailing(rest);
    let from = text.len() - rest.len();
    let to = from + trimmed(text).len();
    assert(rest.take(trimmed(text).len() as int) == text.subrange(from, to));
    assert forall|i: int| to <= i < text.len() implies white_space(text[i]) by {
        assert(text[i] == rest[i - from]);
    }
    if trimmed(text).len() > 0 {
        assert(trimmed(text).first() == rest.first());
    }
}

/// The pieces of `text` between the occurrences of `separator`, in order.
/// There is always at least one piece, and a piece may be empty.
pub open spec fn split(text: Seq<char>, separator: char) -> Seq<Seq<char>>
    decreases text.len(),
{
    if text.len() == 0 {
        seq![Seq::<char>::empty()]
    } else {
        let before = split(text.drop_last(), separator);
        if text.last() == separator {
            before.push(Seq::<char>::empty())
        } else {
            before.drop_last().push(before.last().push(text.last()))
        }
    }
}

/// `split` never yields an empty list.
pub proof fn lemma_split_nonempty(text: Seq<char>, separator: char)
    ensures
        split(text, separator).len() >= 1,
    decreases text.len(),
{
    if text.len() > 0 {
        lemma_split_nonempty(text.drop_last(), separator);
    }
}

/// `pieces` put together with `separator` between each two.
pub open spec fn join(pieces: Seq<Seq<char>>, separator: char) -> Seq<char>
    decreases pieces.len(),
{
    if pieces.len() == 0 {
        Seq::<char>::empty()
    } else if pieces.len() == 1 {
        pieces[0]
    } else {
        join(pieces.drop_last(), separator).push(separator) + pieces.last()
    }
}

/// Appending a word that does not hold the separator lengthens the last
/// piece and leaves the pieces before it as they were.
pub proof fn lemma_split_word(text: Seq<char>, word: Seq<char>, separator: char)
    requires
        !word.contains(separator),
    ensures
        split(text + word, separator) == split(text, separator).drop_last().push(
            split(text, separator).last() + word,
        ),
    decreases word.len(),
{
    let pieces = split(text, separator);
    lemma_split_nonempty(text, separator);
    if word.len() == 0 {
        assert(text + word == text);
        assert(pieces.last() + word == pieces.last());
        assert(pieces.drop_last().push(pieces.last()) == pieces);
    } else {
        let shorter = word.drop_last();
        assert(!shorter.contains(separator)) by {
            if shorter.contains(separator) {
                let i = choose|i: int| 0 <= i < shorter.len() && shorter[i] == separator;
                assert(word[i] == separator);
            }
        }
        assert(word.last() != separator) by {
            assert(word[word.len() - 1] == word.last());
        }
        lemma_split_word(text, shorter, separator);
        assert((text + word).drop_last() == text + shorter);
        assert((text + word).last() == word.last());
        let before = split(text + shorter, separator);
        assert(before.drop_last() == pieces.drop_last());
        assert(before.last().push(word.last()) == pieces.last() + word);
    }
}

/// The pieces of a text, joined, give the text back, and no piece holds the
/// separator.
pub proof fn lemma_split_joins(text: Seq<char>, separator: char)
    ensures
        join(split(text, separator), separator) == text,
        forall|i: int|
            0 <= i < split(text, separator).len() ==> !(#[trigger] split(
                text,
                separator,
            )[i]).contains(separator),
    decreases text.len(),
{
    if text.len() > 0 {
        let shorter = text.drop_last();
        let before = split(shorter, separator);
        lemma_split_joins(shorter, separator);
        lemma_split_nonempty(shorter, separator);
        assert(shorter.push(text.last()) == text);
        if text.last() == separator {
            let now = before.push(Seq::<char>::empty());
            assert(now.drop_last() == before);
            assert(join(before, separator).push(separator) + Seq::<char>::empty() == text);
        } else {
            let grown = before.last().push(text.last());
            let now = before.drop_last().push(grown);
            assert(!grown.contains(separator)) by {
                if grown.contains(separator) {
                    let i = choose|i: int| 0 <= i < grown.len() && grown[i] == separator;
                    assert(before.last()[i] == separator);
                }
            }
            if before.len() == 1 {
                assert(now[0] == grown);
            } else {
                assert(now.drop_last() == before.drop_last());
                let head = join(before.drop_last(), separator).push(separator);
                assert(head + grown == (head + before.last()).push(text.last()));
            }
        }
    }
}

/// Pieces that do not hold the separator are the pieces of their join: no
/// other list of such pieces joins to the same text.
pub proof fn lemma_join_splits(pieces: Seq<Seq<char>>, separator: char)
    requires
        pieces.len() >= 1,
        forall|i: int| 0 <= i < pieces.len() ==> !(#[trigger] pieces[i]).contains(separator),
    ensures
        split(join(pieces, separator), separator) == pieces,
    decreases pieces.len(),
{
    let nothing = Seq::<char>::empty();
    if pieces.len() == 1 {
        lemma_split_word(nothing, pieces[0], separator);
        assert(nothing + pieces[0] == pieces[0]);
        assert(split(nothing, separator).drop_last().push(nothing + pieces[0]) == pieces);
    } else {
        let before = pieces.drop_last();
        assert forall|i: int| 0 <= i < before.len() implies !(#[trigger] before[i]).contains(
            separator,
        ) by {
            assert(before[i] == pieces[i]);
        }
        lemma_join_splits(before, separator);
        let head = join(before, separator).push(separator);
        assert(head.drop_last() == join(before, separator));
        assert(split(head, separator) == before.push(nothing));
        lemma_split_word(head, pieces.last(), separator);
        assert(before.push(nothing).drop_last() == before);
        assert(nothing + pieces.last() == pieces.last());
        assert(before.push(pieces.last()) == pieces);
    }
}

/// The characters of `s`, in order.
pub fn chars_of(s: &str) -> (chars: Vec<char>)
    ensures
        chars@ == s@,
{
    let mut chars: Vec<char> = Vec::new();
    for c in it: s.chars()
        invariant
            it.seq() == s@,
            chars@ == it.seq().take(it.index() as int),
    {
        chars.push(c);
    }
    chars
}

/// The string made of `chars[from..to]`.
pub fn string_of(chars: &Vec<char>, from: usize, to: usize) -> (s: String)
    requires
        from <= to <= chars@.len(),
    ensures
        s@ == chars@.subrange(from as int, to as int),
{
    let mut s = String::new();
    let mut i: usize = from;
    while i < to
        invariant
            from <= i <= to <= chars@.len(),
            s@ == chars@.subrange(from as int, i as int),
        decreases to - i,
    {
        push_char(&mut s, chars[i]);
        i = i + 1;
    }
    s
}

/// A copy of `chars[from..to]`.
pub fn slice_of(chars: &Vec<char>, from: usize, to: usize) -> (part: Vec<char>)
    requires
        from <= to <= chars@.len(),
    ensures
        part@ == chars@.subrange(from as int, to as int),
{
    let mut part: Vec<char> = Vec::new();
    let mut i: usize = from;
    while i < to
        invariant
            from <= i <= to <= chars@.len(),
            part@ == chars@.subrange(from as int, i as int),
        decreases to - i,
    {
        part.push(chars[i]);
        i = i + 1;
    }
    part
}

/// Whether `chars` spells exactly `word`.
pub fn spells(chars: &Vec<char>, word: &str) -> (b: bool)
    ensures
        b == (chars@ == word@),
{
    let n = word.unicode_len();
    if chars.len() != n {
        return false;
    }
    let mut i: usize = 0;
    while i < n
        invariant
            n == word@.len(),
            n == chars@.len(),
            i <= n,
            chars@.take(i as int) == word@.take(i as int),
        decreases n - i,
    {
        if chars[i] != word.get_char(i) {
            return false;
        }
        assert(chars@.take(i + 1) == chars@.take(i as int).push(chars@[i as int]));
        assert(word@.take(i + 1) == word@.take(i as int).push(word@[i as int]));
        i = i + 1;
    }
    assert(chars@.take(n as int) == chars@);
    assert(word@.take(n as int) == word@);
    true
}

/// The bounds of `text` once its leading and trailing white space is dropped.
pub fn trim_bounds(text: &Vec<char>) -> (bounds: (usize, usize))
    ensures
        bounds.0 <= bounds.1 <= text@.len(),
        text@.subrange(bounds.0 as int, bounds.1 as int) == trimmed(text@),
{
    let n = text.len();
    let mut start: usize = 0;
    assert(text@.subrange(0, n as int) == text@);
    while start < n && is_whitespace(text[start])
        invariant
            n == text@.len(),
            start <= n,
            skip_leading(text@) == skip_leading(text@.subrange(start as int, n as int)),
        decreases n - start,
    {
        assert(text@.subrange(start as int, n as int).drop_first() == text@.subrange(
            start + 1,
            n as int,
        ));
        start = start + 1;
    }
    let ghost rest = text@.subrange(start as int, n as int);
    assert(skip_leading(text@) == rest);
    let mut end: usize = n;
    while end > start && is_whitespace(text[end - 1])
        invariant
            start <= end <= n,
            n == text@.len(),
            rest == text@.subrange(start as int, n as int),
            skip_trailing(rest) == skip_trailing(text@.subrange(start as int, end as int)),
        decreases end - start,
    {
        assert(text@.subrange(start as int, end as int).drop_last() == text@.subrange(
            start as int,
            end - 1,
        ));
        end = end - 1;
    }
    (start, end)
}

} // verus!

verus! {

/// Whether two strings hold the same characters.
pub fn same_text(a: &str, b: &str) -> (same: bool)
    ensures
        same == (a@ == b@),
{
    let chars = chars_of(a);
    spells(&chars, b)
}

} // verus!
