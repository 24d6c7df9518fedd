//! The values of a response header, as a document writes them.
//!
//! A document gives the values of a header as a list of texts or as one
//! text. One text that holds a comma stands for several values: it is split
//! at each comma, and each piece is trimmed of the whitespace around it. A
//! text without a comma is one value, taken as it is.

use crate::model::HeaderValues;
use crate::text::chars_of;
use vstd::prelude::*;
use vstd::string::StrSliceExecFns;

verus! {

/// Whether `c` is whitespace: one of the characters that have the Unicode
/// property `White_Space`.
pub open spec fn is_whitespace(c: char) -> bool {
    let code = c as u32;
    ||| 0x09 <= code <= 0x0d
    ||| code == 0x20
    ||| code == 0x85
    ||| code == 0xa0
    ||| code == 0x1680
    ||| 0x2000 <= code <= 0x200a
    ||| code == 0x2028
    ||| code == 0x2029
    ||| code == 0x202f
    ||| code == 0x205f
    ||| code == 0x3000
}

/// Whether `c` is whitespace.
pub fn char_is_whitespace(c: char) -> (white: bool)
    ensures
        white == is_whitespace(c),
{
    let code: u32 = c as u32;
    (0x09 <= code && code <= 0x0d) || code == 0x20 || code == 0x85 || code == 0xa0 || code
        == 0x1680 || (0x2000 <= code && code <= 0x200a) || code == 0x2028 || code == 0x2029
        || code == 0x202f || code == 0x205f || code == 0x3000
}

/// A text without the whitespace at its start.
pub open spec fn trim_start(text: Seq<char>) -> Seq<char>
    decreases text.len(),
{
    if text.len() > 0 && is_whitespace(text[0]) {
        trim_start(text.drop_first())
    } else {
        text
    }
}

/// A text without the whitespace at its end.
pub open spec fn trim_end(text: Seq<char>) -> Seq<char>
    decreases text.len(),
{
    if text.len() > 0 && is_whitespace(text.last()) {
        trim_end(text.drop_last())
    } else {
        text
    }
}

/// A text without the whitespace at its start and at its end.
pub open spec fn trimmed(text: Seq<char>) -> Seq<char> {
    trim_end(trim_start(text))
}

/// Each text of a list, trimmed.
pub open spec fn trimmed_all(pieces: Seq<Seq<char>>) -> Seq<Seq<char>> {
    Seq::new(pieces.len(), |i: int| trimmed(pieces[i]))
}

/// The pieces of a text between its separators, in order. A text with `n`
/// separators has `n + 1` pieces, empty ones among them where a separator
/// stands at an end or beside another.
pub open spec fn split(text: Seq<char>, separator: char) -> Seq<Seq<char>>
    decreases text.len(),
{
    if text.len() == 0 {
        seq![Seq::empty()]
    } else {
        let before = split(text.drop_last(), separator);
        if text.last() == separator {
            before.push(Seq::empty())
        } else {
            before.drop_last().push(before.last().push(text.last()))
        }
    }
}

/// The texts of a list put together, with a separator between each two.
pub open spec fn joined(pieces: Seq<Seq<char>>, separator: char) -> Seq<char>
    decreases pieces.len(),
{
    if pieces.len() == 0 {
        Seq::empty()
    } else if pieces.len() == 1 {
        pieces[0]
    } else {
        joined(pieces.drop_last(), separator).push(separator) + pieces.last()
    }
}

/// The values that a text stands for.
pub open spec fn values_of_text(text: Seq<char>) -> Seq<Seq<char>> {
    if text.contains(',') {
        trimmed_all(split(text, ','))
    } else {
        seq![text]
    }
}

/// A text has one piece more than it has separators: one piece if and only
/// if it holds no separator.
pub proof fn lemma_split_len(text: Seq<char>, separator: char)
    ensures
        split(text, separator).len() >= 1,
        split(text, separator).len() == 1 <==> !text.contains(separator),
    decreases text.len(),
{
    if text.len() > 0 {
        let shorter = text.drop_last();
        lemma_split_len(shorter, separator);
        if text.last() != separator && text.contains(separator) {
            let i = choose|i: int| 0 <= i < text.len() && text[i] == separator;
            assert(shorter[i] == separator);
        }
    }
}

/// Law: the pieces of a text hold no separator, and put together again they
/// are the text.
pub proof fn law_split_joins_back(text: Seq<char>, separator: char)
    ensures
        forall|k: int|
            0 <= k < split(text, separator).len() ==> !(#[trigger] split(text, separator)[k]).contains(
                separator,
            ),
        joined(split(text, separator), separator) == text,
    decreases text.len(),
{
    let pieces = split(text, separator);
    if text.len() == 0 {
        assert(joined(pieces, separator) =~= text);
    } else {
        let shorter = text.drop_last();
        let before = split(shorter, separator);
        law_split_joins_back(shorter, separator);
        lemma_split_len(shorter, separator);
        if text.last() == separator {
            assert(pieces.drop_last() =~= before);
            assert(joined(pieces, separator) =~= shorter.push(separator));
        } else {
            let grown = before.last().push(text.last());
            assert(pieces.last() == grown);
            assert(pieces.drop_last() =~= before.drop_last());
            if grown.contains(separator) {
                let i = choose|i: int| 0 <= i < grown.len() && grown[i] == separator;
                assert(before.last()[i] == separator);
            }
            if before.len() == 1 {
                assert(joined(pieces, separator) =~= shorter.push(text.last()));
            } else {
                assert(joined(pieces, separator) =~= joined(before, separator).push(text.last()));
            }
        }
        assert(shorter.push(text.last()) =~= text);
    }
}

/// The bounds, within `from..to`, of that part of `chars` without the
/// whitespace at its ends.
fn trim_bounds(chars: &Vec<char>, from: usize, to: usize) -> (bounds: (usize, usize))
    requires
        from <= to <= chars.len(),
    ensures
        from <= bounds.0 <= bounds.1 <= to,
        chars@.subrange(bounds.0 as int, bounds.1 as int) == trimmed(
            chars@.subrange(from as int, to as int),
        ),
{
    let mut start = from;
    while start < to && char_is_whitespace(chars[start])
        invariant
            from <= start <= to <= chars.len(),
            trim_start(chars@.subrange(from as int, to as int)) == trim_start(
                chars@.subrange(start as int, to as int),
            ),
        decreases to - start,
    {
        proof {
            let rest = chars@.subrange(start as int, to as int);
            assert(rest.drop_first() =~= chars@.subrange(start + 1, to as int));
        }
        start += 1;
    }
    // What is left begins with no whitespace, so the whole of it is kept.
    assert(trim_start(chars@.subrange(start as int, to as int)) == chars@.subrange(
        start as int,
        to as int,
    ));
    let mut end = to;
    while end > start && char_is_whitespace(chars[end - 1])
        invariant
            start <= end <= to <= chars.len(),
            trim_end(chars@.subrange(start as int, to as int)) == trim_end(
                chars@.subrange(start as int, end as int),
            ),
        decreases end - start,
    {
        proof {
            let rest = chars@.subrange(start as int, end as int);
            assert(rest.drop_last() =~= chars@.subrange(start as int, end - 1));
        }
        end -= 1;
    }
    // What is left ends with no whitespace, so the whole of it is kept.
    assert(trim_end(chars@.subrange(start as int, end as int)) == chars@.subrange(
        start as int,
        end as int,
    ));
    (start, end)
}

/// How header values are written down.
pub enum Encoding<'a> {
    /// One value, as a bare text.
    Text(&'a String),
    /// Several values, as a list of texts.
    List(&'a Vec<String>),
}

impl HeaderValues {
    /// The values that `text` stands for: its trimmed pieces if it holds a
    /// comma, else the text itself.
    pub fn from_text(text: &str) -> (values: HeaderValues)
        ensures
            values.deep_view() == values_of_text(text@),
    {
        let chars = chars_of(text);
        let mut values: Vec<String> = Vec::new();
        let mut start: usize = 0;
        let mut i: usize = 0;
        while i < chars.len()
            invariant
                chars@ == text@,
                start <= i <= chars.len(),
                split(text@.take(i as int), ',').len() == values.len() + 1,
                values.deep_view() == trimmed_all(split(text@.take(i as int), ',').drop_last()),
                split(text@.take(i as int), ',').last() == text@.subrange(start as int, i as int),
            decreases chars.len() - i,
        {
            let ghost pieces = split(text@.take(i as int), ',');
            assert(text@.take(i + 1).drop_last() =~= text@.take(i as int));
            if chars[i] == ',' {
                // A piece ends here; the next one begins behind the comma.
                let ghost earlier = values.deep_view();
                let (from, to) = trim_bounds(&chars, start, i);
                values.push(text.substring_char(from, to).to_owned());
                start = i + 1;
                assert(values.deep_view() =~= earlier.push(trimmed(pieces.last())));
            }
            i += 1;
        }
        proof {
            assert(text@.take(chars.len() as int) =~= text@);
            lemma_split_len(text@, ',');
        }
        if values.len() == 0 {
            let mut only: Vec<String> = Vec::new();
            only.push(text.to_owned());
            return HeaderValues { values: only };
        }
        let ghost pieces = split(text@, ',');
        let (from, to) = trim_bounds(&chars, start, chars.len());
        values.push(text.substring_char(from, to).to_owned());
        assert(trimmed_all(pieces) =~= trimmed_all(pieces.drop_last()).push(trimmed(pieces.last())));
        HeaderValues { values }
    }

    /// How these values are written down: one value as a bare text, several
    /// as a list.
    pub fn encoding(&self) -> (form: Encoding<'_>)
        requires
            self.values.len() > 0,
        ensures
            match form {
                Encoding::Text(text) => self.values.len() == 1 && *text == self.values[0],
                Encoding::List(list) => self.values.len() > 1 && *list == self.values,
            },
    {
        if self.values.len() > 1 {
            Encoding::List(&self.values)
        } else {
            Encoding::Text(&self.values[0])
        }
    }
}

} // verus!
