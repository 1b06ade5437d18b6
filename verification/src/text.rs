//! Operations on text: comparison, search, replacement and trimming, stated
//! over the characters of a text.

use vstd::prelude::*;

verus! {

/// `part` stands in `text` at position `at`.
pub open spec fn occurs_at(text: Seq<char>, part: Seq<char>, at: int) -> bool {
    &&& 0 <= at
    &&& at + part.len() <= text.len()
    &&& text.subrange(at, at + part.len()) == part
}

/// `part` stands somewhere in `text`.
pub open spec fn contains_text(text: Seq<char>, part: Seq<char>) -> bool {
    exists|at: int| occurs_at(text, part, at)
}

/// `text` begins with `prefix`.
pub open spec fn begins_with(text: Seq<char>, prefix: Seq<char>) -> bool {
    occurs_at(text, prefix, 0)
}

/// `text` with every occurrence of `from` replaced by `to`, read from the left,
/// where occurrences do not overlap.
pub open spec fn replaced(text: Seq<char>, from: Seq<char>, to: Seq<char>) -> Seq<char>
    decreases text.len(),
{
    if from.len() == 0 || text.len() < from.len() {
        text
    } else if begins_with(text, from) {
        to + replaced(text.skip(from.len() as int), from, to)
    } else {
        seq![text[0]] + replaced(text.skip(1), from, to)
    }
}

/// `text` without the run of `c` at its start.
pub open spec fn trimmed_start(text: Seq<char>, c: char) -> Seq<char>
    decreases text.len(),
{
    if text.len() > 0 && text[0] == c {
        trimmed_start(text.skip(1), c)
    } else {
        text
    }
}

/// `text` without the run of `c` at its end.
pub open spec fn trimmed_end(text: Seq<char>, c: char) -> Seq<char>
    decreases text.len(),
{
    if text.len() > 0 && text.last() == c {
        trimmed_end(text.drop_last(), c)
    } else {
        text
    }
}

/// `text` without the runs of `c` at both ends.
pub open spec fn trimmed(text: Seq<char>, c: char) -> Seq<char> {
    trimmed_end(trimmed_start(text, c), c)
}

/// What stands before the first `c` in `text`, or all of `text` where there is none.
pub open spec fn before_first(text: Seq<char>, c: char) -> Seq<char>
    decreases text.len(),
{
    if text.len() == 0 || text[0] == c {
        Seq::empty()
    } else {
        seq![text[0]] + before_first(text.skip(1), c)
    }
}

/// What stands after the first `c` in `text`, or nothing where there is none.
pub open spec fn after_first(text: Seq<char>, c: char) -> Seq<char>
    decreases text.len(),
{
    if text.len() == 0 {
        Seq::empty()
    } else if text[0] == c {
        text.skip(1)
    } else {
        after_first(text.skip(1), c)
    }
}

/// Whether two texts hold the same characters.
pub(crate) fn same_text(a: &str, b: &str) -> (same: bool)
    ensures
        same == (a@ == b@),
{
    a.to_string() == b.to_string()
}

/// The characters of a text.
pub(crate) fn chars_of(text: &str) -> (chars: Vec<char>)
    ensures
        chars@ == text@,
{
    let mut chars: Vec<char> = Vec::new();
    for c in it: text.chars()
        invariant
            it.seq() == text@,
            chars@ == text@.take(it.index()),
    {
        assert(text@.take(it.index() + 1) == text@.take(it.index()).push(text@[it.index()]));
        chars.push(c);
    }
    assert(text@.take(text@.len() as int) == text@);
    chars
}

/// Whether `part` stands in `text` at position `at`.
fn part_at(text: &Vec<char>, part: &Vec<char>, at: usize) -> (found: bool)
    ensures
        found == occurs_at(text@, part@, at as int),
{
    if part.len() > text.len() || at > text.len() - part.len() {
        return false;
    }
    let mut i: usize = 0;
    while i < part.len()
        invariant
            i <= part.len(),
            at + part.len() <= text.len(),
            forall|j: int| 0 <= j < i ==> text[at + j] == part[j],
        decreases part.len() - i,
    {
        if text[at + i] != part[i] {
            assert(text@.subrange(at as int, at + part@.len())[i as int] != part@[i as int]);
            return false;
        }
        i += 1;
    }
    assert(text@.subrange(at as int, at + part@.len()) =~= part@);
    true
}

/// Whether `part` stands somewhere in `text`.
pub(crate) fn contains(text: &str, part: &str) -> (found: bool)
    ensures
        found == contains_text(text@, part@),
{
    let text_chars = chars_of(text);
    let part_chars = chars_of(part);
    let mut at: usize = 0;
    while at < text_chars.len()
        invariant
            at <= text_chars.len(),
            text_chars@ == text@,
            part_chars@ == part@,
            forall|j: int| 0 <= j < at ==> !occurs_at(text@, part@, j),
        decreases text_chars.len() - at,
    {
        if part_at(&text_chars, &part_chars, at) {
            return true;
        }
        at += 1;
    }
    part_at(&text_chars, &part_chars, at)
}

/// Whether `text` begins with `prefix`.
pub(crate) fn starts_with(text: &str, prefix: &str) -> (found: bool)
    ensures
        found == begins_with(text@, prefix@),
{
    part_at(&chars_of(text), &chars_of(prefix), 0)
}

/// `text` with every occurrence of `from` replaced by `to`.
pub(crate) fn replace(text: &str, from: &str, to: &str) -> (out: String)
    requires
        from@.len() > 0,
    ensures
        out@ == replaced(text@, from@, to@),
{
    let text_chars = chars_of(text);
    let from_chars = chars_of(from);
    let mut out = String::new();
    let mut copied: usize = 0;
    let mut at: usize = 0;
    assert(text@.skip(0) =~= text@);
    while at < text_chars.len()
        invariant
            copied <= at <= text_chars.len(),
            text_chars@ == text@,
            from_chars@ == from@,
            from@.len() > 0,
            replaced(text@, from@, to@) == out@ + text@.subrange(copied as int, at as int)
                + replaced(text@.skip(at as int), from@, to@),
        decreases text_chars.len() - at,
    {
        let ghost rest = text@.skip(at as int);
        if part_at(&text_chars, &from_chars, at) {
            assert(rest.subrange(0, from@.len() as int) =~= text@.subrange(
                at as int,
                at + from@.len(),
            ));
            assert(rest.skip(from@.len() as int) =~= text@.skip(at + from@.len()));
            let ghost before = out@;
            out.append(text.substring_char(copied, at));
            out.append(to);
            at += from_chars.len();
            copied = at;
            assert(text@.subrange(copied as int, at as int) =~= Seq::empty());
            assert(out@ + text@.subrange(copied as int, at as int) + replaced(
                text@.skip(at as int),
                from@,
                to@,
            ) =~= replaced(text@, from@, to@));
        } else {
            assert(!begins_with(rest, from@)) by {
                if begins_with(rest, from@) {
                    assert(rest.subrange(0, from@.len() as int) =~= text@.subrange(
                        at as int,
                        at + from@.len(),
                    ));
                }
            }
            assert(rest.skip(1) =~= text@.skip(at + 1));
            assert(rest.len() < from@.len() ==> rest =~= seq![rest[0]] + replaced(
                rest.skip(1),
                from@,
                to@,
            ));
            assert(text@.subrange(copied as int, at + 1) =~= text@.subrange(
                copied as int,
                at as int,
            ) + seq![rest[0]]);
            at += 1;
            assert(out@ + text@.subrange(copied as int, at as int) + replaced(
                text@.skip(at as int),
                from@,
                to@,
            ) =~= replaced(text@, from@, to@));
        }
    }
    assert(text@.skip(at as int) =~= Seq::<char>::empty());
    out.append(text.substring_char(copied, at));
    assert(out@ =~= replaced(text@, from@, to@));
    out
}

/// `text` without the runs of `c` at both ends.
pub(crate) fn trim(text: &str, c: char) -> (out: String)
    ensures
        out@ == trimmed(text@, c),
{
    let chars = chars_of(text);
    let mut start: usize = 0;
    assert(text@.skip(0) =~= text@);
    while start < chars.len() && chars[start] == c
        invariant
            start <= chars.len(),
            chars@ == text@,
            trimmed_start(text@, c) == trimmed_start(text@.skip(start as int), c),
        decreases chars.len() - start,
    {
        assert(text@.skip(start as int).skip(1) =~= text@.skip(start + 1));
        start += 1;
    }
    let mut end: usize = chars.len();
    assert(text@.skip(start as int) =~= text@.subrange(start as int, end as int));
    while end > start && chars[end - 1] == c
        invariant
            start <= end <= chars.len(),
            chars@ == text@,
            trimmed(text@, c) == trimmed_end(text@.subrange(start as int, end as int), c),
        decreases end,
    {
        assert(text@.subrange(start as int, end as int).drop_last() =~= text@.subrange(
            start as int,
            end - 1,
        ));
        end -= 1;
    }
    text.substring_char(start, end).to_string()
}

/// Splits `text` at the first `c`: what stands before it, and what stands
/// after it if there is one.
pub(crate) fn split_once(text: &str, c: char) -> (parts: (String, String))
    ensures
        parts.0@ == before_first(text@, c),
        parts.1@ == after_first(text@, c),
{
    let chars = chars_of(text);
    let mut at: usize = 0;
    assert(text@.skip(0) =~= text@);
    assert(text@.take(0) =~= Seq::empty());
    while at < chars.len() && chars[at] != c
        invariant
            at <= chars.len(),
            chars@ == text@,
            before_first(text@, c) =~= text@.take(at as int) + before_first(
                text@.skip(at as int),
                c,
            ),
            after_first(text@, c) == after_first(text@.skip(at as int), c),
        decreases chars.len() - at,
    {
        assert(text@.skip(at as int).skip(1) =~= text@.skip(at + 1));
        assert(text@.take(at + 1) =~= text@.take(at as int) + seq![text@[at as int]]);
        at += 1;
    }
    let before = text.substring_char(0, at).to_string();
    assert(before@ =~= text@.take(at as int));
    if at < chars.len() {
        assert(text@.skip(at as int).skip(1) =~= text@.subrange(at + 1, text@.len() as int));
        (before, text.substring_char(at + 1, chars.len()).to_string())
    } else {
        (before, String::new())
    }
}

/// The three texts, one after the other.
pub(crate) fn join3(a: &str, b: &str, c: &str) -> (out: String)
    ensures
        out@ == a@ + b@ + c@,
{
    let mut out = a.to_string();
    out.append(b);
    out.append(c);
    out
}

/// Two texts, one after the other.
pub(crate) fn join2(a: &str, b: &str) -> (out: String)
    ensures
        out@ == a@ + b@,
{
    let mut out = a.to_string();
    out.append(b);
    out
}

/// The name of what `str::to_lowercase` returns.
pub uninterp spec fn lowercased(text: Seq<char>) -> Seq<char>;

/// `str::to_lowercase`: the lower-case form of the text by the Unicode tables,
/// which the name `lowercased` stands for.
#[verifier::external_body]
pub(crate) fn to_lowercase(text: &str) -> (out: String)
    ensures
        out@ == lowercased(text@),
{
    text.to_lowercase()
}

} // verus!
