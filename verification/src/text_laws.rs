//! What holds of the operations on text.

use crate::text::{
    after_first, before_first, begins_with, contains_text, occurs_at, replaced, trimmed,
    trimmed_end, trimmed_start,
};
use vstd::prelude::*;

verus! {

/// A part stands at a place just where all its characters do.
pub proof fn occurring_is_matching(text: Seq<char>, part: Seq<char>, at: int)
    ensures
        occurs_at(text, part, at) <==> 0 <= at && at + part.len() <= text.len() && forall|i: int|
            0 <= i < part.len() ==> text[at + i] == #[trigger] part[i],
{
    if 0 <= at && at + part.len() <= text.len() {
        let here = text.subrange(at, at + part.len());
        assert(forall|i: int| 0 <= i < part.len() ==> here[i] == text[at + i]);
        if forall|i: int| 0 <= i < part.len() ==> text[at + i] == #[trigger] part[i] {
            assert(here =~= part);
        }
    }
}

/// A text holds a part just where it is something, the part, and something.
pub proof fn holding_is_splitting(text: Seq<char>, part: Seq<char>)
    ensures
        contains_text(text, part) <==> exists|a: Seq<char>, b: Seq<char>|
            text == #[trigger] (a + part + b),
{
    if contains_text(text, part) {
        let at = choose|at: int| occurs_at(text, part, at);
        let a = text.take(at);
        let b = text.skip(at + part.len());
        assert(text =~= a + text.subrange(at, at + part.len()) + b);
        assert(text == a + part + b);
    }
    if exists|a: Seq<char>, b: Seq<char>| text == #[trigger] (a + part + b) {
        let (a, b) = choose|a: Seq<char>, b: Seq<char>| text == #[trigger] (a + part + b);
        assert(text.subrange(a.len() as int, (a.len() + part.len()) as int) =~= part);
        assert(occurs_at(text, part, a.len() as int));
    }
}

/// A text begins with a prefix just where it is the prefix and something.
pub proof fn beginning_is_splitting(text: Seq<char>, prefix: Seq<char>)
    ensures
        begins_with(text, prefix) <==> exists|rest: Seq<char>| text == #[trigger] (prefix + rest),
{
    if begins_with(text, prefix) {
        let rest = text.skip(prefix.len() as int);
        assert(text =~= text.subrange(0, prefix.len() as int) + rest);
        assert(text == prefix + rest);
    }
    if exists|rest: Seq<char>| text == #[trigger] (prefix + rest) {
        let rest = choose|rest: Seq<char>| text == #[trigger] (prefix + rest);
        assert(text.subrange(0, prefix.len() as int) =~= prefix);
    }
}

/// A text in which a part does not occur is not changed by replacing it.
pub proof fn nothing_is_replaced_where_nothing_occurs(
    text: Seq<char>,
    from: Seq<char>,
    to: Seq<char>,
)
    requires
        !contains_text(text, from),
    ensures
        replaced(text, from, to) == text,
    decreases text.len(),
{
    if from.len() > 0 && text.len() >= from.len() {
        assert(!occurs_at(text, from, 0));
        let rest = text.skip(1);
        assert(!contains_text(rest, from)) by {
            if contains_text(rest, from) {
                let at = choose|at: int| occurs_at(rest, from, at);
                assert(rest.subrange(at, at + from.len()) =~= text.subrange(
                    at + 1,
                    at + 1 + from.len(),
                ));
                assert(occurs_at(text, from, at + 1));
            }
        }
        nothing_is_replaced_where_nothing_occurs(rest, from, to);
        assert(seq![text[0]] + rest =~= text);
    }
}

/// The first occurrence of a part is replaced, what stands before it stays, and
/// what stands after it is dealt with in the same way.
pub proof fn first_occurrence_is_replaced(
    before: Seq<char>,
    from: Seq<char>,
    after: Seq<char>,
    to: Seq<char>,
)
    requires
        from.len() > 0,
        forall|at: int| 0 <= at < before.len() ==> !occurs_at(before + from + after, from, at),
    ensures
        replaced(before + from + after, from, to) == before + to + replaced(after, from, to),
    decreases before.len(),
{
    let text = before + from + after;
    if before.len() == 0 {
        assert(text.subrange(0, from.len() as int) =~= from);
        assert(text.skip(from.len() as int) =~= after);
        assert(before + to =~= to);
    } else {
        assert(!occurs_at(text, from, 0));
        let rest = before.skip(1);
        assert(text.skip(1) =~= rest + from + after);
        assert forall|at: int| 0 <= at < rest.len() implies !occurs_at(
            rest + from + after,
            from,
            at,
        ) by {
            if occurs_at(rest + from + after, from, at) {
                assert(text.subrange(at + 1, at + 1 + from.len()) =~= (rest + from
                    + after).subrange(at, at + from.len()));
                assert(occurs_at(text, from, at + 1));
            }
        }
        first_occurrence_is_replaced(rest, from, after, to);
        assert(seq![text[0]] + (rest + to + replaced(after, from, to)) =~= before + to + replaced(
            after,
            from,
            to,
        ));
    }
}

/// A text is what stands before the first of a character, that character, and
/// what stands after it; a text without the character stands before it whole.
pub proof fn first_character_splits(text: Seq<char>, c: char)
    ensures
        !before_first(text, c).contains(c),
        text.contains(c) ==> text == before_first(text, c) + seq![c] + after_first(text, c),
        !text.contains(c) ==> before_first(text, c) == text && after_first(text, c).len() == 0,
    decreases text.len(),
{
    if text.len() > 0 {
        let rest = text.skip(1);
        first_character_splits(rest, c);
        assert(text =~= seq![text[0]] + rest);
        if text[0] == c {
            assert(text =~= before_first(text, c) + seq![c] + after_first(text, c));
        } else {
            assert(text.contains(c) <==> rest.contains(c)) by {
                if text.contains(c) {
                    let i = choose|i: int| 0 <= i < text.len() && text[i] == c;
                    assert(rest[i - 1] == c);
                }
                if rest.contains(c) {
                    let i = choose|i: int| 0 <= i < rest.len() && rest[i] == c;
                    assert(text[i + 1] == c);
                }
            }
            assert(before_first(text, c) =~= seq![text[0]] + before_first(rest, c));
            assert forall|i: int| 0 <= i < before_first(text, c).len() implies before_first(
                text,
                c,
            )[i] != c by {
                if i > 0 {
                    assert(before_first(text, c)[i] == before_first(rest, c)[i - 1]);
                    assert(before_first(rest, c).contains(before_first(rest, c)[i - 1]));
                }
            }
            if text.contains(c) {
                assert(text =~= before_first(text, c) + seq![c] + after_first(text, c));
            } else {
                assert(before_first(text, c) =~= text);
            }
        }
    }
}

/// The text holds the character and nothing else.
pub open spec fn is_run_of(text: Seq<char>, c: char) -> bool {
    forall|i: int| 0 <= i < text.len() ==> text[i] == c
}

/// Trimming takes runs of the character off both ends, and all of them: what is
/// left neither begins nor ends with it.
pub proof fn trimming_takes_off_both_runs(text: Seq<char>, c: char)
    ensures
        exists|a: Seq<char>, b: Seq<char>|
            is_run_of(a, c) && is_run_of(b, c) && text == #[trigger] (a + trimmed(text, c) + b),
        trimmed(text, c).len() > 0 ==> trimmed(text, c)[0] != c && trimmed(text, c).last() != c,
{
    let a = lemma_trimmed_start(text, c);
    let rest = trimmed_start(text, c);
    let b = lemma_trimmed_end(rest, c);
    assert(text =~= a + trimmed_end(rest, c) + b);
    if trimmed(text, c).len() > 0 {
        assert(rest[0] == trimmed_end(rest, c)[0]);
    }
    assert(trimmed(text, c) == trimmed_end(rest, c));
    assert(is_run_of(a, c) && is_run_of(b, c) && text == (a + trimmed(text, c) + b));
}

proof fn lemma_trimmed_start(text: Seq<char>, c: char) -> (run: Seq<char>)
    ensures
        is_run_of(run, c),
        text == run + trimmed_start(text, c),
        trimmed_start(text, c).len() > 0 ==> trimmed_start(text, c)[0] != c,
    decreases text.len(),
{
    if text.len() > 0 && text[0] == c {
        let run = lemma_trimmed_start(text.skip(1), c);
        let more = seq![c] + run;
        assert(text =~= seq![c] + text.skip(1));
        assert(text =~= more + trimmed_start(text.skip(1), c));
        more
    } else {
        assert(text =~= Seq::empty() + text);
        Seq::empty()
    }
}

proof fn lemma_trimmed_end(text: Seq<char>, c: char) -> (run: Seq<char>)
    ensures
        is_run_of(run, c),
        text == trimmed_end(text, c) + run,
        trimmed_end(text, c).len() > 0 ==> trimmed_end(text, c).last() != c,
    decreases text.len(),
{
    if text.len() > 0 && text.last() == c {
        let run = lemma_trimmed_end(text.drop_last(), c);
        let more = run.push(c);
        assert(text =~= text.drop_last().push(c));
        assert(text =~= trimmed_end(text.drop_last(), c) + more);
        more
    } else {
        assert(text =~= text + Seq::empty());
        Seq::empty()
    }
}

} // verus!
