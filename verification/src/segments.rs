//! Identifiers that carry their grouping in their own text: a fixed prefix,
//! and fields separated by a delimiter.

use crate::text::{chars_of, said};
use vstd::prelude::*;

verus! {

/// Whether `text` begins with `prefix`.
pub open spec fn has_prefix(text: Seq<char>, prefix: Seq<char>) -> bool {
    prefix.len() <= text.len() && text.take(prefix.len() as int) == prefix
}

/// The position of the first `delimiter` at or after `from`, or the length
/// of `text` where there is none.
pub open spec fn next_delimiter(text: Seq<char>, delimiter: char, from: int) -> int
    decreases text.len() - from,
{
    if from >= text.len() {
        text.len() as int
    } else if text[from] == delimiter {
        from
    } else {
        next_delimiter(text, delimiter, from + 1)
    }
}

/// The field number `n` (from zero) of what follows position `from`, the
/// fields being what stands between delimiters; `None` where there are
/// fewer fields. A field may be empty.
pub open spec fn field_from(text: Seq<char>, delimiter: char, from: int, n: nat) -> Option<
    Seq<char>,
>
    decreases n,
{
    let end = next_delimiter(text, delimiter, from);
    if n == 0 {
        Some(text.subrange(from, end))
    } else if end >= text.len() {
        None
    } else {
        field_from(text, delimiter, end + 1, (n - 1) as nat)
    }
}

/// The field number `n` (from zero) of `text` split at every `delimiter`.
pub open spec fn field(text: Seq<char>, delimiter: char, n: nat) -> Option<Seq<char>> {
    field_from(text, delimiter, 0, n)
}

/// Where no delimiter stands in `text[from .. to]`, the search from `from`
/// finds what the search from `to` finds.
proof fn lemma_next_delimiter_skips(text: Seq<char>, delimiter: char, from: int, to: int)
    requires
        0 <= from <= to <= text.len(),
        forall|j: int| from <= j < to ==> text[j] != delimiter,
    ensures
        next_delimiter(text, delimiter, from) == next_delimiter(text, delimiter, to),
    decreases to - from,
{
    if from < to {
        lemma_next_delimiter_skips(text, delimiter, from + 1, to);
    }
}

/// The search for a delimiter ends within the text, at a delimiter or at
/// the end, and passes over no delimiter on its way.
pub proof fn lemma_next_delimiter_is_the_first(text: Seq<char>, delimiter: char, from: int)
    requires
        0 <= from <= text.len(),
    ensures
        from <= next_delimiter(text, delimiter, from) <= text.len(),
        next_delimiter(text, delimiter, from) < text.len() ==> text[next_delimiter(
            text,
            delimiter,
            from,
        )] == delimiter,
        forall|j: int| from <= j < next_delimiter(text, delimiter, from) ==> text[j] != delimiter,
    decreases text.len() - from,
{
    if from < text.len() && text[from] != delimiter {
        lemma_next_delimiter_is_the_first(text, delimiter, from + 1);
    }
}

/// No field holds the delimiter.
pub proof fn lemma_field_holds_no_delimiter(text: Seq<char>, delimiter: char, from: int, n: nat)
    requires
        0 <= from <= text.len(),
        field_from(text, delimiter, from, n) is Some,
    ensures
        !field_from(text, delimiter, from, n)->0.contains(delimiter),
    decreases n,
{
    let end = next_delimiter(text, delimiter, from);
    lemma_next_delimiter_is_the_first(text, delimiter, from);
    if n == 0 {
        let found = text.subrange(from, end);
        assert forall|j: int| 0 <= j < found.len() implies found[j] != delimiter by {
            assert(found[j] == text[from + j]);
        }
    } else {
        lemma_field_holds_no_delimiter(text, delimiter, end + 1, (n - 1) as nat);
    }
}

/// Whether `text` begins with `prefix`.
pub fn starts_with(text: &str, prefix: &str) -> (b: bool)
    ensures
        b == has_prefix(text@, prefix@),
{
    broadcast use vstd::string::group_string_axioms;

    let wanted = chars_of(prefix);
    let mut matched: usize = 0;
    for c in it: text.chars()
        invariant
            it.seq() == text@,
            wanted@ == prefix@,
            matched == it.index(),
            matched <= wanted.len(),
            text@.take(matched as int) == prefix@.take(matched as int),
    {
        if matched == wanted.len() {
            assert(prefix@.take(matched as int) == prefix@);
            return true;
        }
        if wanted[matched] != c {
            proof {
                if prefix@.len() <= text@.len() {
                    assert(text@.take(prefix@.len() as int)[matched as int] == c);
                }
            }
            return false;
        }
        assert(text@.take(matched + 1) == text@.take(matched as int).push(c));
        assert(prefix@.take(matched + 1) == prefix@.take(matched as int).push(c));
        matched = matched + 1;
    }
    proof {
        assert(text@.take(text@.len() as int) == text@);
        if matched == wanted.len() {
            assert(prefix@.take(matched as int) == prefix@);
        }
    }
    matched == wanted.len()
}

/// The field number `n` (from zero) of `text` split at every `delimiter`.
pub fn nth_field(text: &str, delimiter: char, n: usize) -> (found: Option<String>)
    ensures
        said(found) == field(text@, delimiter, n as nat),
{
    broadcast use vstd::string::group_string_axioms;

    let mut current = String::new();
    let mut left: usize = n;
    let ghost mut start: int = 0;
    for c in it: text.chars()
        invariant
            it.seq() == text@,
            0 <= start <= it.index(),
            left <= n,
            field(text@, delimiter, n as nat) == field_from(text@, delimiter, start, left as nat),
            forall|j: int| start <= j < it.index() ==> text@[j] != delimiter,
            left == 0 ==> current@ == text@.subrange(start, it.index()),
            left > 0 ==> current@ == Seq::<char>::empty(),
    {
        if c == delimiter {
            proof {
                lemma_next_delimiter_skips(text@, delimiter, start, it.index());
            }
            if left == 0 {
                return Some(current);
            }
            left = left - 1;
            proof {
                start = it.index() + 1;
            }
            assert(text@.subrange(start, start) == Seq::<char>::empty());
        } else if left == 0 {
            assert(text@.subrange(start, it.index() + 1) == text@.subrange(start, it.index()).push(
                c,
            ));
            current.push(c);
        }
    }
    proof {
        lemma_next_delimiter_skips(text@, delimiter, start, text@.len() as int);
    }
    if left == 0 {
        Some(current)
    } else {
        None
    }
}

} // verus!
