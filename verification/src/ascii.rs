//! ASCII case rules for keys, and the title-case form that enemy keys are
//! hashed in.

use vstd::prelude::*;

verus! {

/// Whether `c` is one of `0 ..= 9`, `a ..= z`, `A ..= Z`.
pub open spec fn is_ascii_alphanumeric(c: char) -> bool {
    ('0' <= c <= '9') || ('a' <= c <= 'z') || ('A' <= c <= 'Z')
}

/// `c` with `a ..= z` mapped to `A ..= Z`; every other character as it is.
pub open spec fn ascii_upper(c: char) -> char {
    if 'a' <= c <= 'z' {
        ((c as u8) - 32) as char
    } else {
        c
    }
}

/// `c` with `A ..= Z` mapped to `a ..= z`; every other character as it is.
pub open spec fn ascii_lower(c: char) -> char {
    if 'A' <= c <= 'Z' {
        ((c as u8) + 32) as char
    } else {
        c
    }
}

/// The character that stands at position `i` of the title-case form of `s`:
/// upper case at the start and after anything that is no letter or digit,
/// lower case for the other letters and digits, unchanged otherwise.
pub open spec fn title_case_char(s: Seq<char>, i: int) -> char
    recommends
        0 <= i < s.len(),
{
    if i == 0 || !is_ascii_alphanumeric(s[i - 1]) {
        ascii_upper(s[i])
    } else if is_ascii_alphanumeric(s[i]) {
        ascii_lower(s[i])
    } else {
        s[i]
    }
}

/// The title-case form of `s`, character by character.
pub open spec fn title_case(s: Seq<char>) -> Seq<char> {
    Seq::new(s.len(), |i: int| title_case_char(s, i))
}

/// Whether `c` is an ASCII letter or digit.
pub fn char_is_ascii_alphanumeric(c: char) -> (b: bool)
    ensures
        b == is_ascii_alphanumeric(c),
{
    ('0' <= c && c <= '9') || ('a' <= c && c <= 'z') || ('A' <= c && c <= 'Z')
}

/// `c` in upper case, if it is an ASCII letter.
pub fn char_to_ascii_upper(c: char) -> (u: char)
    ensures
        u == ascii_upper(c),
{
    if 'a' <= c && c <= 'z' {
        ((c as u8) - 32) as char
    } else {
        c
    }
}

/// `c` in lower case, if it is an ASCII letter.
pub fn char_to_ascii_lower(c: char) -> (l: char)
    ensures
        l == ascii_lower(c),
{
    if 'A' <= c && c <= 'Z' {
        ((c as u8) + 32) as char
    } else {
        c
    }
}

/// Brings a key into title case: `EM7700` becomes `Em7700`, `em_07`
/// becomes `Em_07`.
pub fn alphanumeric_title_case_normalize(key: &str) -> (normalized: String)
    ensures
        normalized@ == title_case(key@),
{
    broadcast use vstd::string::group_string_axioms;

    let mut normalized = String::new();
    let mut after_break = true;
    for c in it: key.chars()
        invariant
            it.seq() == key@,
            normalized@ == title_case(key@).take(it.index()),
            after_break == (it.index() == 0 || !is_ascii_alphanumeric(key@[it.index() - 1])),
    {
        let alphanumeric = char_is_ascii_alphanumeric(c);
        let out = if after_break {
            char_to_ascii_upper(c)
        } else if alphanumeric {
            char_to_ascii_lower(c)
        } else {
            c
        };
        assert(title_case(key@).take(it.index() + 1) == title_case(key@).take(it.index()).push(
            out,
        ));
        normalized.push(out);
        after_break = !alphanumeric;
    }
    assert(title_case(key@).take(key@.len() as int) == title_case(key@));
    normalized
}

/// What is neither a letter nor a digit passes through the title case
/// unchanged, wherever it stands.
pub proof fn lemma_title_case_keeps_other_characters(s: Seq<char>, i: int)
    requires
        0 <= i < s.len(),
        !is_ascii_alphanumeric(s[i]),
    ensures
        title_case(s)[i] == s[i],
{
}

/// The first character of a key, and every character that follows one that
/// is neither letter nor digit, is written in upper case.
pub proof fn lemma_title_case_starts_words_in_upper_case(s: Seq<char>, i: int)
    requires
        0 <= i < s.len(),
        i == 0 || !is_ascii_alphanumeric(s[i - 1]),
    ensures
        title_case(s)[i] == ascii_upper(s[i]),
{
}

/// A letter or digit that follows a letter or digit is written in lower
/// case.
pub proof fn lemma_title_case_goes_on_in_lower_case(s: Seq<char>, i: int)
    requires
        0 < i < s.len(),
        is_ascii_alphanumeric(s[i - 1]),
        is_ascii_alphanumeric(s[i]),
    ensures
        title_case(s)[i] == ascii_lower(s[i]),
{
}

/// A key in title case is its own title case.
pub proof fn lemma_title_case_is_idempotent(s: Seq<char>)
    ensures
        title_case(title_case(s)) == title_case(s),
{
    let once = title_case(s);
    assert forall|i: int| 0 <= i < s.len() implies is_ascii_alphanumeric(once[i])
        == is_ascii_alphanumeric(s[i]) by {}
    assert forall|i: int| 0 <= i < s.len() implies title_case(once)[i] == once[i] by {
        if i > 0 {
            assert(is_ascii_alphanumeric(once[i - 1]) == is_ascii_alphanumeric(s[i - 1]));
        }
    }
    assert(title_case(once) =~= once);
}

/// The title-case form has the length of the key.
pub proof fn lemma_title_case_len(s: Seq<char>)
    ensures
        title_case(s).len() == s.len(),
{
}

} // verus!
