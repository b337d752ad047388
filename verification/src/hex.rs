//! Hexadecimal notation for 32-bit values: the eight-digit rendering that
//! identifiers are published in, and the reading of such digits.

use vstd::prelude::*;

verus! {

/// The digit for `n < 16`, with `a ..= f` in upper or lower case.
pub open spec fn hex_digit(n: nat, upper: bool) -> char
    recommends
        n < 16,
{
    if n < 10 {
        (0x30 + n) as char
    } else if upper {
        (0x41 + n - 10) as char
    } else {
        (0x61 + n - 10) as char
    }
}

/// `value` modulo `16^width` in positional notation, `width` digits wide,
/// padded with zeros on the left.
pub open spec fn hex_digits(value: nat, width: nat, upper: bool) -> Seq<char>
    decreases width,
{
    if width == 0 {
        Seq::empty()
    } else {
        hex_digits(value / 16, (width - 1) as nat, upper).push(hex_digit(value % 16, upper))
    }
}

/// The eight lower-case digits of `h`.
pub open spec fn hex8(h: u32) -> Seq<char> {
    hex_digits(h as nat, 8, false)
}

/// The value of one hexadecimal digit, in either case.
pub open spec fn hex_digit_value(c: char) -> Option<nat> {
    if '0' <= c <= '9' {
        Some((c as u8 - 0x30) as nat)
    } else if 'a' <= c <= 'f' {
        Some((c as u8 - 0x61 + 10) as nat)
    } else if 'A' <= c <= 'F' {
        Some((c as u8 - 0x41 + 10) as nat)
    } else {
        None
    }
}

/// The number that a run of hexadecimal digits denotes; `None` where one of
/// them is no digit. The empty run denotes zero.
pub open spec fn hex_number(digits: Seq<char>) -> Option<nat>
    decreases digits.len(),
{
    if digits.len() == 0 {
        Some(0)
    } else {
        match (hex_number(digits.drop_last()), hex_digit_value(digits.last())) {
            (Some(high), Some(low)) => Some(16 * high + low),
            _ => None,
        }
    }
}

/// The digits of `text` once one leading `+` is set aside.
pub open spec fn unsigned_part(text: Seq<char>) -> Seq<char> {
    if text.len() > 0 && text[0] == '+' {
        text.drop_first()
    } else {
        text
    }
}

/// The 32-bit value that `text` denotes in base sixteen: an optional `+`,
/// then at least one digit, the whole no larger than `u32::MAX`.
pub open spec fn hex_u32(text: Seq<char>) -> Option<u32> {
    let digits = unsigned_part(text);
    if digits.len() == 0 {
        None
    } else {
        match hex_number(digits) {
            Some(n) => if n <= u32::MAX {
                Some(n as u32)
            } else {
                None
            },
            None => None,
        }
    }
}

fn digit_char(n: u32, upper: bool) -> (c: char)
    requires
        n < 16,
    ensures
        c == hex_digit(n as nat, upper),
{
    let n8: u8 = n as u8;
    if n8 < 10 {
        (0x30u8 + n8) as char
    } else if upper {
        (0x41u8 + n8 - 10) as char
    } else {
        (0x61u8 + n8 - 10) as char
    }
}

fn digit_value(c: char) -> (v: Option<u32>)
    ensures
        v is Some <==> hex_digit_value(c) is Some,
        v matches Some(n) ==> n < 16 && hex_digit_value(c) == Some(n as nat),
{
    if '0' <= c && c <= '9' {
        Some((c as u8 - 0x30u8) as u32)
    } else if 'a' <= c && c <= 'f' {
        Some((c as u8 - 0x61u8 + 10) as u32)
    } else if 'A' <= c && c <= 'F' {
        Some((c as u8 - 0x41u8 + 10) as u32)
    } else {
        None
    }
}

/// Appends the `width` low digits of `value` to `out`. A 32-bit value has
/// no more than eight digits: what a greater width asks for beyond them
/// are zeros on the left.
pub fn push_hex(out: &mut String, value: u32, width: u32, upper: bool)
    ensures
        final(out)@ == old(out)@ + hex_digits(value as nat, width as nat, upper),
    decreases width,
{
    if width > 8 {
        let mut left: u32 = width;
        proof {
            lemma_u32_fits_in_eight_digits(value);
        }
        while left > 8
            invariant
                8 <= left <= width,
                fits_in_digits(value as nat, 8),
                out@ + hex_digits(value as nat, left as nat, upper) == old(out)@ + hex_digits(
                    value as nat,
                    width as nat,
                    upper,
                ),
            decreases left,
        {
            proof {
                lemma_zero_on_the_left(value as nat, 8, (left - 1) as nat, upper);
                assert(out@.push('0') + hex_digits(value as nat, (left - 1) as nat, upper) == out@
                    + (seq!['0'] + hex_digits(value as nat, (left - 1) as nat, upper)));
            }
            out.push('0');
            left = left - 1;
        }
        let ghost before = out@;
        push_hex(out, value, 8, upper);
        assert(final(out)@ == before + hex_digits(value as nat, 8, upper));
    } else if width > 0 {
        push_hex(out, value / 16, width - 1, upper);
        out.push(digit_char(value % 16, upper));
        assert(final(out)@ == old(out)@ + hex_digits(value as nat, width as nat, upper));
    } else {
        assert(old(out)@ + Seq::<char>::empty() == old(out)@);
    }
}

/// `h` as eight lower-case hexadecimal digits.
pub fn to_hex8(h: u32) -> (text: String)
    ensures
        text@ == hex8(h),
{
    let mut text = String::new();
    push_hex(&mut text, h, 8, false);
    assert(Seq::<char>::empty() + hex8(h) == hex8(h));
    text
}

/// The form in which a hash is shown: `0x` and eight upper-case digits.
pub open spec fn shown_hash(h: u32) -> Seq<char> {
    seq!['0', 'x'] + hex_digits(h as nat, 8, true)
}

/// Shows a hash as `0x` and eight upper-case hexadecimal digits.
pub fn hash_to_str(hash: &u32) -> (text: String)
    ensures
        text@ == shown_hash(*hash),
{
    let mut text = String::new();
    text.push('0');
    text.push('x');
    push_hex(&mut text, *hash, 8, true);
    assert(Seq::<char>::empty().push('0').push('x') == seq!['0', 'x']);
    text
}

/// A longer run of digits denotes no smaller a number.
proof fn lemma_hex_number_grows(digits: Seq<char>, k: int)
    requires
        0 <= k <= digits.len(),
        hex_number(digits) is Some,
    ensures
        hex_number(digits.take(k)) is Some,
        hex_number(digits.take(k))->0 <= hex_number(digits)->0,
    decreases digits.len() - k,
{
    if k == digits.len() {
        assert(digits.take(k) == digits);
    } else {
        lemma_hex_number_grows(digits.drop_last(), k);
        assert(digits.drop_last().take(k) == digits.take(k));
    }
}

/// A run with a character that is no digit denotes nothing.
proof fn lemma_hex_number_rejects(digits: Seq<char>, k: int)
    requires
        0 <= k < digits.len(),
        hex_digit_value(digits[k]) is None,
    ensures
        hex_number(digits) is None,
    decreases digits.len(),
{
    if k < digits.len() - 1 {
        lemma_hex_number_rejects(digits.drop_last(), k);
    }
}

/// Reads `text` as a 32-bit value in base sixteen.
pub fn parse_hex(text: &str) -> (value: Option<u32>)
    ensures
        value == hex_u32(text@),
{
    broadcast use vstd::string::group_string_axioms;

    let mut acc: u64 = 0;
    let mut any_digit = false;
    let mut signed = false;
    let ghost digits = unsigned_part(text@);
    let ghost mut seen: int = 0;
    for c in it: text.chars()
        invariant
            it.seq() == text@,
            digits == unsigned_part(text@),
            signed == (text@.len() > 0 && text@[0] == '+' && it.index() > 0),
            seen == it.index() - if signed { 1int } else { 0 },
            any_digit == (seen > 0),
            acc <= u32::MAX,
            hex_number(digits.take(seen)) == Some(acc as nat),
    {
        if !signed && !any_digit && c == '+' {
            signed = true;
            assert(digits.take(0) == Seq::<char>::empty());
        } else {
            assert(digits[seen] == c);
            assert(digits.take(seen + 1).drop_last() == digits.take(seen));
            match digit_value(c) {
                None => {
                    proof {
                        lemma_hex_number_rejects(digits, seen);
                    }
                    return None;
                },
                Some(d) => {
                    let next: u64 = 16 * acc + d as u64;
                    if next > u32::MAX as u64 {
                        proof {
                            if hex_number(digits) is Some {
                                lemma_hex_number_grows(digits, seen + 1);
                            }
                        }
                        return None;
                    }
                    acc = next;
                    any_digit = true;
                    proof {
                        seen = seen + 1;
                    }
                },
            }
        }
    }
    assert(digits.take(digits.len() as int) == digits);
    if any_digit {
        Some(acc as u32)
    } else {
        None
    }
}

/// A digit stands for the value it was made from, in either case.
proof fn lemma_digit_reads_back(n: nat, upper: bool)
    requires
        n < 16,
    ensures
        hex_digit_value(hex_digit(n, upper)) == Some(n),
        hex_digit(n, upper) != '+',
{
}

/// Whether `value` can be written with `width` digits.
spec fn fits_in_digits(value: nat, width: nat) -> bool
    decreases width,
{
    if width == 0 {
        value == 0
    } else {
        fits_in_digits(value / 16, (width - 1) as nat)
    }
}

/// The digits of a value that fits are as many as asked for, and denote
/// the value.
proof fn lemma_digits_read_back(value: nat, width: nat, upper: bool)
    requires
        fits_in_digits(value, width),
    ensures
        hex_digits(value, width, upper).len() == width,
        hex_number(hex_digits(value, width, upper)) == Some(value),
        width > 0 ==> hex_digits(value, width, upper)[0] != '+',
    decreases width,
{
    if width > 0 {
        let front = hex_digits(value / 16, (width - 1) as nat, upper);
        let low = hex_digit(value % 16, upper);
        lemma_digits_read_back(value / 16, (width - 1) as nat, upper);
        lemma_digit_reads_back(value % 16, upper);
        assert(front.push(low).drop_last() == front);
        assert(front.push(low).last() == low);
        if width > 1 {
            assert(front.push(low)[0] == front[0]);
        }
    }
}

/// A 32-bit value can be written with eight digits.
proof fn lemma_u32_fits_in_eight_digits(h: u32)
    ensures
        fits_in_digits(h as nat, 8),
{
    let v = h as nat;
    reveal_with_fuel(fits_in_digits, 9);
    assert(v / 16 / 16 / 16 / 16 / 16 / 16 / 16 / 16 == 0);
}

/// A value that can be written with `enough` digits is written with more
/// digits by putting zeros on its left.
proof fn lemma_zero_on_the_left(value: nat, enough: nat, width: nat, upper: bool)
    requires
        fits_in_digits(value, enough),
        enough <= width,
    ensures
        fits_in_digits(value, width),
        hex_digits(value, width + 1, upper) == seq!['0'] + hex_digits(value, width, upper),
    decreases width,
{
    if width == 0 {
        reveal_with_fuel(hex_digits, 2);
        assert(value == 0);
        assert(hex_digits(value, 1, upper) == Seq::<char>::empty().push(hex_digit(0, upper)));
        assert(hex_digits(value, 1, upper) =~= seq!['0'] + hex_digits(value, 0, upper));
    } else {
        let fewer = if enough == 0 {
            0
        } else {
            (enough - 1) as nat
        };
        assert(fits_in_digits(value / 16, fewer));
        lemma_zero_on_the_left(value / 16, fewer, (width - 1) as nat, upper);
        let low = hex_digit(value % 16, upper);
        assert(hex_digits(value, width + 1, upper) == hex_digits(value / 16, width, upper).push(
            low,
        ));
        assert((seq!['0'] + hex_digits(value / 16, (width - 1) as nat, upper)).push(low)
            =~= seq!['0'] + hex_digits(value / 16, (width - 1) as nat, upper).push(low));
    }
}

/// The eight digits of a hash denote the hash: what is published as an
/// identifier can be read back.
pub proof fn lemma_hex8_reads_back(h: u32)
    ensures
        hex8(h).len() == 8,
        hex_u32(hex8(h)) == Some(h),
{
    lemma_u32_fits_in_eight_digits(h);
    lemma_digits_read_back(h as nat, 8, false);
}

/// Different hashes are published under different identifiers.
pub proof fn lemma_hex8_is_injective(a: u32, b: u32)
    requires
        hex8(a) == hex8(b),
    ensures
        a == b,
{
    lemma_hex8_reads_back(a);
    lemma_hex8_reads_back(b);
}

/// Reads a hash from its hexadecimal digits.
pub fn str_to_hash(string: &str) -> (h: u32)
    requires
        hex_u32(string@) is Some,
    ensures
        hex_u32(string@) == Some(h),
{
    match parse_hex(string) {
        Some(h) => h,
        None => vstd::pervasive::unreached(),
    }
}

} // verus!
