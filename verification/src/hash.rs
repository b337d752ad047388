//! The 32-bit content hash by which the game derives its identifiers.
//!
//! The function follows the shape of xxHash32 but differs from it in its
//! constants, in its fixed starting values (there is no seed), and in that an
//! input of exactly sixteen bytes does not go through the four lanes.

use byteorder::{ByteOrder, LittleEndian};
use vstd::prelude::*;
use vstd::slice::slice_subrange;
use vstd::utf8::{encode_utf8, is_ascii_chars_encode_utf8};

verus! {

/// The five multipliers of the hash.
pub const PRIME32_1: u32 = 0x9E3779B1;

pub const PRIME32_2: u32 = 0x85EBCA77;

pub const PRIME32_3: u32 = 0xC2B2AE3D;

pub const PRIME32_4: u32 = 0x27D4EB2F;

pub const PRIME32_5: u32 = 0x165667B1;

/// The value the hash starts from when the four lanes are not used.
pub const SHORT_INPUT_START: u32 = 0x178A54A4;

/// The values that the four lanes start from.
pub const LANE_1_START: u32 = 0x2557311B;

pub const LANE_2_START: u32 = 0x871FB76A;

pub const LANE_3_START: u32 = 0x0133ECF3;

pub const LANE_4_START: u32 = 0x62FC7342;

/// Number of input bytes that one pass over the four lanes consumes.
pub const STRIPE_LEN: usize = 16;

/// The four accumulators that long inputs are folded into.
pub struct Lanes {
    pub v1: u32,
    pub v2: u32,
    pub v3: u32,
    pub v4: u32,
}

/// `x` rotated left by `r` bits within 32 bits, for `0 < r < 32`.
pub open spec fn rotl32(x: u32, r: u32) -> u32 {
    (x << r) | (x >> ((32 - r) as u32))
}

/// One step of a lane: fold the word `input` into the accumulator `acc`.
#[verifier::opaque]
pub open spec fn round(acc: u32, input: u32) -> u32 {
    rotl32(acc.wrapping_add(input.wrapping_mul(PRIME32_2)), 13).wrapping_mul(PRIME32_1)
}

/// The 32-bit word whose little-endian bytes are `bytes[at .. at + 4]`.
pub open spec fn word_le(bytes: Seq<u8>, at: int) -> u32
    recommends
        0 <= at,
        at + 4 <= bytes.len(),
{
    (bytes[at] as int + 0x100 * (bytes[at + 1] as int) + 0x1_0000 * (bytes[at + 2] as int)
        + 0x100_0000 * (bytes[at + 3] as int)) as u32
}

/// The lanes before any input went in.
pub open spec fn initial_lanes() -> Lanes {
    Lanes { v1: LANE_1_START, v2: LANE_2_START, v3: LANE_3_START, v4: LANE_4_START }
}

/// The lanes after the sixteen bytes at `bytes[at .. at + 16]` went in, one
/// word per lane.
pub open spec fn stripe(lanes: Lanes, bytes: Seq<u8>, at: int) -> Lanes {
    Lanes {
        v1: round(lanes.v1, word_le(bytes, at)),
        v2: round(lanes.v2, word_le(bytes, at + 4)),
        v3: round(lanes.v3, word_le(bytes, at + 8)),
        v4: round(lanes.v4, word_le(bytes, at + 12)),
    }
}

/// The lanes after the first `n` stripes of `bytes`.
pub open spec fn lanes_after(bytes: Seq<u8>, n: nat) -> Lanes
    decreases n,
{
    if n == 0 {
        initial_lanes()
    } else {
        stripe(lanes_after(bytes, (n - 1) as nat), bytes, 16 * (n - 1))
    }
}

/// The four lanes brought together into one value.
#[verifier::opaque]
pub open spec fn merge(lanes: Lanes) -> u32 {
    rotl32(lanes.v1, 1).wrapping_add(rotl32(lanes.v2, 7)).wrapping_add(
        rotl32(lanes.v3, 12),
    ).wrapping_add(rotl32(lanes.v4, 18))
}

/// Fold one word of the tail into `h`.
#[verifier::opaque]
pub open spec fn mix_word(h: u32, word: u32) -> u32 {
    rotl32(h.wrapping_add(word.wrapping_mul(PRIME32_3)), 17).wrapping_mul(PRIME32_4)
}

/// Fold one byte of the tail into `h`.
#[verifier::opaque]
pub open spec fn mix_byte(h: u32, byte: u8) -> u32 {
    rotl32(h.wrapping_add((byte as u32).wrapping_mul(PRIME32_5)), 11).wrapping_mul(PRIME32_1)
}

/// `h` after the `n` words that start at `bytes[from]` went in.
pub open spec fn mix_words(h: u32, bytes: Seq<u8>, from: int, n: nat) -> u32
    decreases n,
{
    if n == 0 {
        h
    } else {
        mix_word(mix_words(h, bytes, from, (n - 1) as nat), word_le(bytes, from + 4 * (n - 1)))
    }
}

/// `h` after the `n` bytes that start at `bytes[from]` went in.
pub open spec fn mix_bytes(h: u32, bytes: Seq<u8>, from: int, n: nat) -> u32
    decreases n,
{
    if n == 0 {
        h
    } else {
        mix_byte(mix_bytes(h, bytes, from, (n - 1) as nat), bytes[from + n - 1])
    }
}

/// The final scrambling of the accumulated value.
#[verifier::opaque]
pub open spec fn avalanche(h: u32) -> u32 {
    let a = (h ^ (h >> 15)).wrapping_mul(PRIME32_2);
    let b = (a ^ (a >> 13)).wrapping_mul(PRIME32_3);
    b ^ (b >> 16)
}

/// How many whole stripes of `len` input bytes go through the lanes: none
/// unless the input is longer than one stripe.
pub open spec fn stripes_of(len: nat) -> nat {
    if len > 16 {
        len / 16
    } else {
        0
    }
}

/// The value the tail starts from: the merged lanes for an input longer than
/// sixteen bytes, the fixed start otherwise; plus the length, modulo 2^32.
pub open spec fn tail_start(bytes: Seq<u8>) -> u32 {
    let base = if bytes.len() > 16 {
        merge(lanes_after(bytes, stripes_of(bytes.len())))
    } else {
        SHORT_INPUT_START
    };
    base.wrapping_add((bytes.len() % 0x1_0000_0000) as u32)
}

/// The content hash of `bytes`.
pub open spec fn hash(bytes: Seq<u8>) -> u32 {
    let words_from = 16 * stripes_of(bytes.len());
    let words = ((bytes.len() - words_from) / 4) as nat;
    let bytes_from = words_from + 4 * words;
    let rest = (bytes.len() - bytes_from) as nat;
    avalanche(
        mix_bytes(
            mix_words(tail_start(bytes), bytes, words_from as int, words),
            bytes,
            bytes_from as int,
            rest,
        ),
    )
}

/// Rotates `x` left by `r` bits.
pub fn xxhash32_rotl(x: u32, r: u32) -> (rotated: u32)
    requires
        0 < r < 32,
    ensures
        rotated == rotl32(x, r),
{
    (x << r) | (x >> (32 - r))
}

/// Folds the word `input` into the lane accumulator `seed`.
pub fn xxhash32_round(seed: u32, input: u32) -> (acc: u32)
    ensures
        acc == round(seed, input),
{
    reveal(round);
    xxhash32_rotl(seed.wrapping_add(input.wrapping_mul(PRIME32_2)), 13).wrapping_mul(PRIME32_1)
}

/// `byteorder::LittleEndian::read_u32`: the first four bytes of `buf` read as
/// one unsigned number, least significant byte first. It panics on fewer
/// than four bytes, which the precondition rules out.
#[verifier::external_body]
fn read_u32_le(buf: &[u8]) -> (word: u32)
    requires
        buf@.len() >= 4,
    ensures
        word == word_le(buf@, 0),
{
    LittleEndian::read_u32(buf)
}

/// The little-endian word at `bytes[at .. at + 4]`.
fn word_at(bytes: &[u8], at: usize) -> (word: u32)
    requires
        at + 4 <= bytes.len(),
    ensures
        word == word_le(bytes@, at as int),
{
    read_u32_le(slice_subrange(bytes, at, at + 4))
}

/// Sends the sixteen bytes at `bytes[at .. at + 16]` through the lanes.
fn run_stripe(lanes: Lanes, bytes: &[u8], at: usize) -> (after: Lanes)
    requires
        at + 16 <= bytes.len(),
    ensures
        after == stripe(lanes, bytes@, at as int),
{
    Lanes {
        v1: xxhash32_round(lanes.v1, word_at(bytes, at)),
        v2: xxhash32_round(lanes.v2, word_at(bytes, at + 4)),
        v3: xxhash32_round(lanes.v3, word_at(bytes, at + 8)),
        v4: xxhash32_round(lanes.v4, word_at(bytes, at + 12)),
    }
}

/// Runs every whole stripe of an input longer than sixteen bytes through the
/// four lanes.
fn run_lanes(bytes: &[u8]) -> (lanes: Lanes)
    requires
        bytes@.len() > 16,
    ensures
        lanes == lanes_after(bytes@, stripes_of(bytes@.len())),
{
    let len: usize = bytes.len();
    let mut lanes = Lanes { v1: LANE_1_START, v2: LANE_2_START, v3: LANE_3_START, v4: LANE_4_START };
    let mut pos: usize = 0;
    let ghost mut done: nat = 0;
    while len - pos >= STRIPE_LEN
        invariant
            len == bytes@.len(),
            pos == 16 * done,
            pos <= len,
            lanes == lanes_after(bytes@, done),
        decreases len - pos,
    {
        lanes = run_stripe(lanes, bytes, pos);
        pos = pos + STRIPE_LEN;
        proof {
            done = done + 1;
        }
    }
    lanes
}

/// Brings the four lanes together.
fn merge_lanes(lanes: &Lanes) -> (h: u32)
    ensures
        h == merge(*lanes),
{
    reveal(merge);
    xxhash32_rotl(lanes.v1, 1).wrapping_add(xxhash32_rotl(lanes.v2, 7)).wrapping_add(
        xxhash32_rotl(lanes.v3, 12),
    ).wrapping_add(xxhash32_rotl(lanes.v4, 18))
}

/// Folds one word of the tail into `h`.
fn fold_word(h: u32, word: u32) -> (folded: u32)
    ensures
        folded == mix_word(h, word),
{
    reveal(mix_word);
    xxhash32_rotl(h.wrapping_add(word.wrapping_mul(PRIME32_3)), 17).wrapping_mul(PRIME32_4)
}

/// Folds one byte of the tail into `h`.
fn fold_byte(h: u32, byte: u8) -> (folded: u32)
    ensures
        folded == mix_byte(h, byte),
{
    reveal(mix_byte);
    xxhash32_rotl(h.wrapping_add((byte as u32).wrapping_mul(PRIME32_5)), 11).wrapping_mul(
        PRIME32_1,
    )
}

/// Scrambles the accumulated value.
fn finish(h: u32) -> (scrambled: u32)
    ensures
        scrambled == avalanche(h),
{
    reveal(avalanche);
    let a = (h ^ (h >> 15)).wrapping_mul(PRIME32_2);
    let b = (a ^ (a >> 13)).wrapping_mul(PRIME32_3);
    b ^ (b >> 16)
}

/// The value that the tail of the input is folded into.
fn start_of_tail(bytes: &[u8]) -> (h: u32)
    ensures
        h == tail_start(bytes@),
{
    let len: usize = bytes.len();
    let base: u32 = if len > STRIPE_LEN {
        merge_lanes(&run_lanes(bytes))
    } else {
        SHORT_INPUT_START
    };
    base.wrapping_add(((len as u64) % 0x1_0000_0000u64) as u32)
}

/// The content hash of a byte string. Total: every length is accepted, the
/// empty one included.
pub fn hash_bytes(bytes: &[u8]) -> (h: u32)
    ensures
        h == hash(bytes@),
{
    let len: usize = bytes.len();
    let mut h: u32 = start_of_tail(bytes);
    let mut pos: usize = if len > STRIPE_LEN {
        len - len % STRIPE_LEN
    } else {
        0
    };
    let ghost words_from = pos;
    let ghost mut words: nat = 0;
    assert(words_from == 16 * stripes_of(bytes@.len()));
    while len - pos >= 4
        invariant
            len == bytes@.len(),
            words_from <= pos <= len,
            pos == words_from + 4 * words,
            h == mix_words(tail_start(bytes@), bytes@, words_from as int, words),
        decreases len - pos,
    {
        h = fold_word(h, word_at(bytes, pos));
        pos = pos + 4;
        proof {
            words = words + 1;
        }
    }
    let ghost bytes_from = pos;
    let ghost h_words = h;
    let ghost mut rest: nat = 0;
    assert(words == (len - words_from) / 4);
    while pos < len
        invariant
            len == bytes@.len(),
            bytes_from <= pos <= len,
            pos == bytes_from + rest,
            h == mix_bytes(h_words, bytes@, bytes_from as int, rest),
        decreases len - pos,
    {
        h = fold_byte(h, bytes[pos]);
        pos = pos + 1;
        proof {
            rest = rest + 1;
        }
    }
    finish(h)
}

/// The content hash of the UTF-8 bytes of `input`.
pub fn xxhash32_custom(input: &str) -> (h: u32)
    ensures
        h == hash(encode_utf8(input@)),
{
    hash_bytes(input.as_bytes())
}

/// The content hash of a candidate text, for a search through candidates.
pub fn do_hash(input: &str) -> (h: u32)
    ensures
        h == hash(encode_utf8(input@)),
{
    xxhash32_custom(input)
}

/// A rotation loses no bit: rotating on by the rest of the 32 bits gives
/// the value back.
pub proof fn lemma_rotation_is_undone(x: u32, r: u32)
    requires
        0 < r < 32,
    ensures
        rotl32(rotl32(x, r), (32 - r) as u32) == x,
{
    let s: u32 = (32 - r) as u32;
    assert(s + r == 32);
    assert((((x << r) | (x >> s)) << s) | (((x << r) | (x >> s)) >> r) == x) by (bit_vector)
        requires
            0 < r < 32,
            s + r == 32,
    ;
    assert((32 - s) as u32 == r);
}

/// The hash of an input is a function of its bytes and of nothing else:
/// inputs with the same bytes have the same hash.
pub proof fn lemma_hash_is_deterministic(a: Seq<u8>, b: Seq<u8>)
    requires
        a.len() == b.len(),
        forall|i: int| 0 <= i < a.len() ==> a[i] == b[i],
    ensures
        hash(a) == hash(b),
{
    assert(a =~= b);
}

/// How a length falls into whole stripes, whole words and single bytes.
proof fn lemma_parts_of_length(len: int)
    requires
        len >= 0,
    ensures
        (len - 16 * (len / 16)) / 4 == (len % 16) / 4,
        16 * (len / 16) + 4 * ((len % 16) / 4) == 4 * (len / 4),
        len - 4 * (len / 4) == len % 4,
{
}

/// The hash, said with the start of the tail and the number of stripes
/// that went before it.
proof fn lemma_hash_in_parts(bytes: Seq<u8>, stripes: nat, words: nat, rest: nat)
    requires
        stripes == stripes_of(bytes.len()),
        words == (bytes.len() - 16 * stripes) / 4,
        rest == bytes.len() - 16 * stripes - 4 * words,
    ensures
        hash(bytes) == avalanche(
            mix_bytes(
                mix_words(tail_start(bytes), bytes, (16 * stripes) as int, words),
                bytes,
                (16 * stripes + 4 * words) as int,
                rest,
            ),
        ),
{
}

/// An input of at most sixteen bytes, sixteen included, does not go through
/// the lanes: its words and bytes are folded into the fixed start plus the
/// length.
pub proof fn lemma_short_input_skips_the_lanes(bytes: Seq<u8>)
    requires
        bytes.len() <= 16,
    ensures
        hash(bytes) == avalanche(
            mix_bytes(
                mix_words(
                    SHORT_INPUT_START.wrapping_add(bytes.len() as u32),
                    bytes,
                    0,
                    bytes.len() / 4,
                ),
                bytes,
                (4 * (bytes.len() / 4)) as int,
                bytes.len() % 4,
            ),
        ),
{
    let len = bytes.len();
    assert((len % 0x1_0000_0000) as u32 == len as u32);
    assert(tail_start(bytes) == SHORT_INPUT_START.wrapping_add(len as u32));
    lemma_parts_of_length(len as int);
    lemma_hash_in_parts(bytes, 0, len / 4, len % 4);
}

/// An input of more than sixteen bytes goes through the lanes stripe by
/// stripe; what is left after the last whole stripe is folded into the
/// merged lanes plus the length.
pub proof fn lemma_long_input_goes_through_the_lanes(bytes: Seq<u8>)
    requires
        bytes.len() > 16,
    ensures
        hash(bytes) == avalanche(
            mix_bytes(
                mix_words(
                    merge(lanes_after(bytes, bytes.len() / 16)).wrapping_add(
                        (bytes.len() % 0x1_0000_0000) as u32,
                    ),
                    bytes,
                    (16 * (bytes.len() / 16)) as int,
                    (bytes.len() % 16) / 4,
                ),
                bytes,
                (4 * (bytes.len() / 4)) as int,
                bytes.len() % 4,
            ),
        ),
{
    let len = bytes.len();
    assert(tail_start(bytes) == merge(lanes_after(bytes, len / 16)).wrapping_add(
        (len % 0x1_0000_0000) as u32,
    ));
    lemma_parts_of_length(len as int);
    lemma_hash_in_parts(bytes, len / 16, (len % 16) / 4, len % 4);
}

/// The hash of the empty input is `0x887AE0B0`.
pub proof fn lemma_hash_of_empty()
    ensures
        hash(Seq::<u8>::empty()) == 0x887AE0B0u32,
{
    let bytes = Seq::<u8>::empty();
    assert(tail_start(bytes) == 0x178A54A4u32);
    assert(mix_words(0x178A54A4u32, bytes, 0, 0) == 0x178A54A4u32);
    assert(mix_bytes(0x178A54A4u32, bytes, 0, 0) == 0x178A54A4u32);
    lemma_avalanche_of_empty();
}

proof fn lemma_avalanche_of_empty()
    ensures
        avalanche(0x178A54A4u32) == 0x887AE0B0u32,
{
    reveal(avalanche);
    assert(0x178A54A4u32 ^ (0x178A54A4u32 >> 15) == 0x178A7BB0u32) by (bit_vector);
    assert(0x178A7BB0u32.wrapping_mul(PRIME32_2) == 0x31885ED0u32);
    assert(0x31885ED0u32 ^ (0x31885ED0u32 >> 13) == 0x3189D292u32) by (bit_vector);
    assert(0x3189D292u32.wrapping_mul(PRIME32_3) == 0x887A68CAu32);
    assert(0x887A68CAu32 ^ (0x887A68CAu32 >> 16) == 0x887AE0B0u32) by (bit_vector);
}

proof fn lemma_word_of_hello()
    ensures
        mix_word(0x178A54A9u32, 0x6C6C6568u32) == 0x50F172EAu32,
{
    reveal(mix_word);
    assert(0x6C6C6568u32.wrapping_mul(PRIME32_3) == 0xD510D9C8u32);
    assert(0x178A54A9u32.wrapping_add(0xD510D9C8u32) == 0xEC9B2E71u32);
    assert((0xEC9B2E71u32 << 17u32) | (0xEC9B2E71u32 >> 15u32) == 0x5CE3D936u32) by (bit_vector);
    assert(rotl32(0xEC9B2E71u32, 17) == 0x5CE3D936u32);
    assert(0x5CE3D936u32.wrapping_mul(PRIME32_4) == 0x50F172EAu32);
}

proof fn lemma_byte_of_hello()
    ensures
        mix_byte(0x50F172EAu32, 0x6Fu8) == 0x94953513u32,
{
    reveal(mix_byte);
    assert((0x6Fu8 as u32).wrapping_mul(PRIME32_5) == 0xAF76F5BFu32);
    assert(0x50F172EAu32.wrapping_add(0xAF76F5BFu32) == 0x006868A9u32);
    assert((0x006868A9u32 << 11u32) | (0x006868A9u32 >> 21u32) == 0x43454803u32) by (bit_vector);
    assert(rotl32(0x006868A9u32, 11) == 0x43454803u32);
    assert(0x43454803u32.wrapping_mul(PRIME32_1) == 0x94953513u32);
}

proof fn lemma_avalanche_of_hello()
    ensures
        avalanche(0x94953513u32) == 0x9AD6310Du32,
{
    reveal(avalanche);
    assert(0x94953513u32 ^ (0x94953513u32 >> 15) == 0x94941C39u32) by (bit_vector);
    assert(0x94941C39u32.wrapping_mul(PRIME32_2) == 0x7471187Fu32);
    assert(0x7471187Fu32 ^ (0x7471187Fu32 >> 13) == 0x7472BBF7u32) by (bit_vector);
    assert(0x7472BBF7u32.wrapping_mul(PRIME32_3) == 0x9AD6ABDBu32);
    assert(0x9AD6ABDBu32 ^ (0x9AD6ABDBu32 >> 16) == 0x9AD6310Du32) by (bit_vector);
}

/// The hash of the five bytes of `hello` is `0x9AD6310D`.
pub proof fn lemma_hash_of_hello()
    ensures
        hash(seq![0x68u8, 0x65u8, 0x6Cu8, 0x6Cu8, 0x6Fu8]) == 0x9AD6310Du32,
{
    let bytes = seq![0x68u8, 0x65u8, 0x6Cu8, 0x6Cu8, 0x6Fu8];
    assert(bytes.len() == 5);
    assert(stripes_of(bytes.len()) == 0);
    assert(tail_start(bytes) == 0x178A54A9u32);
    assert(word_le(bytes, 0) == 0x6C6C6568u32);
    lemma_word_of_hello();
    assert(mix_words(0x178A54A9u32, bytes, 0, 0) == 0x178A54A9u32);
    assert(mix_words(0x178A54A9u32, bytes, 0, 1) == 0x50F172EAu32);
    lemma_byte_of_hello();
    assert(bytes[4] == 0x6Fu8);
    assert(mix_bytes(0x50F172EAu32, bytes, 4, 0) == 0x50F172EAu32);
    assert(mix_bytes(0x50F172EAu32, bytes, 4, 1) == 0x94953513u32);
    lemma_avalanche_of_hello();
}

/// The hash of the empty text is `0x887AE0B0`, and the hash of the text
/// `hello` is `0x9AD6310D`.
pub proof fn lemma_hash_of_fixed_texts()
    ensures
        hash(encode_utf8(""@)) == 0x887AE0B0u32,
        hash(encode_utf8("hello"@)) == 0x9AD6310Du32,
{
    reveal_strlit("");
    reveal_strlit("hello");
    assert(encode_utf8(""@) =~= Seq::<u8>::empty());
    is_ascii_chars_encode_utf8("hello"@);
    assert(encode_utf8("hello"@) =~= seq![0x68u8, 0x65u8, 0x6Cu8, 0x6Cu8, 0x6Fu8]);
    lemma_hash_of_empty();
    lemma_hash_of_hello();
}

} // verus!
