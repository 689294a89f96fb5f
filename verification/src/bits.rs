//! Big-endian codec: four raw bytes to and from a signed 32-bit word.

use vstd::prelude::*;
use vstd::arithmetic::div_mod::{
    lemma_fundamental_div_mod_converse_div, lemma_fundamental_div_mod_converse_mod,
};

verus! {

/// Error from the big-endian codec.
#[derive(Clone, Copy, Debug, PartialEq, Eq, Structural)]
pub enum CodecError {
    /// The input slice does not hold exactly four bytes.
    InvalidLength,
}

/// The unsigned value of four bytes read big-endian.
pub open spec fn be_unsigned(b1: u8, b2: u8, b3: u8, b4: u8) -> int {
    b1 * 0x100_0000 + b2 * 0x1_0000 + b3 * 0x100 + b4
}

/// Two's-complement reading of an unsigned value below 2^32.
pub open spec fn as_signed_32(v: int) -> int {
    if v >= 0x8000_0000 {
        v - 0x1_0000_0000
    } else {
        v
    }
}

/// The signed 32-bit word that four big-endian bytes denote.
pub open spec fn spec_word(b1: u8, b2: u8, b3: u8, b4: u8) -> i32 {
    as_signed_32(be_unsigned(b1, b2, b3, b4)) as i32
}

/// The unsigned value (below 2^32) whose two's-complement reading is `w`.
pub open spec fn word_unsigned(w: i32) -> int {
    if w < 0 {
        w + 0x1_0000_0000
    } else {
        w as int
    }
}

/// The four big-endian bytes that encode the word `w`.
pub open spec fn spec_word_bytes(w: i32) -> Seq<u8> {
    let u = word_unsigned(w);
    seq![
        (u / 0x100_0000) as u8,
        ((u / 0x1_0000) % 0x100) as u8,
        ((u / 0x100) % 0x100) as u8,
        (u % 0x100) as u8,
    ]
}

/// Combines four bytes, big-endian, into a signed 32-bit word:
/// the value is `b1<<24 | b2<<16 | b3<<8 | b4`, read in two's complement.
pub fn interpret_big_endian_word(b1: u8, b2: u8, b3: u8, b4: u8) -> (r: i32)
    ensures
        r == spec_word(b1, b2, b3, b4),
{
    let u: u32 = (b1 as u32) * 0x100_0000 + (b2 as u32) * 0x1_0000 + (b3 as u32) * 0x100
        + (b4 as u32);
    if u >= 0x8000_0000 {
        -1 - ((0xFFFF_FFFFu32 - u) as i32)
    } else {
        u as i32
    }
}

/// Reads a four-byte slice as a big-endian signed word; any other
/// length is rejected with `InvalidLength`.
pub fn interpret_big_endian_slice(bytes: &[u8]) -> (r: Result<i32, CodecError>)
    ensures
        bytes@.len() == 4 ==> r == Ok::<i32, CodecError>(
            spec_word(bytes@[0], bytes@[1], bytes@[2], bytes@[3]),
        ),
        bytes@.len() != 4 ==> r == Err::<i32, CodecError>(CodecError::InvalidLength),
{
    if bytes.len() != 4 {
        Err(CodecError::InvalidLength)
    } else {
        Ok(interpret_big_endian_word(bytes[0], bytes[1], bytes[2], bytes[3]))
    }
}

/// Encodes a signed 32-bit word as its four big-endian bytes.
pub fn big_endian_bytes_of_word(w: i32) -> (r: [u8; 4])
    ensures
        r@ == spec_word_bytes(w),
{
    let u: u32 = if w >= 0 {
        w as u32
    } else {
        0xFFFF_FFFFu32 - ((-(w + 1)) as u32)
    };
    proof {
        lemma_word_unsigned_digits(w);
        assert(u == word_unsigned(w));
    }
    let r = [(u / 0x100_0000) as u8, ((u / 0x1_0000) % 0x100) as u8, ((u / 0x100) % 0x100) as u8, (
    u % 0x100) as u8];
    proof {
        assert(r@ =~= spec_word_bytes(w));
    }
    r
}

/// The digits that `spec_word_bytes` extracts are bytes: each quotient
/// or remainder of `word_unsigned(w)` lies below 256.
proof fn lemma_word_unsigned_digits(w: i32)
    ensures
        0 <= word_unsigned(w) < 0x1_0000_0000,
        0 <= word_unsigned(w) / 0x100_0000 < 0x100,
        0 <= (word_unsigned(w) / 0x1_0000) % 0x100 < 0x100,
        0 <= (word_unsigned(w) / 0x100) % 0x100 < 0x100,
        0 <= word_unsigned(w) % 0x100 < 0x100,
{
    let u = word_unsigned(w);
    assert(0 <= u < 0x1_0000_0000);
    assert(u / 0x100_0000 < 0x100) by (nonlinear_arith)
        requires
            0 <= u < 0x1_0000_0000,
    ;
    assert(0 <= u / 0x100_0000) by (nonlinear_arith)
        requires
            0 <= u,
    ;
    assert(0 <= (u / 0x1_0000) % 0x100 < 0x100) by (nonlinear_arith);
    assert(0 <= (u / 0x100) % 0x100 < 0x100) by (nonlinear_arith);
    assert(0 <= u % 0x100 < 0x100) by (nonlinear_arith);
}

/// Decomposing the unsigned value of four big-endian bytes by quotients
/// and remainders gives each byte back.
proof fn lemma_be_unsigned_digits(b1: u8, b2: u8, b3: u8, b4: u8)
    ensures
        0 <= be_unsigned(b1, b2, b3, b4) < 0x1_0000_0000,
        be_unsigned(b1, b2, b3, b4) / 0x100_0000 == b1,
        (be_unsigned(b1, b2, b3, b4) / 0x1_0000) % 0x100 == b2,
        (be_unsigned(b1, b2, b3, b4) / 0x100) % 0x100 == b3,
        be_unsigned(b1, b2, b3, b4) % 0x100 == b4,
{
    let u = be_unsigned(b1, b2, b3, b4);
    assert(u == b1 * 0x100_0000 + (b2 * 0x1_0000 + b3 * 0x100 + b4));
    lemma_fundamental_div_mod_converse_div(
        u,
        0x100_0000,
        b1 as int,
        b2 * 0x1_0000 + b3 * 0x100 + b4,
    );
    assert(u / 0x100_0000 == b1);
    assert(u == (b1 * 0x100 + b2) * 0x1_0000 + (b3 * 0x100 + b4));
    lemma_fundamental_div_mod_converse_div(u, 0x1_0000, b1 * 0x100 + b2, b3 * 0x100 + b4);
    lemma_fundamental_div_mod_converse_mod(b1 * 0x100 + b2, 0x100, b1 as int, b2 as int);
    assert((u / 0x1_0000) % 0x100 == b2);
    assert(u == (b1 * 0x1_0000 + b2 * 0x100 + b3) * 0x100 + b4);
    lemma_fundamental_div_mod_converse_div(u, 0x100, b1 * 0x1_0000 + b2 * 0x100 + b3, b4 as int);
    lemma_fundamental_div_mod_converse_mod(
        b1 * 0x1_0000 + b2 * 0x100 + b3,
        0x100,
        b1 * 0x100 + b2,
        b3 as int,
    );
    assert((u / 0x100) % 0x100 == b3);
    lemma_fundamental_div_mod_converse_mod(u, 0x100, b1 * 0x1_0000 + b2 * 0x100 + b3, b4 as int);
    assert(u % 0x100 == b4);
}

/// Law: the codec round-trips byte-side. Encoding the word that four
/// big-endian bytes denote reproduces those four bytes.
pub proof fn lemma_word_round_trip(b1: u8, b2: u8, b3: u8, b4: u8)
    ensures
        spec_word_bytes(spec_word(b1, b2, b3, b4)) =~= seq![b1, b2, b3, b4],
{
    let u = be_unsigned(b1, b2, b3, b4);
    lemma_be_unsigned_digits(b1, b2, b3, b4);
    let w = spec_word(b1, b2, b3, b4);
    assert(word_unsigned(w) == u);
}

/// Law: the codec round-trips value-side. Reading back the four
/// big-endian bytes of a word gives the word itself.
pub proof fn lemma_value_round_trip(w: i32)
    ensures
        spec_word(
            spec_word_bytes(w)[0],
            spec_word_bytes(w)[1],
            spec_word_bytes(w)[2],
            spec_word_bytes(w)[3],
        ) == w,
{
    let u = word_unsigned(w);
    lemma_word_unsigned_digits(w);
    let b1 = spec_word_bytes(w)[0];
    let b2 = spec_word_bytes(w)[1];
    let b3 = spec_word_bytes(w)[2];
    let b4 = spec_word_bytes(w)[3];
    assert(be_unsigned(b1, b2, b3, b4) == (u / 0x100_0000) * 0x100_0000 + ((u / 0x1_0000) % 0x100)
        * 0x1_0000 + ((u / 0x100) % 0x100) * 0x100 + u % 0x100);
    assert((u / 0x100_0000) * 0x100_0000 + ((u / 0x1_0000) % 0x100) * 0x1_0000 + ((u / 0x100)
        % 0x100) * 0x100 + u % 0x100 == u) by (nonlinear_arith)
        requires
            0 <= u < 0x1_0000_0000,
    ;
}

} // verus!
