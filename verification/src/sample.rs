//! Raw conversion words: 24 bits, two's complement, most significant bit first.

use vstd::prelude::*;
use vstd::arithmetic::power2::{lemma2_to64, lemma_pow2_unfold, pow2};

verus! {

/// Number of data bits in one conversion result.
pub const SAMPLE_BITS: u8 = 24;

/// Bit 23 of a conversion word, its sign bit.
pub const SIGN_BIT: u32 = 0x80_0000;

/// The 24 data bits of a conversion word.
pub const WORD_MASK: u32 = 0xFF_FFFF;

/// Smallest value a conversion can deliver.
pub const SAMPLE_MIN: i32 = -0x80_0000;

/// Largest value a conversion can deliver.
pub const SAMPLE_MAX: i32 = 0x7F_FFFF;

/// The integer that a 24-bit two's-complement word stands for.
pub open spec fn signed_of_word(word: int) -> int {
    if word >= 0x80_0000 {
        word - 0x100_0000
    } else {
        word
    }
}

/// The unsigned word spelled by `bits`, the first bit being the most
/// significant one.
pub open spec fn word_of_bits(bits: Seq<bool>) -> nat
    decreases bits.len(),
{
    if bits.len() == 0 {
        0
    } else {
        2 * word_of_bits(bits.drop_last()) + if bits.last() { 1nat } else { 0nat }
    }
}

/// Whether `value` is in the range of a 24-bit two's-complement sample.
pub open spec fn in_sample_range(value: int) -> bool {
    -0x80_0000 <= value < 0x80_0000
}

/// Appending a bit doubles the word and adds the bit.
pub proof fn lemma_word_of_pushed_bit(bits: Seq<bool>, bit: bool)
    ensures
        word_of_bits(bits.push(bit)) == 2 * word_of_bits(bits) + if bit { 1nat } else { 0nat },
{
    assert(bits.push(bit).drop_last() =~= bits);
}

/// A word of `n` bits is below `2^n`.
pub proof fn lemma_word_of_bits_bound(bits: Seq<bool>)
    ensures
        word_of_bits(bits) < pow2(bits.len()),
    decreases bits.len(),
{
    if bits.len() == 0 {
        lemma2_to64();
    } else {
        lemma_word_of_bits_bound(bits.drop_last());
        lemma_pow2_unfold(bits.len());
    }
}

/// Sign extension of a 24-bit word subtracts `2^24` exactly when bit 23 is
/// set and leaves the word as it is otherwise, so every result lies in the
/// 24-bit signed range.
pub proof fn lemma_sign_extension(word: u32)
    requires
        word < 0x100_0000,
    ensures
        (word & 0x80_0000 != 0) <==> signed_of_word(word as int) == word - 0x100_0000,
        (word & 0x80_0000 == 0) <==> signed_of_word(word as int) == word,
        in_sample_range(signed_of_word(word as int)),
{
    assert((word & 0x80_0000 != 0) <==> word >= 0x80_0000) by (bit_vector)
        requires
            word < 0x100_0000,
    ;
}

/// Subtracting `2^24` from a word with bit 23 set is the same as setting the
/// upper eight bits of the 32-bit word.
pub proof fn lemma_sign_extension_fills_upper_bits(word: u32)
    requires
        0x80_0000 <= word < 0x100_0000,
    ensures
        signed_of_word(word as int) == (word | 0xFF00_0000u32) as i32,
{
    assert((word | 0xFF00_0000u32) == word + 0xFF00_0000u32) by (bit_vector)
        requires
            word < 0x100_0000,
    ;
    assert(((word + 0xFF00_0000u32) as u32) as i32 == word - 0x100_0000) by (bit_vector)
        requires
            0x80_0000 <= word < 0x100_0000,
    ;
}

/// Widens the 24-bit two's-complement word in the low bits of `word` to a
/// signed integer. The upper eight bits of `word` are ignored.
pub fn sign_extend(word: u32) -> (value: i32)
    ensures
        value == signed_of_word(word as int % 0x100_0000),
        in_sample_range(value as int),
{
    let low: u32 = word & WORD_MASK;
    assert(low == word % 0x100_0000) by (bit_vector)
        requires
            low == word & 0xFF_FFFF,
    ;
    if low >= SIGN_BIT {
        (low as i32) - 0x100_0000
    } else {
        low as i32
    }
}

/// Shifts `bit` into the low end of a word that is being received most
/// significant bit first, keeping 24 bits.
pub fn shift_in(word: u32, bit: bool) -> (next: u32)
    ensures
        next == (2 * word + if bit { 1int } else { 0int }) % 0x100_0000,
{
    let low: u32 = if bit { 1 } else { 0 };
    let next: u32 = ((word << 1) | low) & WORD_MASK;
    assert(next == (2 * word + low) % 0x100_0000) by (bit_vector)
        requires
            low <= 1,
            next == ((word << 1) | low) & 0xFF_FFFF,
    ;
    next
}

} // verus!
