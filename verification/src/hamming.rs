//! Hamming(8,4) forward error correction with an overall parity bit.
//!
//! A nibble `d4 d3 d2 d1` becomes the byte `p8 d4 d3 d2 p4 d1 p2 p1`
//! (most significant bit first).  `p1`, `p2` and `p4` are even parities over
//! the usual Hamming subsets, `p8` is the even parity of the other seven
//! bits.  The code corrects any single flipped bit and detects any two.

use vstd::prelude::*;

verus! {

/// Bit `b` of `v`, as 0 or 1.
pub open spec fn bit(v: u8, b: u8) -> u8 {
    (v >> b) & 1
}

/// The code word of the nibble `v`.
pub open spec fn code_word(v: u8) -> u8 {
    let d1 = bit(v, 0);
    let d2 = bit(v, 1);
    let d3 = bit(v, 2);
    let d4 = bit(v, 3);
    let p1 = d1 ^ d2 ^ d4;
    let p2 = d1 ^ d3 ^ d4;
    let p4 = d2 ^ d3 ^ d4;
    let p8 = p1 ^ p2 ^ d1 ^ p4 ^ d2 ^ d3 ^ d4;
    p1 | (p2 << 1) | (d1 << 2) | (p4 << 3) | (d2 << 4) | (d3 << 5) | (d4 << 6) | (p8 << 7)
}

/// The nibble held in the four data positions of `h`.
pub open spec fn data_bits(h: u8) -> u8 {
    bit(h, 2) | (bit(h, 4) << 1) | (bit(h, 5) << 2) | (bit(h, 6) << 3)
}

/// The syndrome of `h`: the sum of 1, 2 and 4 for each failing parity check.
/// A non-zero syndrome `i` points at bit `i - 1`.
pub open spec fn syndrome(h: u8) -> u8 {
    (bit(h, 0) ^ bit(h, 2) ^ bit(h, 4) ^ bit(h, 6))
        | ((bit(h, 1) ^ bit(h, 2) ^ bit(h, 5) ^ bit(h, 6)) << 1)
        | ((bit(h, 3) ^ bit(h, 4) ^ bit(h, 5) ^ bit(h, 6)) << 2)
}

/// The parity of all eight bits of `h`: 1 when an odd number of them is set.
pub open spec fn overall_parity(h: u8) -> u8 {
    bit(h, 0) ^ bit(h, 1) ^ bit(h, 2) ^ bit(h, 3) ^ bit(h, 4) ^ bit(h, 5) ^ bit(h, 6) ^ bit(h, 7)
}

/// `h` with bit `b` inverted.
pub open spec fn flipped(h: u8, b: u8) -> u8 {
    h ^ (1u8 << b)
}

/// `h` with the one bit repaired that the syndrome names; with a zero
/// syndrome that is the overall parity bit itself.
pub open spec fn repaired(h: u8) -> u8 {
    if syndrome(h) == 0 {
        h ^ 0x80
    } else {
        h ^ (1u8 << ((syndrome(h) - 1) as u8))
    }
}

/// What a received byte decodes to: the nibble and whether one bit had to
/// be corrected, or `None` for an uncorrectable two-bit error.
pub open spec fn decoded(h: u8) -> Option<(u8, bool)> {
    if overall_parity(h) == 1 {
        Some((data_bits(repaired(h)), true))
    } else if syndrome(h) == 0 {
        Some((data_bits(h), false))
    } else {
        None
    }
}

fn nth_bit(v: u8, b: u8) -> (r: u8)
    requires
        b < 8,
    ensures
        r == bit(v, b),
        r <= 1,
{
    assert(((v >> b) & 1) <= 1) by (bit_vector);
    (v >> b) & 1
}

fn nth_flip(v: u8, b: u8) -> (r: u8)
    requires
        b < 8,
    ensures
        r == flipped(v, b),
{
    v ^ (1u8 << b)
}

/// Encodes the nibble `v` into its code word.
pub fn encode_hamming(v: u8) -> (h: u8)
    requires
        v < 16,
    ensures
        h == code_word(v),
{
    let d1: u8 = nth_bit(v, 0);
    let d2: u8 = nth_bit(v, 1);
    let d3: u8 = nth_bit(v, 2);
    let d4: u8 = nth_bit(v, 3);

    // even parity
    let p1: u8 = d1 ^ d2 ^ d4;
    let p2: u8 = d1 ^ d3 ^ d4;
    let p4: u8 = d2 ^ d3 ^ d4;
    let p8: u8 = p1 ^ p2 ^ d1 ^ p4 ^ d2 ^ d3 ^ d4;

    p1 | (p2 << 1) | (d1 << 2) | (p4 << 3) | (d2 << 4) | (d3 << 5) | (d4 << 6) | (p8 << 7)
}

/// Decodes a received byte: the nibble and whether a single-bit error was
/// corrected, or `None` when two bits are wrong.  No correction beyond one
/// bit is attempted.
pub fn decode_hamming(h: u8) -> (r: Option<(u8, bool)>)
    ensures
        r == decoded(h),
{
    let p1: u8 = nth_bit(h, 0);
    let p2: u8 = nth_bit(h, 1);
    let d1: u8 = nth_bit(h, 2);
    let p4: u8 = nth_bit(h, 3);
    let d2: u8 = nth_bit(h, 4);
    let d3: u8 = nth_bit(h, 5);
    let d4: u8 = nth_bit(h, 6);
    let p8: u8 = nth_bit(h, 7);

    // position of a single wrong bit, counted from 1; 0 when the three
    // checks pass
    let mut i: u8 = 0;
    if (p1 ^ d1 ^ d2 ^ d4) == 1 {
        i += 1;
    }
    if (p2 ^ d1 ^ d3 ^ d4) == 1 {
        i += 2;
    }
    if (p4 ^ d2 ^ d3 ^ d4) == 1 {
        i += 4;
    }
    proof {
        lemma_syndrome_sum(h);
        lemma_parity_order(h);
        assert(1u8 << 7u8 == 0x80) by (bit_vector);
    }

    let mut fixed: u8 = h;
    let mut corrected: bool = false;
    if (p8 ^ d4 ^ d3 ^ d2 ^ p4 ^ d1 ^ p2 ^ p1) == 1 {
        // a zero syndrome with odd parity means the parity bit itself
        if i == 0 {
            i = 8;
        }
        fixed = nth_flip(h, i - 1);
        corrected = true;
    } else if i != 0 {
        return None;
    }

    let d1: u8 = nth_bit(fixed, 2);
    let d2: u8 = nth_bit(fixed, 4);
    let d3: u8 = nth_bit(fixed, 5);
    let d4: u8 = nth_bit(fixed, 6);

    Some((d1 | (d2 << 1) | (d3 << 2) | (d4 << 3), corrected))
}

proof fn lemma_syndrome_sum(h: u8)
    ensures
        syndrome(h) < 8,
        syndrome(h) == (if bit(h, 0) ^ bit(h, 2) ^ bit(h, 4) ^ bit(h, 6) == 1 { 1int } else { 0 })
            + (if bit(h, 1) ^ bit(h, 2) ^ bit(h, 5) ^ bit(h, 6) == 1 { 2int } else { 0 })
            + (if bit(h, 3) ^ bit(h, 4) ^ bit(h, 5) ^ bit(h, 6) == 1 { 4int } else { 0 }),
{
    let a = bit(h, 0) ^ bit(h, 2) ^ bit(h, 4) ^ bit(h, 6);
    let b = bit(h, 1) ^ bit(h, 2) ^ bit(h, 5) ^ bit(h, 6);
    let c = bit(h, 3) ^ bit(h, 4) ^ bit(h, 5) ^ bit(h, 6);
    assert(a == 0 || a == 1) by (bit_vector)
        requires a == ((h >> 0u8) & 1) ^ ((h >> 2u8) & 1) ^ ((h >> 4u8) & 1) ^ ((h >> 6u8) & 1);
    assert(b == 0 || b == 1) by (bit_vector)
        requires b == ((h >> 1u8) & 1) ^ ((h >> 2u8) & 1) ^ ((h >> 5u8) & 1) ^ ((h >> 6u8) & 1);
    assert(c == 0 || c == 1) by (bit_vector)
        requires c == ((h >> 3u8) & 1) ^ ((h >> 4u8) & 1) ^ ((h >> 5u8) & 1) ^ ((h >> 6u8) & 1);
    assert((a | (b << 1u8) | (c << 2u8)) == a + 2 * b + 4 * c) by (bit_vector)
        requires a <= 1, b <= 1, c <= 1;
}

proof fn lemma_parity_order(h: u8)
    ensures
        overall_parity(h) == bit(h, 7) ^ bit(h, 6) ^ bit(h, 5) ^ bit(h, 4) ^ bit(h, 3)
            ^ bit(h, 2) ^ bit(h, 1) ^ bit(h, 0),
{
    let b0 = bit(h, 0); let b1 = bit(h, 1); let b2 = bit(h, 2); let b3 = bit(h, 3);
    let b4 = bit(h, 4); let b5 = bit(h, 5); let b6 = bit(h, 6); let b7 = bit(h, 7);
    assert(b0 ^ b1 ^ b2 ^ b3 ^ b4 ^ b5 ^ b6 ^ b7 == b7 ^ b6 ^ b5 ^ b4 ^ b3 ^ b2 ^ b1 ^ b0)
        by (bit_vector);
}

/// A code word that arrives unchanged decodes to its nibble, with no
/// correction reported.
pub proof fn law_clean_word_decodes(v: u8)
    requires
        v < 16,
    ensures
        decoded(code_word(v)) == Some((v, false)),
{
    assert(v < 16 ==> overall_parity(code_word(v)) == 0 && syndrome(code_word(v)) == 0
        && data_bits(code_word(v)) == v) by (bit_vector);
}

/// A code word with any one of its eight bits flipped decodes to the
/// nibble that was sent, with the correction reported.
pub proof fn law_single_flip_corrected(v: u8, b: u8)
    requires
        v < 16,
        b < 8,
    ensures
        decoded(flipped(code_word(v), b)) == Some((v, true)),
{
    assert(v < 16 && b < 8 ==> overall_parity(code_word(v) ^ (1u8 << b)) == 1
        && data_bits(repaired(code_word(v) ^ (1u8 << b))) == v) by (bit_vector);
}

/// A code word with any two different bits flipped is rejected.
pub proof fn law_double_flip_detected(v: u8, b1: u8, b2: u8)
    requires
        v < 16,
        b1 < 8,
        b2 < 8,
        b1 != b2,
    ensures
        decoded(flipped(flipped(code_word(v), b1), b2)) is None,
{
    assert(v < 16 && b1 < 8 && b2 < 8 && b1 != b2 ==> overall_parity(
        code_word(v) ^ (1u8 << b1) ^ (1u8 << b2),
    ) == 0 && syndrome(code_word(v) ^ (1u8 << b1) ^ (1u8 << b2)) != 0) by (bit_vector);
}

/// Whatever byte arrives, a decoded nibble is below 16, a byte accepted
/// without correction is that nibble's code word, and a byte accepted with
/// correction is one bit away from it.
pub proof fn law_decoded_is_nearest_word(h: u8)
    ensures
        decoded(h) matches Some((v, fixed)) ==> v < 16 && (!fixed ==> h == code_word(v)) && (fixed
            ==> exists|b: u8| b < 8 && h == #[trigger] flipped(code_word(v), b)),
{
    assert(data_bits(h) < 16 && data_bits(repaired(h)) < 16) by (bit_vector);
    assert(overall_parity(h) == 0 || overall_parity(h) == 1) by (bit_vector);
    assert(overall_parity(h) == 0 && syndrome(h) == 0 ==> h == code_word(data_bits(h)))
        by (bit_vector);
    if overall_parity(h) == 1 {
        let v = data_bits(repaired(h));
        let b: u8 = if syndrome(h) == 0 { 7u8 } else { (syndrome(h) - 1) as u8 };
        lemma_syndrome_sum(h);
        assert(overall_parity(h) == 1 ==> repaired(h) == code_word(data_bits(repaired(h))))
            by (bit_vector);
        assert(1u8 << 7u8 == 0x80) by (bit_vector);
        assert(repaired(h) == h ^ (1u8 << b));
        let w = code_word(v);
        assert(h == w ^ (1u8 << b)) by (bit_vector)
            requires
                w == h ^ (1u8 << b),
        ;
        assert(b < 8 && h == flipped(code_word(v), b));
    }
}

} // verus!
