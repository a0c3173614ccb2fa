use vstd::prelude::*;

verus! {

/// Bit `index` of the two's-complement form of `w`.
pub open spec fn bit_of(w: i16, index: int) -> bool {
    ((w as u16) >> (index as u16)) & 1u16 == 1u16
}

/// Mask of the low `width` bits, for `width < 16`.
pub open spec fn low_mask(width: int) -> u16 {
    ((1u16 << (width as u16)) - 1u16) as u16
}

/// Bits `lo` (inclusive) to `hi` (exclusive) of `w`, moved down to bit 0 and zero-filled.
pub open spec fn slice_of(w: i16, lo: int, hi: int) -> i16 {
    if lo >= 16 {
        0
    } else if hi - lo >= 16 {
        ((w as u16) >> (lo as u16)) as i16
    } else {
        (((w as u16) >> (lo as u16)) & low_mask(hi - lo)) as i16
    }
}

/// Bit `index` of `bits`, counting from the least significant bit.
pub fn get_bit(bits: i16, index: u16) -> (r: bool)
    requires
        index < 16,
    ensures
        r == bit_of(bits, index as int),
{
    ((#[verifier::truncate] (bits as u16)) >> index) & 1 == 1
}

/// Bits `start` to `end` (exclusive) of `bits`, right-aligned, with no sign extension.
pub fn get_bit_slice(bits: i16, start: u16, end: u16) -> (r: i16)
    requires
        start <= end <= 16,
    ensures
        r == slice_of(bits, start as int, end as int),
{
    if start >= 16 {
        return 0;
    }
    let shifted: u16 = (#[verifier::truncate] (bits as u16)) >> start;
    let width: u16 = end - start;
    if width >= 16 {
        #[verifier::truncate]
        (shifted as i16)
    } else {
        assert((1u16 << width) >= 1u16) by (bit_vector)
            requires
                width < 16,
        ;
        let mask: u16 = (1u16 << width) - 1;
        #[verifier::truncate]
        ((shifted & mask) as i16)
    }
}

/// A bit of a word is the matching binary digit of its 16-bit two's-complement form:
/// the quotient by `2^index`, taken modulo 2.
pub proof fn lemma_bit_is_binary_digit(w: i16, index: int)
    requires
        0 <= index < 16,
    ensures
        bit_of(w, index) == (((w as u16) / (1u16 << (index as u16))) % 2 == 1),
{
    let x = w as u16;
    let i = index as u16;
    assert((((x >> i) & 1u16) == 1u16) == ((x / (1u16 << i)) % 2 == 1)) by (bit_vector)
        requires
            i < 16,
    ;
}

/// A slice of fewer than 16 bits is non-negative and fits in `hi - lo` bits.
pub proof fn lemma_slice_bounds(w: i16, lo: int, hi: int)
    requires
        0 <= lo <= hi <= 16,
        hi - lo < 16,
    ensures
        0 <= slice_of(w, lo, hi),
        (slice_of(w, lo, hi) as int) < (1u16 << ((hi - lo) as u16)) as int,
{
    let x = w as u16;
    let l = lo as u16;
    let k = (hi - lo) as u16;
    assert(((x >> l) & (((1u16 << k) - 1u16) as u16)) < (1u16 << k)) by (bit_vector)
        requires
            k < 16,
    ;
    assert(((x >> l) & (((1u16 << k) - 1u16) as u16)) <= 0x7fffu16) by (bit_vector)
        requires
            k < 16,
    ;
}

} // verus!
