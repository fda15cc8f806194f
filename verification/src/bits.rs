//! Bit ranges of the 64-bit payload word.

use vstd::prelude::*;

verus! {

/// The word whose lowest `n` bits are set (all of them from 64 on).
pub open spec fn low_mask(n: nat) -> u64 {
    if n >= 64 {
        u64::MAX
    } else {
        ((1u64 << (n as u64)) - 1) as u64
    }
}

/// The word whose bits `off .. off + width` are set.
pub open spec fn field_mask(off: nat, width: nat) -> u64 {
    low_mask(off + width) & !low_mask(off)
}

/// The `size` bits of `data` that start at bit `off`, moved down to bit 0.
pub open spec fn extract_bits(data: u64, off: nat, size: nat) -> u64 {
    if off >= 64 {
        0
    } else {
        (data >> (off as u64)) & low_mask(size)
    }
}

/// `raw` moved up so that its bit 0 stands at bit `off`.
pub open spec fn place_bits(raw: u64, off: nat) -> u64 {
    if off >= 64 {
        0
    } else {
        raw << (off as u64)
    }
}

/// The two's-complement value of the lowest `size` bits of `raw`.
pub open spec fn sign_extend(raw: u64, size: nat) -> i64 {
    if 0 < size < 64 && (raw >> ((size - 1) as u64)) & 1 == 1 {
        (raw | !low_mask(size)) as i64
    } else {
        raw as i64
    }
}

/// The lowest `size` bits of the two's-complement form of `value`.
pub open spec fn truncate_signed(value: i64, size: nat) -> u64 {
    (value as u64) & low_mask(size)
}

/// A signed value fits `size` bits when cutting it down to them loses nothing.
pub open spec fn signed_fits(value: i64, size: nat) -> bool {
    sign_extend(truncate_signed(value, size), size) == value
}

pub fn mask(n: u64) -> (m: u64)
    ensures
        m == low_mask(n as nat),
{
    if n >= 64 {
        u64::MAX
    } else {
        assert((1u64 << n) >= 1) by (bit_vector)
            requires
                n < 64,
        ;
        (1u64 << n) - 1
    }
}

pub fn extract(data: u64, off: u64, size: u64) -> (raw: u64)
    ensures
        raw == extract_bits(data, off as nat, size as nat),
{
    if off >= 64 {
        0
    } else {
        (data >> off) & mask(size)
    }
}

pub fn place(raw: u64, off: u64) -> (word: u64)
    ensures
        word == place_bits(raw, off as nat),
{
    if off >= 64 {
        0
    } else {
        raw << off
    }
}

pub fn sign_extend_raw(raw: u64, size: u64) -> (value: i64)
    ensures
        value == sign_extend(raw, size as nat),
{
    if 0 < size && size < 64 && (raw >> (size - 1)) & 1 == 1 {
        #[verifier::truncate]
        ((raw | !mask(size)) as i64)
    } else {
        #[verifier::truncate]
        (raw as i64)
    }
}

pub fn truncate_signed_value(value: i64, size: u64) -> (raw: u64)
    ensures
        raw == truncate_signed(value, size as nat),
{
    let wide: u64 = #[verifier::truncate]
    (value as u64);
    wide & mask(size)
}

/// A lower mask lies inside every higher one.
pub proof fn lemma_low_mask_nested(a: nat, b: nat)
    requires
        a <= b,
    ensures
        low_mask(a) & low_mask(b) == low_mask(a),
{
    if b >= 64 {
        let x: u64 = low_mask(a);
        assert(x & 0xffff_ffff_ffff_ffffu64 == x) by (bit_vector);
    } else {
        let x: u64 = a as u64;
        let y: u64 = b as u64;
        assert((((1u64 << x) - 1) as u64) & (((1u64 << y) - 1) as u64) == ((1u64 << x) - 1) as u64)
            by (bit_vector)
            requires
                x <= y,
                y < 64,
        ;
    }
}

/// Putting back the bits that were taken out of a range gives that range of
/// the word.
pub proof fn lemma_place_extract(data: u64, off: nat, size: nat)
    requires
        off + size <= 64,
    ensures
        place_bits(extract_bits(data, off, size), off) == data & field_mask(off, size),
        extract_bits(data, off, size) & low_mask(size) == extract_bits(data, off, size),
        extract_bits(data, off, size) <= low_mask(size),
{
    let ms: u64 = low_mask(size);
    let mo: u64 = low_mask(off);
    let mt: u64 = low_mask(off + size);
    let o: u64 = off as u64;
    let s: u64 = size as u64;
    if off >= 64 {
        assert(size == 0);
        assert(data & (mt & !mt) == 0) by (bit_vector);
        assert(0u64 & ms == 0) by (bit_vector);
    } else {
        assert((((data >> o) & ms) << o) == data & (mt & !mo)) by (bit_vector)
            requires
                o < 64,
                o + s <= 64,
                ms == (if s >= 64 { 0xffff_ffff_ffff_ffffu64 } else { ((1u64 << s) - 1) as u64 }),
                mo == ((1u64 << o) - 1) as u64,
                mt == (if o + s >= 64 { 0xffff_ffff_ffff_ffffu64 } else { ((1u64 << (o + s)) - 1) as u64 }),
        ;
        let e: u64 = (data >> o) & ms;
        assert(e & ms == e) by (bit_vector)
            requires
                e == (data >> o) & ms,
        ;
        assert(e <= ms) by (bit_vector)
            requires
                e == (data >> o) & ms,
        ;
    }
}

/// Two ranges that touch make up the range that spans both.
pub proof fn lemma_field_mask_join(data: u64, off: nat, w1: nat, w2: nat)
    ensures
        (data & field_mask(off, w1)) | (data & field_mask(off + w1, w2)) == data & field_mask(
            off,
            w1 + w2,
        ),
{
    let x: u64 = low_mask(off);
    let y: u64 = low_mask(off + w1);
    let z: u64 = low_mask(off + w1 + w2);
    lemma_low_mask_nested(off, off + w1);
    lemma_low_mask_nested(off + w1, off + w1 + w2);
    assert((data & (y & !x)) | (data & (z & !y)) == data & (z & !x)) by (bit_vector)
        requires
            x & y == x,
            y & z == y,
    ;
}

/// An empty range holds no bit.
pub proof fn lemma_field_mask_empty(data: u64, off: nat)
    ensures
        data & field_mask(off, 0) == 0,
{
    let x: u64 = low_mask(off);
    assert(data & (x & !x) == 0) by (bit_vector);
}

/// Cutting a sign-extended value down to its width gives the bits it was
/// extended from, so every sign-extended value fits its width.
pub proof fn lemma_truncate_sign_extend(raw: u64, size: nat)
    requires
        raw & low_mask(size) == raw,
    ensures
        truncate_signed(sign_extend(raw, size), size) == raw,
        signed_fits(sign_extend(raw, size), size),
{
    let m: u64 = low_mask(size);
    let wide: u64 = raw | !m;
    assert(((wide as i64) as u64) == wide) by (bit_vector);
    assert(((raw as i64) as u64) == raw) by (bit_vector);
    assert((raw | !m) & m == raw) by (bit_vector)
        requires
            raw & m == raw,
    ;
}

} // verus!
