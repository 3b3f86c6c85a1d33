//! Mask, read and write arithmetic on a 64-bit raw register value.

use vstd::prelude::*;

verus! {

/// `(1 << width) - 1`, with a 64-bit wide field giving all ones.
pub open spec fn low_mask(width: u64) -> u64 {
    if width >= 64 {
        0xffff_ffff_ffff_ffffu64
    } else {
        ((1u64 << width) - 1) as u64
    }
}

/// The mask of a field: `((1 << width) - 1) << offset`.
pub open spec fn mask_of(offset: u64, width: u64) -> u64 {
    low_mask(width) << offset
}

/// A field position lies inside a register of `bits` bits: it ends at the
/// register's width at the latest.
pub open spec fn fits(offset: u64, width: u64, bits: u64) -> bool {
    &&& bits <= 64
    &&& offset + width <= bits
}

/// The value of the field at `offset` with mask `mask`: `(raw & mask) >> offset`.
pub open spec fn field_value(raw: u64, mask: u64, offset: u64) -> u64 {
    (raw & mask) >> offset
}

/// `raw` with the field at `offset` with mask `mask` replaced by `value`,
/// truncated to the field: `(raw & !mask) | ((value & (mask >> offset)) << offset)`.
pub open spec fn merged(raw: u64, mask: u64, offset: u64, value: u64) -> u64 {
    (raw & !mask) | shifted(mask, offset, value)
}

/// `value` truncated to the field and moved to its place:
/// `(value & (mask >> offset)) << offset`.
pub open spec fn shifted(mask: u64, offset: u64, value: u64) -> u64 {
    (value & (mask >> offset)) << offset
}

/// Computes the mask of a field.
pub fn field_mask(offset: u64, width: u64) -> (m: u64)
    requires
        offset <= 64,
        offset + width <= 64,
    ensures
        m == mask_of(offset, width),
{
    if width == 0 {
        assert(mask_of(offset, 0) == 0) by (bit_vector)
            requires
                offset <= 64,
        ;
        return 0;
    }
    let low: u64 = if width >= 64 {
        0xffff_ffff_ffff_ffffu64
    } else {
        assert(1u64 << width >= 1) by (bit_vector)
            requires
                width < 64,
        ;
        (1u64 << width) - 1
    };
    low << offset
}

/// Reads the field at `offset` with mask `mask` out of `raw`.
pub fn read_field(raw: u64, mask: u64, offset: u64) -> (r: u64)
    requires
        offset <= 64,
    ensures
        r == field_value(raw, mask, offset),
{
    if offset >= 64 {
        assert((raw & mask) >> 64u64 == 0) by (bit_vector);
        return 0;
    }
    (raw & mask) >> offset
}

/// Writes `value`, truncated to the field, into the field at `offset` with
/// mask `mask` of `raw`.
pub fn write_field(raw: u64, mask: u64, offset: u64, value: u64) -> (r: u64)
    requires
        offset <= 64,
    ensures
        r == merged(raw, mask, offset, value),
{
    if offset >= 64 {
        assert((raw & !mask) | ((value & (mask >> 64u64)) << 64u64) == raw & !mask) by (bit_vector);
        return raw & !mask;
    }
    (raw & !mask) | ((value & (mask >> offset)) << offset)
}

/// Reading a field back after writing it gives the written value truncated
/// to the field's width.
pub proof fn lemma_read_after_write(raw: u64, offset: u64, width: u64, value: u64)
    requires
        offset <= 64,
        offset + width <= 64,
    ensures
        field_value(merged(raw, mask_of(offset, width), offset, value), mask_of(offset, width), offset)
            == value & low_mask(width),
{
    if width >= 64 {
        assert(offset == 0);
        assert(field_value(merged(raw, mask_of(0, 64), 0, value), mask_of(0, 64), 0) == value & 0xffff_ffff_ffff_ffffu64) by (bit_vector);
    } else {
        let low = ((1u64 << width) - 1) as u64;
        assert(((((raw & !(low << offset)) | ((value & ((low << offset) >> offset)) << offset)) & (low << offset)) >> offset) == value & low) by (bit_vector)
            requires
                offset <= 64,
                width < 64,
                offset + width <= 64,
                low == ((1u64 << width) - 1) as u64,
        ;
    }
}

/// Writing one field leaves every field whose mask is disjoint from it
/// unchanged.
pub proof fn lemma_write_keeps_disjoint(
    raw: u64,
    offset: u64,
    width: u64,
    value: u64,
    other_offset: u64,
    other_width: u64,
)
    requires
        offset <= 64,
        offset + width <= 64,
        other_offset <= 64,
        other_offset + other_width <= 64,
        mask_of(offset, width) & mask_of(other_offset, other_width) == 0,
    ensures
        field_value(
            merged(raw, mask_of(offset, width), offset, value),
            mask_of(other_offset, other_width),
            other_offset,
        ) == field_value(raw, mask_of(other_offset, other_width), other_offset),
{
    let m = mask_of(offset, width);
    let n = mask_of(other_offset, other_width);
    lemma_shifted_within_mask(offset, width, value);
    let s = shifted(m, offset, value);
    assert(((raw & !m) | s) & n == raw & n) by (bit_vector)
        requires
            m & n == 0,
            s & !m == 0,
    ;
}

/// The shifted value of a write has no bit outside the field's mask.
pub proof fn lemma_shifted_within_mask(offset: u64, width: u64, value: u64)
    requires
        offset <= 64,
        offset + width <= 64,
    ensures
        shifted(mask_of(offset, width), offset, value) & !mask_of(offset, width) == 0,
{
    let low = low_mask(width);
    assert(((value & ((low << offset) >> offset)) << offset) & !(low << offset) == 0) by (bit_vector);
}

/// A write inside a register of `bits` bits keeps a value that fits those
/// bits within them.
pub proof fn lemma_write_stays_in_width(raw: u64, offset: u64, width: u64, value: u64, bits: u64)
    requires
        fits(offset, width, bits),
        raw <= low_mask(bits),
    ensures
        merged(raw, mask_of(offset, width), offset, value) <= low_mask(bits),
{
    let m = mask_of(offset, width);
    let full = low_mask(bits);
    lemma_shifted_within_mask(offset, width, value);
    lemma_mask_within_width(offset, width, bits);
    let s = shifted(m, offset, value);
    assert((raw & !m) | s <= full) by (bit_vector)
        requires
            raw <= full,
            s & !m == 0,
            m & !full == 0,
            full == 0xffff_ffff_ffff_ffffu64 || full == ((1u64 << bits) - 1) as u64,
            bits <= 64,
    ;
}

/// A field inside a register of `bits` bits has no mask bit above them.
pub proof fn lemma_mask_within_width(offset: u64, width: u64, bits: u64)
    requires
        fits(offset, width, bits),
    ensures
        mask_of(offset, width) & !low_mask(bits) == 0,
        low_mask(bits) == 0xffff_ffff_ffff_ffffu64 || low_mask(bits) == ((1u64 << bits) - 1) as u64,
{
    if bits >= 64 {
        let m = mask_of(offset, width);
        assert(m & !0xffff_ffff_ffff_ffffu64 == 0) by (bit_vector);
    } else if width >= 64 {
    } else {
        let low = ((1u64 << width) - 1) as u64;
        let full = ((1u64 << bits) - 1) as u64;
        assert((low << offset) & !full == 0) by (bit_vector)
            requires
                low == ((1u64 << width) - 1) as u64,
                full == ((1u64 << bits) - 1) as u64,
                offset + width <= bits,
                bits < 64,
        ;
    }
}

/// A one-bit field at `n` has the mask `1 << n`.
pub proof fn lemma_single_bit_mask(n: u64)
    requires
        n < 64,
    ensures
        mask_of(n, 1) == 1u64 << n,
{
    assert(((((1u64 << 1u64) - 1) as u64) << n) == 1u64 << n) by (bit_vector);
}

} // verus!
