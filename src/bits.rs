//! Bit-level layout arithmetic of bitfields inside a register value.
use vstd::prelude::*;

verus! {

/// The right-aligned mask of a field `width` bits wide: `(1 << width) - 1`.
pub open spec fn mask_spec(width: u32) -> u64 {
    if width >= 64 {
        0xffff_ffff_ffff_ffffu64
    } else {
        ((1u64 << width) - 1) as u64
    }
}

/// The value of the field at `offset`, `width` bits wide, inside `raw`.
pub open spec fn extract_spec(raw: u64, offset: u32, width: u32) -> u64 {
    (raw >> offset) & mask_spec(width)
}

/// `raw` with the field at `offset`, `width` bits wide, replaced by the low bits of `value`.
pub open spec fn insert_spec(raw: u64, offset: u32, width: u32, value: u64) -> u64 {
    (raw & !(mask_spec(width) << offset)) | ((value & mask_spec(width)) << offset)
}

/// Whether a field at `offset`, `width` bits wide, lies inside a 64-bit value.
pub open spec fn field_fits_word(offset: u32, width: u32) -> bool {
    0 < width && offset + width <= 64
}

/// Mask of a field `width` bits wide, aligned to bit 0 whatever its offset.
pub fn field_mask(width: u32) -> (r: u64)
    requires
        0 < width <= 64,
    ensures
        r == mask_spec(width),
{
    if width >= 64 {
        0xffff_ffff_ffff_ffffu64
    } else {
        assert(1u64 << width >= 1) by (bit_vector)
            requires
                width < 64,
        ;
        (1u64 << width) - 1
    }
}

/// Reads the field at `offset`, `width` bits wide, out of the register value `raw`.
pub fn get_field(raw: u64, offset: u32, width: u32) -> (r: u64)
    requires
        field_fits_word(offset, width),
    ensures
        r == extract_spec(raw, offset, width),
{
    let m = field_mask(width);
    (raw >> offset) & m
}

/// Writes the low `width` bits of `value` into the field at `offset` of `raw`.
pub fn set_field(raw: u64, offset: u32, width: u32, value: u64) -> (r: u64)
    requires
        field_fits_word(offset, width),
    ensures
        r == insert_spec(raw, offset, width, value),
{
    let m = field_mask(width);
    (raw & !(m << offset)) | ((value & m) << offset)
}

/// Setting a field and reading it back yields the low `width` bits of the
/// value written, and every bit outside the field keeps its old value.
pub proof fn lemma_set_then_get(raw: u64, offset: u32, width: u32, value: u64)
    requires
        field_fits_word(offset, width),
    ensures
        extract_spec(insert_spec(raw, offset, width, value), offset, width) == value & mask_spec(
            width,
        ),
        forall|b: u64|
            b < 64 && !(offset <= b < offset + width) ==> #[trigger] ((insert_spec(
                raw,
                offset,
                width,
                value,
            ) >> b) & 1) == (raw >> b) & 1,
{
    let m = mask_spec(width);
    if width >= 64 {
        assert(m == 0xffff_ffff_ffff_ffffu64);
        assert(offset == 0);
        assert((((raw & !(0xffff_ffff_ffff_ffffu64 << offset)) | ((value
            & 0xffff_ffff_ffff_ffffu64) << offset)) >> offset) & 0xffff_ffff_ffff_ffffu64 == value
            & 0xffff_ffff_ffff_ffffu64) by (bit_vector)
            requires
                offset == 0,
        ;
        assert forall|b: u64| b < 64 && !(offset <= b < offset + width) implies #[trigger] ((
        insert_spec(raw, offset, width, value) >> b) & 1) == (raw >> b) & 1 by {}
    } else {
        assert(m == ((1u64 << width) - 1) as u64);
        assert(((((raw & !((((1u64 << width) - 1) as u64) << offset)) | ((value & (((1u64
            << width) - 1) as u64)) << offset)) >> offset) & (((1u64 << width) - 1) as u64))
            == value & (((1u64 << width) - 1) as u64)) by (bit_vector)
            requires
                0 < width < 64,
                offset + width <= 64,
        ;
        assert forall|b: u64| b < 64 && !(offset <= b < offset + width) implies #[trigger] ((
        insert_spec(raw, offset, width, value) >> b) & 1) == (raw >> b) & 1 by {
            assert(((((raw & !((((1u64 << width) - 1) as u64) << offset)) | ((value & (((1u64
                << width) - 1) as u64)) << offset)) >> b) & 1) == (raw >> b) & 1) by (bit_vector)
                requires
                    0 < width < 64,
                    offset + width <= 64,
                    b < 64,
                    !(offset <= b < offset + width),
            ;
        }
    }
}

/// Reading a field yields only the bits of `raw` inside it, shifted down to bit 0:
/// bit `b` of the result is bit `offset + b` of `raw` for `b < width`, and zero above.
pub proof fn lemma_get_is_field_bits(raw: u64, offset: u32, width: u32)
    requires
        field_fits_word(offset, width),
    ensures
        forall|b: u64|
            b < 64 ==> #[trigger] ((extract_spec(raw, offset, width) >> b) & 1) == (if b
                < width {
                (raw >> (offset + b) as u64) & 1
            } else {
                0u64
            }),
{
    assert forall|b: u64| b < 64 implies #[trigger] ((extract_spec(raw, offset, width) >> b) & 1)
        == (if b < width {
        (raw >> (offset + b) as u64) & 1
    } else {
        0u64
    }) by {
        if width >= 64 {
            assert(offset == 0);
            assert(((raw >> 0u32) & 0xffff_ffff_ffff_ffffu64) >> b & 1 == (raw >> (0u64 + b)
                as u64) & 1) by (bit_vector)
                requires
                    b < 64,
            ;
        } else {
            assert(((((raw >> offset) & (((1u64 << width) - 1) as u64)) >> b) & 1) == (if b
                < width {
                (raw >> (offset + b) as u64) & 1
            } else {
                0u64
            })) by (bit_vector)
                requires
                    0 < width < 64,
                    offset + width <= 64,
                    b < 64,
            ;
        }
    }
}

} // verus!
