//! The bitfield codec: per-field storage type selection, mask and shift
//! arithmetic, and enumerated value lookup.
//!
//! A field of width `w` at bit offset `o` occupies bits `o .. o + w` of
//! its register. Decoding shifts the register word right by `o` and masks
//! the lowest `w` bits; encoding masks a new value to `w` bits and shifts
//! it left by `o`. The mask of width `w` is `(1 << w) - 1`, a literal
//! computed once at generation time.

use vstd::prelude::*;

use crate::GenError;
use crate::model::{EnumeratedValue, Field};
use crate::names::{pascal_case_of, to_pascal_case};

verus! {

/// The mask covering the `width` lowest bits of a 64-bit word.
pub open spec fn mask_of(width: u64) -> u64
    recommends
        1 <= width <= 64,
{
    if width >= 64 {
        0xffff_ffff_ffff_ffffu64
    } else {
        ((1u64 << width) - 1) as u64
    }
}

/// The value of a field of shape (`offset`, `width`) inside the raw
/// register word `v`.
pub open spec fn decode_of(v: u64, offset: u64, width: u64) -> u64 {
    (v >> offset) & mask_of(width)
}

/// The contribution of a new field value `x` to a register word: `x`
/// masked to the field's width and shifted to the field's position.
pub open spec fn encode_of(x: u64, offset: u64, width: u64) -> u64 {
    (x & mask_of(width)) << offset
}

/// Computes the generation-time mask literal for a field of `width` bits.
pub fn field_mask(width: u64) -> (r: u64)
    requires
        1 <= width <= 64,
    ensures
        r == mask_of(width),
{
    if width == 64 {
        u64::MAX
    } else {
        proof {
            assert(1u64 << width >= 1) by (bit_vector)
                requires
                    width < 64,
            ;
        }
        (1u64 << width) - 1
    }
}

/// Computes the mask a field of shape (`offset`, `width`) covers inside
/// its register word.
pub fn shifted_mask(offset: u64, width: u64) -> (r: u64)
    requires
        1 <= width <= 64,
        offset + width <= 64,
    ensures
        r == mask_of(width) << offset,
{
    field_mask(width) << offset
}

/// Extracts the value of a field of shape (`offset`, `width`) from the
/// raw register word `v`.
pub fn decode_field(v: u64, offset: u64, width: u64) -> (r: u64)
    requires
        1 <= width <= 64,
        offset + width <= 64,
    ensures
        r == decode_of(v, offset, width),
        r <= mask_of(width),
{
    let r = (v >> offset) & field_mask(width);
    proof {
        assert((v >> offset) & mask_of(width) <= mask_of(width)) by (bit_vector);
    }
    r
}

/// Encodes a new field value `x` into its position inside a register
/// word.
pub fn encode_field(x: u64, offset: u64, width: u64) -> (r: u64)
    requires
        1 <= width <= 64,
        offset + width <= 64,
    ensures
        r == encode_of(x, offset, width),
{
    (x & field_mask(width)) << offset
}

/// Law: for every field shape and every value `x` that fits the field's
/// width, decoding the encoded raw word recovers `x` exactly, whether the
/// raw word was produced by masking before the shift or after it.
pub proof fn lemma_field_round_trip(x: u64, offset: u64, width: u64)
    by (bit_vector)
    requires
        1 <= width <= 64,
        offset + width <= 64,
        x <= mask_of(width),
    ensures
        decode_of(encode_of(x, offset, width), offset, width) == x,
        decode_of((x << offset) & (mask_of(width) << offset), offset, width) == x,
{
}

/// The storage type a field of a given bit width decodes to.
#[derive(Clone, Copy, Debug, PartialEq, Eq, Structural)]
pub enum StorageType {
    Boolean,
    Uint8,
    Uint16,
    Uint32,
    Uint64,
}

/// Selects the storage type of a field from its bit width alone: one bit
/// is a boolean, wider fields take the narrowest unsigned type that holds
/// them, and a width of zero or of more than 64 bits is a fatal error.
pub fn storage_type(width: u32) -> (r: Result<StorageType, GenError>)
    ensures
        width == 1 ==> r == Ok::<StorageType, GenError>(StorageType::Boolean),
        2 <= width <= 8 ==> r == Ok::<StorageType, GenError>(StorageType::Uint8),
        9 <= width <= 16 ==> r == Ok::<StorageType, GenError>(StorageType::Uint16),
        17 <= width <= 32 ==> r == Ok::<StorageType, GenError>(StorageType::Uint32),
        33 <= width <= 64 ==> r == Ok::<StorageType, GenError>(StorageType::Uint64),
        width == 0 || width > 64 ==> r == Err::<StorageType, GenError>(
            GenError::UnsupportedBitWidth,
        ),
{
    if width == 1 {
        Ok(StorageType::Boolean)
    } else if 2 <= width && width <= 8 {
        Ok(StorageType::Uint8)
    } else if 9 <= width && width <= 16 {
        Ok(StorageType::Uint16)
    } else if 17 <= width && width <= 32 {
        Ok(StorageType::Uint32)
    } else if 33 <= width && width <= 64 {
        Ok(StorageType::Uint64)
    } else {
        Err(GenError::UnsupportedBitWidth)
    }
}

/// The type of the value a generated field accessor returns: a plain
/// storage type, or the field's named variant type when the field is
/// enumerated.
#[derive(Debug, PartialEq, Eq)]
pub enum FieldType {
    Boolean,
    Uint8,
    Uint16,
    Uint32,
    Uint64,
    /// An enumerated field returns the named variant type instead of the
    /// raw integer.
    Enumerated(String),
}

/// The model name the variant type of an enumerated field is named after:
/// the enumeration's own name if given, else the field's name.
pub open spec fn enum_base_name_of(f: Field) -> Seq<char>
    recommends
        f.enumerated_values is Some,
{
    if f.enumerated_values->0.name is Some {
        f.enumerated_values->0.name->0@
    } else {
        f.name@
    }
}

/// Whether a field's bit width is one the codec supports.
pub open spec fn width_supported(width: u32) -> bool {
    1 <= width <= 64
}

/// Whether `t` is the type the codec selects for the field `f`: the
/// PascalCase variant type name when the field is enumerated, else the
/// storage type of the field's width.
pub open spec fn selected_field_type(f: Field, t: FieldType) -> bool {
    if f.enumerated_values is Some {
        t matches FieldType::Enumerated(n) && n@ == pascal_case_of(enum_base_name_of(f))
    } else {
        let w = f.bit_range.width;
        &&& (w == 1 ==> t == FieldType::Boolean)
        &&& (2 <= w <= 8 ==> t == FieldType::Uint8)
        &&& (9 <= w <= 16 ==> t == FieldType::Uint16)
        &&& (17 <= w <= 32 ==> t == FieldType::Uint32)
        &&& (33 <= w <= 64 ==> t == FieldType::Uint64)
    }
}

/// Selects the type a field's accessors traffic in: the PascalCase
/// variant type name for an enumerated field, else the storage type of
/// the field's width. Fails exactly on an unsupported bit width.
pub fn field_type(f: &Field) -> (r: Result<FieldType, GenError>)
    ensures
        r is Ok <==> width_supported(f.bit_range.width),
        r is Err ==> r == Err::<FieldType, GenError>(GenError::UnsupportedBitWidth),
        r matches Ok(t) ==> selected_field_type(*f, t),
{
    if !(1 <= f.bit_range.width && f.bit_range.width <= 64) {
        return Err(GenError::UnsupportedBitWidth);
    }
    match f.enumerated_values.as_ref() {
        Some(ev) => {
            let base = match ev.name.as_ref() {
                Some(n) => n.as_str(),
                None => f.name.as_str(),
            };
            Ok(FieldType::Enumerated(to_pascal_case(base)))
        },
        None => {
            match storage_type(f.bit_range.width) {
                Ok(StorageType::Boolean) => Ok(FieldType::Boolean),
                Ok(StorageType::Uint8) => Ok(FieldType::Uint8),
                Ok(StorageType::Uint16) => Ok(FieldType::Uint16),
                Ok(StorageType::Uint32) => Ok(FieldType::Uint32),
                Ok(StorageType::Uint64) => Ok(FieldType::Uint64),
                Err(e) => Err(e),
            }
        },
    }
}

/// Looks up the raw field value `raw` in an enumerated value domain.
/// Returns the index of the first variant carrying that value, or the
/// unmapped-value error exactly when no variant carries it.
pub fn lookup_enum_index(values: &Vec<EnumeratedValue>, raw: u32) -> (r: Result<
    usize,
    GenError,
>)
    ensures
        match r {
            Ok(i) => i < values@.len() && values@[i as int].value == raw && (forall|j: int|
                0 <= j < i ==> values@[j].value != raw),
            Err(e) => e == GenError::UnmappedEnumValue && (forall|j: int|
                0 <= j < values@.len() ==> values@[j].value != raw),
        },
{
    let mut i: usize = 0;
    while i < values.len()
        invariant
            i <= values@.len(),
            forall|j: int| 0 <= j < i ==> values@[j].value != raw,
        decreases values@.len() - i,
    {
        if values[i].value == raw {
            return Ok(i);
        }
        i = i + 1;
    }
    Err(GenError::UnmappedEnumValue)
}

} // verus!
