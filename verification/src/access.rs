//! The register access protocol: the semantics of the generated snapshot
//! reader and staged writer.
//!
//! Every generated register is one 32-bit hardware word. The snapshot
//! reader caches the word of a single hardware read and decodes every
//! field from the cache. The staged writer accumulates field updates in a
//! value word and a mask of the bits explicitly set, and merges them into
//! at most one hardware write when the stage is committed: none at all if
//! no field was ever set, and otherwise a single word that keeps every
//! untouched, unreserved bit of the current hardware state — or zeroes
//! them, if the writer was opened ignoring that state.
//!
//! The writer never touches hardware itself: committing yields the word
//! to write, if any, and the caller performs the one volatile store.

use vstd::prelude::*;

use crate::GenError;
use crate::model::EnumeratedValue;
use crate::codec::lookup_enum_index;

verus! {

/// The bit every generated register word reserves: it reads back as zero
/// and is always written as zero when unstaged state is preserved.
pub const RESERVED_BIT_MASK: u32 = 1;

/// The mask covering the `width` lowest bits of a 32-bit register word.
pub open spec fn reg_mask_of(width: u32) -> u32
    recommends
        1 <= width <= 32,
{
    if width >= 32 {
        0xffff_ffffu32
    } else {
        ((1u32 << width) - 1) as u32
    }
}

/// The value of a field of shape (`offset`, `width`) inside the register
/// word `v`.
pub open spec fn reg_decode_of(v: u32, offset: u32, width: u32) -> u32 {
    (v >> offset) & reg_mask_of(width)
}

/// Computes the mask literal of a field of `width` bits of a register
/// word.
pub fn reg_mask(width: u32) -> (r: u32)
    requires
        1 <= width <= 32,
    ensures
        r == reg_mask_of(width),
{
    if width == 32 {
        u32::MAX
    } else {
        proof {
            assert(1u32 << width >= 1) by (bit_vector)
                requires
                    width < 32,
            ;
        }
        (1u32 << width) - 1
    }
}

/// An immutable register snapshot: the raw word of exactly one hardware
/// read, from which any number of fields decode without further hardware
/// access.
#[derive(Clone, Copy, Debug, PartialEq, Eq, Structural)]
pub struct RegSnapshot {
    /// The cached raw register word.
    pub value: u32,
}

impl RegSnapshot {
    /// Caches the word one hardware read returned.
    pub fn new(hw_value: u32) -> (r: Self)
        ensures
            r.value == hw_value,
    {
        RegSnapshot { value: hw_value }
    }

    /// Decodes a multi-bit field from the cached word.
    pub fn field(&self, offset: u32, width: u32) -> (r: u32)
        requires
            1 <= width,
            offset + width <= 32,
        ensures
            r == reg_decode_of(self.value, offset, width),
            r <= reg_mask_of(width),
    {
        let v = self.value;
        let r = (v >> offset) & reg_mask(width);
        proof {
            assert((v >> offset) & reg_mask_of(width) <= reg_mask_of(width)) by (bit_vector);
        }
        r
    }

    /// Decodes a one-bit field from the cached word as a boolean.
    pub fn field_bool(&self, offset: u32) -> (r: bool)
        requires
            offset < 32,
        ensures
            r == (reg_decode_of(self.value, offset, 1) != 0),
    {
        self.field(offset, 1) != 0
    }

    /// Decodes an enumerated field from the cached word: the index of the
    /// variant carrying the decoded value, or the unmapped-value error
    /// exactly when the hardware state lies outside the enumeration.
    pub fn field_enum(&self, offset: u32, width: u32, values: &Vec<EnumeratedValue>) -> (r:
        Result<usize, GenError>)
        requires
            1 <= width,
            offset + width <= 32,
        ensures
            match r {
                Ok(i) => i < values@.len() && values@[i as int].value == reg_decode_of(
                    self.value,
                    offset,
                    width,
                ) && (forall|j: int|
                    0 <= j < i ==> values@[j].value != reg_decode_of(self.value, offset, width)),
                Err(e) => e == GenError::UnmappedEnumValue && (forall|j: int|
                    0 <= j < values@.len() ==> values@[j].value != reg_decode_of(
                        self.value,
                        offset,
                        width,
                    )),
            },
    {
        let raw = self.field(offset, width);
        lookup_enum_index(values, raw)
    }
}

/// A staged register update: accumulated new bits, the mask of bits
/// explicitly set so far, and whether committing ignores the current
/// hardware state instead of preserving the untouched bits.
#[derive(Clone, Copy, Debug, PartialEq, Eq, Structural)]
pub struct RegUpdate {
    /// The accumulated new bits, all inside `mask`.
    pub value: u32,
    /// The bits explicitly set in this stage.
    pub mask: u32,
    /// True when unstaged bits are written as zero rather than preserved
    /// from the current hardware state.
    pub write_only: bool,
}

/// A staged writer that no field setter has touched yet.
pub open spec fn fresh_update(write_only: bool) -> RegUpdate {
    RegUpdate { value: 0, mask: 0, write_only }
}

/// The staged writer's invariant: every accumulated value bit lies inside
/// the accumulated mask.
pub open spec fn update_inv(u: RegUpdate) -> bool {
    u.value & !u.mask == 0
}

/// The staged writer after one field-set call of shape (`offset`,
/// `width`) with new value `x`: the field's bits are replaced in the
/// value word and added to the mask.
pub open spec fn staged_set(u: RegUpdate, offset: u32, width: u32, x: u32) -> RegUpdate {
    RegUpdate {
        value: (u.value & !(reg_mask_of(width) << offset)) | ((x & reg_mask_of(width)) << offset),
        mask: u.mask | (reg_mask_of(width) << offset),
        write_only: u.write_only,
    }
}

/// The state commit starts from: zero for a writer that ignores hardware
/// state, else the current hardware word.
pub open spec fn commit_base_of(u: RegUpdate, current: u32) -> u32 {
    if u.write_only {
        0u32
    } else {
        current
    }
}

/// The single word a non-empty commit writes: the staged bits, merged
/// with the base state stripped of the reserved bit and of every staged
/// bit.
pub open spec fn commit_word_of(u: RegUpdate, current: u32) -> u32 {
    u.value | (commit_base_of(u, current) & !RESERVED_BIT_MASK & !u.mask)
}

/// What committing a staged writer does against the current hardware word
/// `current`: nothing when no field was ever set, else exactly one write
/// of the merged word.
pub open spec fn commit_of(u: RegUpdate, current: u32) -> Option<u32> {
    if u.mask == 0 {
        None
    } else {
        Some(commit_word_of(u, current))
    }
}

impl RegUpdate {
    /// Opens a staged update that preserves untouched bits from the
    /// current hardware state at commit time.
    pub fn new() -> (r: Self)
        ensures
            r == fresh_update(false),
            update_inv(r),
    {
        proof {
            assert(0u32 & !0u32 == 0u32) by (bit_vector);
        }
        RegUpdate { value: 0, mask: 0, write_only: false }
    }

    /// Opens a staged update that treats every untouched bit as zero,
    /// for hardware whose current state must not or cannot be read back.
    pub fn new_ignoring_state() -> (r: Self)
        ensures
            r == fresh_update(true),
            update_inv(r),
    {
        proof {
            assert(0u32 & !0u32 == 0u32) by (bit_vector);
        }
        RegUpdate { value: 0, mask: 0, write_only: true }
    }

    /// Stages a new value for a field of shape (`offset`, `width`). No
    /// hardware is touched: the field's bits are accumulated for the one
    /// commit write.
    pub fn set_field(&mut self, offset: u32, width: u32, new_value: u32)
        requires
            1 <= width,
            offset + width <= 32,
            update_inv(*old(self)),
        ensures
            *final(self) == staged_set(*old(self), offset, width, new_value),
            update_inv(*final(self)),
    {
        let fmask = reg_mask(width) << offset;
        let v = self.value;
        let m = self.mask;
        let w = reg_mask(width);
        self.value = (v & !fmask) | ((new_value & w) << offset);
        self.mask = m | fmask;
        proof {
            assert(((v & !(w << offset)) | ((new_value & w) << offset)) & !(m | (w << offset))
                == 0) by (bit_vector)
                requires
                    v & !m == 0u32,
            ;
        }
    }

    /// Stages a new value for a one-bit boolean field.
    pub fn set_field_bool(&mut self, offset: u32, new_value: bool)
        requires
            offset < 32,
            update_inv(*old(self)),
        ensures
            *final(self) == staged_set(
                *old(self),
                offset,
                1,
                if new_value {
                    1u32
                } else {
                    0u32
                },
            ),
            update_inv(*final(self)),
    {
        self.set_field(offset, 1, if new_value { 1 } else { 0 })
    }

    /// Closes the stage against the current hardware word: the word the
    /// single hardware write must store, or nothing at all when no field
    /// was ever set. The caller performs the write; for a writer that
    /// ignores hardware state, `current` is never consulted and the
    /// caller need not read hardware at all.
    pub fn commit(&self, current: u32) -> (r: Option<u32>)
        ensures
            r == commit_of(*self, current),
            r is None <==> self.mask == 0,
    {
        if self.mask != 0 {
            let base = if self.write_only {
                0
            } else {
                current
            };
            Some(self.value | (base & !RESERVED_BIT_MASK & !self.mask))
        } else {
            None
        }
    }
}

/// Law: committing a staged writer that no field setter ever touched
/// performs no hardware write, whatever mode it was opened in and
/// whatever the hardware holds.
pub proof fn lemma_untouched_stage_commits_nothing(write_only: bool, current: u32)
    ensures
        commit_of(fresh_update(write_only), current) is None,
{
}

/// Law: a field staged before commit reads back from the committed word
/// exactly as staged, masked to the field's width.
pub proof fn lemma_committed_field_reads_back(
    u: RegUpdate,
    current: u32,
    offset: u32,
    width: u32,
    x: u32,
)
    requires
        update_inv(u),
        1 <= width,
        offset + width <= 32,
        x <= reg_mask_of(width),
    ensures
        reg_decode_of(
            commit_word_of(staged_set(u, offset, width, x), current),
            offset,
            width,
        ) == x,
{
    let uv = u.value;
    let um = u.mask;
    let base = commit_base_of(staged_set(u, offset, width, x), current);
    assert(((((uv & !(reg_mask_of(width) << offset)) | ((x & reg_mask_of(width)) << offset)) | (
    base & !RESERVED_BIT_MASK & !(um | (reg_mask_of(width) << offset)))) >> offset) & reg_mask_of(
        width,
    ) == x) by (bit_vector)
        requires
            uv & !um == 0u32,
            1 <= width,
            offset + width <= 32,
            x <= reg_mask_of(width),
    ;
}

/// Law: committing a state-preserving stage leaves every field it never
/// staged, and that covers no reserved bit, exactly as the current
/// hardware word holds it.
pub proof fn lemma_commit_preserves_untouched_field(
    u: RegUpdate,
    current: u32,
    offset: u32,
    width: u32,
)
    requires
        update_inv(u),
        !u.write_only,
        1 <= width,
        offset + width <= 32,
        u.mask & (reg_mask_of(width) << offset) == 0,
        RESERVED_BIT_MASK & (reg_mask_of(width) << offset) == 0,
    ensures
        reg_decode_of(commit_word_of(u, current), offset, width) == reg_decode_of(
            current,
            offset,
            width,
        ),
{
    let uv = u.value;
    let um = u.mask;
    assert(((uv | (current & !RESERVED_BIT_MASK & !um)) >> offset) & reg_mask_of(width) == (
    current >> offset) & reg_mask_of(width)) by (bit_vector)
        requires
            uv & !um == 0u32,
            1 <= width,
            offset + width <= 32,
            um & (reg_mask_of(width) << offset) == 0u32,
            RESERVED_BIT_MASK & (reg_mask_of(width) << offset) == 0u32,
    ;
}

/// Law: a writer opened ignoring hardware state commits the staged bits
/// alone — the committed word is the accumulated value, every untouched
/// bit zero, whatever the hardware holds.
pub proof fn lemma_ignoring_state_commit_is_staged_value(u: RegUpdate, c1: u32, c2: u32)
    requires
        u.write_only,
    ensures
        commit_of(u, c1) == commit_of(u, c2),
        u.mask != 0 ==> commit_of(u, c1) == Some(u.value),
{
    let uv = u.value;
    let um = u.mask;
    assert(uv | (0u32 & !RESERVED_BIT_MASK & !um) == uv) by (bit_vector);
}

} // verus!
