//! Generation engine for memory-mapped register accessors.
//!
//! Given a device model in the CMSIS-SVD style (peripherals holding
//! registers, registers holding bitfields), this library computes
//! everything a code generator needs to emit type-safe accessors for the
//! hardware: a padded memory layout per peripheral, a bit-level codec per
//! field, the snapshot-read / staged-write access protocol per register,
//! and the link symbols that bind each peripheral instance to its base
//! address.

use vstd::prelude::*;

pub mod access;
pub mod codec;
pub mod device;
pub mod layout;
pub mod model;
pub mod names;
pub mod register;
pub mod report;

verus! {

/// Fatal conditions of the generation engine and of the generated
/// accessors.
#[derive(Clone, Copy, Debug, PartialEq, Eq, Structural)]
pub enum GenError {
    /// A field's bit width is zero or exceeds 64 bits.
    UnsupportedBitWidth,
    /// A hardware read produced a field value outside the field's
    /// enumerated value domain.
    UnmappedEnumValue,
}

} // verus!
