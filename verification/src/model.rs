//! The input device model: a device holds peripherals, a peripheral holds
//! registers, a register holds bitfields. The model is read-only input to
//! the generation engine; an external parser populates it.

use vstd::prelude::*;

verus! {

/// Access capability of a register, or of one field inside it.
#[derive(Clone, Copy, Debug, PartialEq, Eq, Structural)]
pub enum Access {
    ReadOnly,
    WriteOnly,
    ReadWrite,
}

/// The contiguous bit range a field occupies inside its register.
#[derive(Clone, Copy, Debug, PartialEq, Eq, Structural)]
pub struct BitRange {
    /// Index of the lowest bit of the field.
    pub offset: u32,
    /// Number of bits in the field.
    pub width: u32,
}

/// One named value of an enumerated field.
#[derive(Debug)]
pub struct EnumeratedValue {
    pub name: String,
    pub description: Option<String>,
    pub value: u32,
}

/// The enumerated value domain of a field.
#[derive(Debug)]
pub struct EnumeratedValues {
    /// Optional name of the variant type; the field's own name is used
    /// when absent.
    pub name: Option<String>,
    pub usage: Option<String>,
    pub values: Vec<EnumeratedValue>,
}

/// One bitfield of a register.
#[derive(Debug)]
pub struct Field {
    pub name: String,
    pub description: Option<String>,
    pub bit_range: BitRange,
    /// Overrides the register's access mode when present.
    pub access: Option<Access>,
    pub enumerated_values: Option<EnumeratedValues>,
}

/// One hardware register of a peripheral.
#[derive(Debug)]
pub struct Register {
    pub name: String,
    pub description: String,
    /// Byte offset of the register within the peripheral's block.
    pub address_offset: u32,
    /// Bit size of the register; 32 when absent.
    pub size: Option<u32>,
    pub access: Option<Access>,
    pub reset_value: Option<u32>,
    pub reset_mask: Option<u32>,
    pub fields: Option<Vec<Field>>,
}

/// An interrupt line a peripheral raises.
#[derive(Debug)]
pub struct Interrupt {
    pub name: String,
    pub description: Option<String>,
    pub value: u32,
}

/// One address-mapped hardware subsystem of a device.
#[derive(Debug)]
pub struct Peripheral {
    pub name: String,
    /// Peripherals of one kind share a group name.
    pub group_name: Option<String>,
    pub description: Option<String>,
    /// Absolute base address of the register block.
    pub base_address: u32,
    pub interrupt: Option<Interrupt>,
    pub registers: Option<Vec<Register>>,
    /// Name of the peripheral whose register layout this one reuses.
    pub derived_from: Option<String>,
}

/// The whole hardware description: a named collection of peripherals.
#[derive(Debug)]
pub struct Device {
    pub name: String,
    pub peripherals: Vec<Peripheral>,
}

} // verus!
