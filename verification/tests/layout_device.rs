//! Peripheral layout, register plans, device assembly and the linker
//! report.

use svd_mmap::device::{gen_device, gen_periph};
use svd_mmap::codec::FieldType;
use svd_mmap::layout::{peripheral_layout, LayoutSlot};
use svd_mmap::model::{Access, BitRange, Device, Field, Peripheral, Register};
use svd_mmap::names::{
    field_accessor_name, field_setter_name, link_symbol, register_getter_name,
    register_type_name, register_updater_name,
};
use svd_mmap::register::register_plan;
use svd_mmap::report::{gen_link_mem, hex8};

fn flag_field(name: &str, description: &str, offset: u32) -> Field {
    Field {
        name: name.to_owned(),
        description: Some(description.to_owned()),
        bit_range: BitRange { offset, width: 1 },
        access: Some(Access::ReadWrite),
        enumerated_values: None,
    }
}

fn bare_register(name: &str, description: &str, offset: u32, fields: Option<Vec<Field>>) -> Register {
    Register {
        name: name.to_owned(),
        description: description.to_owned(),
        fields,
        access: None,
        size: Some(32),
        reset_mask: None,
        reset_value: None,
        address_offset: offset,
    }
}

#[test]
fn test_gen_periph() {
    let spe = flag_field("SPE", "SPI enable", 6);
    let txe = flag_field("TXE", "Transmit enable", 7);
    let cr = bare_register("CR", "Control register", 0x00000000, Some(vec![spe, txe]));

    let foo = flag_field("FOO", "Foo enable", 0);
    let bar = flag_field("BAR", "Bar enable", 1);
    let baz = bare_register("BAZ", "Baz register", 0x00000004, Some(vec![foo, bar]));

    let periph = Peripheral {
        name: "Test2".to_owned(),
        group_name: Some("Test".to_owned()),
        description: None,
        base_address: 0xE000E000,
        interrupt: None,
        registers: Some(vec![cr, baz]),
        derived_from: None,
    };

    let plan = gen_periph(&periph).unwrap();
    assert_eq!(plan.ty_name, "Test");
    assert_eq!(plan.layout.len(), 2);
    assert!(matches!(
        &plan.layout[0],
        LayoutSlot::Reg { field_name, ty_name, offset: 0 }
            if field_name == "cr" && ty_name == "Cr"
    ));
    assert!(matches!(
        &plan.layout[1],
        LayoutSlot::Reg { field_name, ty_name, offset: 4 }
            if field_name == "baz" && ty_name == "Baz"
    ));
    assert_eq!(plan.registers.len(), 2);
    assert_eq!(plan.registers[0].ty_name, "Cr");
    assert_eq!(plan.registers[1].ty_name, "Baz");
    assert_eq!(plan.registers[0].fields[0].name, "spe");
    assert_eq!(plan.registers[0].fields[1].name, "txe");
    assert_eq!(plan.registers[1].fields[0].name, "foo");
    assert_eq!(plan.registers[1].fields[1].name, "bar");
}

#[test]
fn test_gen_reg_field_impl() {
    let spe = flag_field("SPE", "SPI enable", 6);
    let txe = flag_field("TXE", "Transmit enable", 7);
    let freq = Field {
        name: "FREQ".to_owned(),
        description: Some("Frequency".to_owned()),
        bit_range: BitRange { offset: 8, width: 4 },
        access: Some(Access::ReadWrite),
        enumerated_values: None,
    };
    let reg = bare_register("CR", "Control register", 0x00000000, Some(vec![spe, txe, freq]));

    let plan = register_plan(&reg).unwrap();
    assert_eq!(plan.ty_name, "Cr");
    assert_eq!(plan.getter_name.as_deref(), Some("CrGet"));
    assert_eq!(plan.updater_name.as_deref(), Some("CrUpdate"));
    assert!(plan.enum_defs.is_empty());
    assert_eq!(plan.fields.len(), 3);
    assert_eq!(plan.fields[2].name, "freq");
    assert_eq!(plan.fields[2].setter_name, "set_freq");
    assert_eq!(plan.fields[2].offset, 8);
    assert_eq!(plan.fields[2].width, 4);
    assert_eq!(plan.fields[2].ty, FieldType::Uint8);
    assert!(plan.fields[2].readable && plan.fields[2].writable);
}

#[test]
fn test_field_gen_get() {
    let register = bare_register(
        "CR",
        "Control register",
        0x00,
        Some(vec![flag_field("RX", "Receive enabled", 11)]),
    );
    let plan = register_plan(&register).unwrap();
    assert_eq!(plan.getter_name.as_deref(), Some("CrGet"));
    let codec = &plan.fields[0];
    assert_eq!(codec.name, "rx");
    assert_eq!(codec.offset, 11);
    assert_eq!(codec.width, 1);
    assert_eq!(codec.mask, 1);
    assert_eq!(codec.ty, FieldType::Boolean);
    assert!(codec.readable);
}

#[test]
fn test_field_gen_update() {
    let register = bare_register(
        "CR",
        "Control register",
        0x00,
        Some(vec![flag_field("RX", "Receive enabled", 11)]),
    );
    let plan = register_plan(&register).unwrap();
    assert_eq!(plan.updater_name.as_deref(), Some("CrUpdate"));
    let codec = &plan.fields[0];
    assert_eq!(codec.setter_name, "set_rx");
    assert_eq!(codec.offset, 11);
    assert_eq!(codec.width, 1);
    assert!(codec.writable);
}

#[test]
fn access_modes_gate_the_generated_surfaces() {
    let ro = Register { access: Some(Access::ReadOnly), ..bare_register("SR", "Status", 0, None) };
    let plan = register_plan(&ro).unwrap();
    assert_eq!(plan.getter_name.as_deref(), Some("SrGet"));
    assert_eq!(plan.updater_name, None);

    let wo = Register { access: Some(Access::WriteOnly), ..bare_register("DR", "Data", 0, None) };
    let plan = register_plan(&wo).unwrap();
    assert_eq!(plan.getter_name, None);
    assert_eq!(plan.updater_name.as_deref(), Some("DrUpdate"));
}

#[test]
fn layout_inserts_exact_padding_between_registers() {
    let regs = vec![
        bare_register("CR", "Control", 0x00, None),
        bare_register("SR", "Status", 0x08, None),
    ];
    let plan = peripheral_layout(&regs);
    assert_eq!(plan.len(), 3);
    assert!(matches!(
        &plan[0],
        LayoutSlot::Reg { field_name, offset: 0, .. } if field_name == "cr"
    ));
    assert!(matches!(&plan[1], LayoutSlot::Pad { index: 0, bytes: 4 }));
    assert!(matches!(
        &plan[2],
        LayoutSlot::Reg { field_name, offset: 8, .. } if field_name == "sr"
    ));
    // Total footprint: 4 + 4 + 4 = 0x0C bytes.
    let total: u32 = plan
        .iter()
        .map(|s| match s {
            LayoutSlot::Reg { .. } => 4,
            LayoutSlot::Pad { bytes, .. } => *bytes,
        })
        .sum();
    assert_eq!(total, 0x0C);
}

#[test]
fn layout_drops_the_overlapping_register() {
    let regs = vec![
        bare_register("CR", "Control", 0x00, None),
        bare_register("CR2", "Shadow", 0x00, None),
    ];
    let plan = peripheral_layout(&regs);
    assert_eq!(plan.len(), 1);
    assert!(matches!(
        &plan[0],
        LayoutSlot::Reg { field_name, offset: 0, .. } if field_name == "cr"
    ));
}

#[test]
fn layout_sorts_registers_by_ascending_offset() {
    let regs = vec![
        bare_register("SR", "Status", 0x04, None),
        bare_register("CR", "Control", 0x00, None),
    ];
    let plan = peripheral_layout(&regs);
    assert_eq!(plan.len(), 2);
    assert!(matches!(&plan[0], LayoutSlot::Reg { offset: 0, .. }));
    assert!(matches!(&plan[1], LayoutSlot::Reg { offset: 4, .. }));
}

fn two_peripheral_device() -> Device {
    let p1 = Peripheral {
        name: "P1".to_owned(),
        group_name: None,
        description: None,
        base_address: 0x4000_0000,
        interrupt: None,
        registers: Some(vec![bare_register("CR", "Control", 0, None)]),
        derived_from: None,
    };
    let p2 = Peripheral {
        name: "P2".to_owned(),
        group_name: None,
        description: None,
        base_address: 0x5000_0000,
        interrupt: None,
        registers: None,
        derived_from: Some("P1".to_owned()),
    };
    Device { name: "Chip".to_owned(), peripherals: vec![p1, p2] }
}

#[test]
fn derived_peripheral_gets_only_a_link_to_the_base_type() {
    let device = two_peripheral_device();
    let plan = gen_device(&device).unwrap();
    assert_eq!(plan.module_name, "chip");
    // One module: the derived peripheral produces no plan of its own.
    assert_eq!(plan.peripherals.len(), 1);
    let module = &plan.peripherals[0];
    assert_eq!(module.module_name, "p1");
    assert_eq!(module.plan.ty_name, "P1");
    assert_eq!(module.links.len(), 2);
    assert_eq!(module.links[0].symbol, "mmap_chip_p1");
    assert_eq!(module.links[0].instance_name, "P1");
    assert_eq!(module.links[0].ty_name, "P1");
    assert_eq!(module.links[0].base_address, 0x4000_0000);
    // The alias binds to its own address, reusing the base's type.
    assert_eq!(module.links[1].symbol, "mmap_chip_p2");
    assert_eq!(module.links[1].instance_name, "P2");
    assert_eq!(module.links[1].ty_name, "P1");
    assert_eq!(module.links[1].base_address, 0x5000_0000);
}

#[test]
fn group_name_becomes_the_module_name_once() {
    let base = |name: &str, group: Option<&str>, addr: u32| Peripheral {
        name: name.to_owned(),
        group_name: group.map(|g| g.to_owned()),
        description: None,
        base_address: addr,
        interrupt: None,
        registers: None,
        derived_from: None,
    };
    let mut p2 = base("SPI2", Some("SPI"), 0x4000_1000);
    p2.derived_from = Some("SPI1".to_owned());
    let device = Device {
        name: "Chip".to_owned(),
        peripherals: vec![base("SPI1", Some("SPI"), 0x4000_0000), p2],
    };
    let plan = gen_device(&device).unwrap();
    assert_eq!(plan.peripherals.len(), 1);
    // SPI1 has a dependent and a free group name: the module takes it.
    assert_eq!(plan.peripherals[0].module_name, "spi");
    assert_eq!(plan.peripherals[0].plan.ty_name, "Spi");
}

#[test]
fn unsupported_width_fails_the_whole_device() {
    let bad = Field {
        name: "WIDE".to_owned(),
        description: None,
        bit_range: BitRange { offset: 0, width: 65 },
        access: None,
        enumerated_values: None,
    };
    let p = Peripheral {
        name: "P1".to_owned(),
        group_name: None,
        description: None,
        base_address: 0,
        interrupt: None,
        registers: Some(vec![bare_register("CR", "Control", 0, Some(vec![bad]))]),
        derived_from: None,
    };
    let device = Device { name: "Chip".to_owned(), peripherals: vec![p] };
    assert_eq!(gen_device(&device), Err(svd_mmap::GenError::UnsupportedBitWidth));
}

#[test]
fn test_gen_link_mem() {
    let device = two_peripheral_device();
    let lines = gen_link_mem(&device);
    assert_eq!(lines.len(), 2);
    assert_eq!(lines[0], "mmap_chip_p1 = 0x40000000");
    assert_eq!(lines[1], "mmap_chip_p2 = 0x50000000");
}

#[test]
fn hex_digits_are_eight_lowercase_nibbles() {
    assert_eq!(hex8(0xE000E000), "e000e000");
    assert_eq!(hex8(0), "00000000");
    assert_eq!(hex8(0xDEADBEEF), "deadbeef");
    assert_eq!(hex8(0x1A2B3C4D), "1a2b3c4d");
}

#[test]
fn generated_names_are_case_normalized() {
    assert_eq!(register_type_name("CR"), "Cr");
    assert_eq!(register_getter_name("CR"), "CrGet");
    assert_eq!(register_updater_name("CR"), "CrUpdate");
    assert_eq!(field_accessor_name("TXE"), "txe");
    assert_eq!(field_setter_name("RX"), "set_rx");
    assert_eq!(link_symbol("STM32L4x6", "Test2"), "mmap_stm32l4x6_test2");
}

#[test]
fn layout_pads_before_the_first_register() {
    let regs = vec![bare_register("CR", "Control", 0x08, None)];
    let plan = peripheral_layout(&regs);
    assert_eq!(plan.len(), 2);
    assert!(matches!(&plan[0], LayoutSlot::Pad { index: 0, bytes: 8 }));
    assert!(matches!(&plan[1], LayoutSlot::Reg { offset: 8, .. }));
}

#[test]
fn peripheral_without_registers_has_empty_plan() {
    let periph = Peripheral {
        name: "Rcc".to_owned(),
        group_name: None,
        description: None,
        base_address: 0x4002_1000,
        interrupt: None,
        registers: None,
        derived_from: None,
    };
    let plan = gen_periph(&periph).unwrap();
    assert_eq!(plan.ty_name, "Rcc");
    assert!(plan.layout.is_empty());
    assert!(plan.registers.is_empty());
}

#[test]
fn instance_names_are_constant_case() {
    let periph = Peripheral {
        name: "Test2".to_owned(),
        group_name: None,
        description: None,
        base_address: 0xE000_E000,
        interrupt: None,
        registers: None,
        derived_from: None,
    };
    let device = Device { name: "Chip".to_owned(), peripherals: vec![periph] };
    let plan = gen_device(&device).unwrap();
    assert_eq!(plan.peripherals[0].links[0].instance_name, "TEST2");
    assert_eq!(plan.peripherals[0].links[0].symbol, "mmap_chip_test2");
}
