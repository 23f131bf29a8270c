//! Field type selection and per-field codec generation.

use svd_mmap::codec::{field_type, lookup_enum_index, storage_type, FieldType, StorageType};
use svd_mmap::model::{Access, BitRange, EnumeratedValue, EnumeratedValues, Field};
use svd_mmap::register::field_codec;
use svd_mmap::GenError;

fn rx_field(width: u32) -> Field {
    Field {
        name: "RX".to_owned(),
        description: Some("Receive enabled".to_owned()),
        bit_range: BitRange { offset: 11, width },
        access: Some(Access::ReadWrite),
        enumerated_values: None,
    }
}

fn parity_values() -> Vec<EnumeratedValue> {
    vec![
        EnumeratedValue { name: "NONE".to_owned(), description: None, value: 0 },
        EnumeratedValue { name: "EVEN".to_owned(), description: None, value: 2 },
        EnumeratedValue { name: "ODD".to_owned(), description: None, value: 3 },
    ]
}

#[test]
fn test_field_gen_type1() {
    let field = rx_field(1);
    assert_eq!(field_type(&field), Ok(FieldType::Boolean));
}

#[test]
fn test_field_gen_type2() {
    let field = rx_field(2);
    assert_eq!(field_type(&field), Ok(FieldType::Uint8));
}

#[test]
fn test_field_gen_type3() {
    let field = Field {
        name: "PARITY".to_owned(),
        description: Some("UART Parity".to_owned()),
        bit_range: BitRange { offset: 2, width: 3 },
        access: Some(Access::ReadWrite),
        enumerated_values: Some(EnumeratedValues {
            name: Some("PARITY".to_owned()),
            usage: None,
            values: parity_values(),
        }),
    };
    assert_eq!(field_type(&field), Ok(FieldType::Enumerated("Parity".to_owned())));
}

#[test]
fn test_field_gen_type4() {
    let field = rx_field(9);
    assert_eq!(field_type(&field), Ok(FieldType::Uint16));
}

#[test]
fn test_field_gen_type_def1() {
    let field = Field {
        name: "PARITY".to_owned(),
        description: Some("UART Parity".to_owned()),
        bit_range: BitRange { offset: 2, width: 3 },
        access: Some(Access::ReadWrite),
        enumerated_values: Some(EnumeratedValues {
            name: Some("PARITY".to_owned()),
            usage: None,
            values: parity_values(),
        }),
    };
    let def = svd_mmap::register::enum_def(&field).unwrap();
    assert_eq!(def.ty_name, "Parity");
    assert_eq!(def.variants.len(), 3);
    assert_eq!(def.variants[0].name, "None");
    assert_eq!(def.variants[0].value, 0);
    assert_eq!(def.variants[1].name, "Even");
    assert_eq!(def.variants[1].value, 2);
    assert_eq!(def.variants[2].name, "Odd");
    assert_eq!(def.variants[2].value, 3);
}

#[test]
fn test_field_gen_type_def2() {
    let field = Field {
        name: "UART_PARITY".to_owned(),
        description: Some("UART Parity".to_owned()),
        bit_range: BitRange { offset: 2, width: 3 },
        access: Some(Access::ReadWrite),
        enumerated_values: Some(EnumeratedValues {
            name: None,
            usage: None,
            values: parity_values(),
        }),
    };
    let def = svd_mmap::register::enum_def(&field).unwrap();
    assert_eq!(def.ty_name, "UartParity");
    assert_eq!(def.variants.len(), 3);
    assert_eq!(def.variants[0].name, "None");
    assert_eq!(def.variants[1].name, "Even");
    assert_eq!(def.variants[2].name, "Odd");
}

#[test]
fn storage_type_covers_every_width_band() {
    assert_eq!(storage_type(1), Ok(StorageType::Boolean));
    assert_eq!(storage_type(2), Ok(StorageType::Uint8));
    assert_eq!(storage_type(8), Ok(StorageType::Uint8));
    assert_eq!(storage_type(9), Ok(StorageType::Uint16));
    assert_eq!(storage_type(16), Ok(StorageType::Uint16));
    assert_eq!(storage_type(17), Ok(StorageType::Uint32));
    assert_eq!(storage_type(32), Ok(StorageType::Uint32));
    assert_eq!(storage_type(33), Ok(StorageType::Uint64));
    assert_eq!(storage_type(64), Ok(StorageType::Uint64));
}

#[test]
fn storage_type_rejects_zero_and_oversized_widths() {
    assert_eq!(storage_type(0), Err(GenError::UnsupportedBitWidth));
    assert_eq!(storage_type(65), Err(GenError::UnsupportedBitWidth));
    assert_eq!(storage_type(1000), Err(GenError::UnsupportedBitWidth));
}

#[test]
fn field_codec_carries_shape_mask_and_capabilities() {
    let field = Field {
        name: "FREQ".to_owned(),
        description: Some("Frequency".to_owned()),
        bit_range: BitRange { offset: 8, width: 4 },
        access: Some(Access::ReadOnly),
        enumerated_values: None,
    };
    let codec = field_codec(&field, None).unwrap();
    assert_eq!(codec.name, "freq");
    assert_eq!(codec.setter_name, "set_freq");
    assert_eq!(codec.ty, FieldType::Uint8);
    assert_eq!(codec.offset, 8);
    assert_eq!(codec.width, 4);
    assert_eq!(codec.mask, 0xF);
    assert!(codec.readable);
    assert!(!codec.writable);
}

#[test]
fn field_codec_rejects_unsupported_width() {
    let field = rx_field(0);
    assert_eq!(field_codec(&field, None), Err(GenError::UnsupportedBitWidth));
    let field = rx_field(65);
    assert_eq!(field_codec(&field, None), Err(GenError::UnsupportedBitWidth));
}

#[test]
fn enum_lookup_finds_first_matching_variant() {
    let values = parity_values();
    assert_eq!(lookup_enum_index(&values, 0), Ok(0));
    assert_eq!(lookup_enum_index(&values, 2), Ok(1));
    assert_eq!(lookup_enum_index(&values, 3), Ok(2));
    assert_eq!(lookup_enum_index(&values, 1), Err(GenError::UnmappedEnumValue));
}
