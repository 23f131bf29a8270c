//! The snapshot-read / staged-write register access protocol.

use svd_mmap::access::{RegSnapshot, RegUpdate};
use svd_mmap::codec::{decode_field, encode_field, field_mask, shifted_mask};
use svd_mmap::model::EnumeratedValue;
use svd_mmap::GenError;

fn parity_values() -> Vec<EnumeratedValue> {
    vec![
        EnumeratedValue { name: "NONE".to_owned(), description: None, value: 0 },
        EnumeratedValue { name: "EVEN".to_owned(), description: None, value: 2 },
        EnumeratedValue { name: "ODD".to_owned(), description: None, value: 3 },
    ]
}

#[test]
fn field_gen_masks_are_literals_of_the_width() {
    assert_eq!(field_mask(1), 0x1);
    assert_eq!(field_mask(4), 0xF);
    assert_eq!(field_mask(32), 0xFFFF_FFFF);
    assert_eq!(field_mask(64), u64::MAX);
    assert_eq!(shifted_mask(4, 4), 0xF0);
}

#[test]
fn decode_recovers_every_encoded_in_range_value() {
    for x in 0..16u64 {
        let raw = encode_field(x, 11, 4);
        assert_eq!(decode_field(raw, 11, 4), x);
    }
    let raw = encode_field(0xDEAD, 16, 16);
    assert_eq!(decode_field(raw, 16, 16), 0xDEAD);
    let raw = encode_field(u64::MAX, 0, 64);
    assert_eq!(decode_field(raw, 0, 64), u64::MAX);
}

#[test]
fn snapshot_caches_one_word_and_decodes_fields_from_it() {
    let snap = RegSnapshot::new(1 << 11);
    assert!(snap.field_bool(11));
    assert!(!snap.field_bool(10));
    assert_eq!(snap.field(8, 8), 0x08);

    let snap = RegSnapshot::new(0xA5);
    assert_eq!(snap.field(0, 4), 0x5);
    assert_eq!(snap.field(4, 4), 0xA);
}

#[test]
fn snapshot_decodes_enumerated_fields_and_flags_unmapped_values() {
    let values = parity_values();
    let snap = RegSnapshot::new(2 << 2);
    assert_eq!(snap.field_enum(2, 3, &values), Ok(1));
    let snap = RegSnapshot::new(1 << 2);
    assert_eq!(snap.field_enum(2, 3, &values), Err(GenError::UnmappedEnumValue));
}

#[test]
fn setter_accumulates_value_and_mask_without_touching_hardware() {
    let mut upd = RegUpdate::new();
    upd.set_field_bool(11, true);
    assert_eq!(upd.value, 1 << 11);
    assert_eq!(upd.mask, 1 << 11);
    upd.set_field_bool(11, false);
    assert_eq!(upd.value, 0);
    assert_eq!(upd.mask, 1 << 11);
}

#[test]
fn empty_stage_commits_no_hardware_write() {
    let upd = RegUpdate::new();
    assert_eq!(upd.commit(0xDEAD_BEEF), None);
    let upd = RegUpdate::new_ignoring_state();
    assert_eq!(upd.commit(0xDEAD_BEEF), None);
}

#[test]
fn commit_replaces_staged_field_and_preserves_sibling() {
    // Fields A (bits 0-3) and B (bits 4-7), hardware holding 0xA5:
    // staging only A := 0x3 must leave B untouched.
    let mut upd = RegUpdate::new();
    upd.set_field(0, 4, 0x3);
    assert_eq!(upd.commit(0xA5), Some(0xA3));
}

#[test]
fn ignoring_state_commit_zeroes_untouched_fields() {
    let mut upd = RegUpdate::new_ignoring_state();
    upd.set_field(0, 4, 0x3);
    assert_eq!(upd.commit(0xA5), Some(0x03));
}

#[test]
fn commit_strips_the_reserved_bit_from_preserved_state() {
    // Bit 0 is reserved: preserved state never carries it back.
    let mut upd = RegUpdate::new();
    upd.set_field(4, 4, 0xC);
    assert_eq!(upd.commit(0xFF), Some(0xCE));
}

#[test]
fn staged_value_is_masked_to_the_field_width() {
    let mut upd = RegUpdate::new_ignoring_state();
    upd.set_field(4, 4, 0x1F3);
    assert_eq!(upd.commit(0), Some(0x30));
}
