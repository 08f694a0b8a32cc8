use ccomidi::command::{CommandType, FIXED_ROW_COUNT, MAX_ROWS};

#[test]
fn fixed_rows_are_pinned() {
    assert_eq!(CommandType::fixed_for_row(0), Some(CommandType::Volume));
    assert_eq!(CommandType::fixed_for_row(1), Some(CommandType::Pan));
    assert_eq!(CommandType::fixed_for_row(2), Some(CommandType::Mod));
    assert_eq!(CommandType::fixed_for_row(3), Some(CommandType::LfoSpeed));
}

#[test]
fn dynamic_rows_are_not_fixed() {
    for row in FIXED_ROW_COUNT..MAX_ROWS {
        assert!(CommandType::fixed_for_row(row).is_none());
    }
}

#[test]
fn roundtrip_through_u8() {
    // For each variant we care about, the discriminant → enum → discriminant
    // round-trip should be lossless.
    for v in 0u8..=14 {
        let ct = CommandType::from_u8(v).expect("valid");
        assert_eq!(ct as u8, v);
    }
}

#[test]
fn unknown_discriminant_is_none() {
    assert!(CommandType::from_u8(99).is_none());
}
