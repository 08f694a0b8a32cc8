use ccomidi::command::CommandType;
use ccomidi::encode::{encode_row, CcMessage};

/// Tiny helper so test bodies aren't cluttered with `[a, 0, 0, 0]` noise.
fn f(a: u8, b: u8, c: u8, d: u8) -> [u8; 4] {
    [a, b, c, d]
}

#[test]
fn volume_emits_cc07() {
    let e = encode_row(CommandType::Volume, &f(100, 0, 0, 0));
    assert_eq!(
        e.as_slice(),
        &[CcMessage { cc: 0x07, value: 100 }]
    );
}

#[test]
fn pan_emits_cc0a() {
    let e = encode_row(CommandType::Pan, &f(64, 0, 0, 0));
    assert_eq!(
        e.as_slice(),
        &[CcMessage { cc: 0x0A, value: 64 }]
    );
}

#[test]
fn mod_emits_cc01() {
    let e = encode_row(CommandType::Mod, &f(77, 0, 0, 0));
    assert_eq!(e.as_slice(), &[CcMessage { cc: 0x01, value: 77 }]);
}

#[test]
fn lfo_speed_emits_cc15() {
    let e = encode_row(CommandType::LfoSpeed, &f(12, 0, 0, 0));
    assert_eq!(e.as_slice(), &[CcMessage { cc: 0x15, value: 12 }]);
}

#[test]
fn xcmd_iecv_opcode_then_value() {
    let e = encode_row(CommandType::XcmdIecv, &f(42, 0, 0, 0));
    assert_eq!(
        e.as_slice(),
        &[
            CcMessage { cc: 0x1E, value: 0x08 },
            CcMessage { cc: 0x1D, value: 42 },
        ]
    );
}

#[test]
fn xcmd_iecl_differs_from_iecv_only_in_opcode() {
    let iecv = encode_row(CommandType::XcmdIecv, &f(7, 0, 0, 0));
    let iecl = encode_row(CommandType::XcmdIecl, &f(7, 0, 0, 0));
    assert_ne!(iecv.messages[0], iecl.messages[0]);
    assert_eq!(iecv.messages[1], iecl.messages[1]);
}

#[test]
fn mem_acc_0c_sequence_and_bank_commit() {
    let e = encode_row(CommandType::MemAcc0C, &f(1, 2, 3, 4));
    assert_eq!(
        e.as_slice(),
        &[
            CcMessage { cc: 0x0D, value: 1 },
            CcMessage { cc: 0x0E, value: 2 },
            CcMessage { cc: 0x0F, value: 3 },
            CcMessage { cc: 0x0C, value: 4 }, // 0C-bank commit
        ]
    );
}

#[test]
fn mem_acc_10_only_differs_in_bank_commit() {
    let a = encode_row(CommandType::MemAcc0C, &f(1, 2, 3, 4));
    let b = encode_row(CommandType::MemAcc10, &f(1, 2, 3, 4));
    assert_eq!(a.messages[0..3], b.messages[0..3]);
    assert_ne!(a.messages[3], b.messages[3]);
    assert_eq!(b.messages[3], CcMessage { cc: 0x10, value: 4 });
}

#[test]
fn none_emits_nothing() {
    let e = encode_row(CommandType::NoCommand, &f(99, 99, 99, 99));
    assert!(e.is_empty());
    assert_eq!(e.as_slice(), &[]);
}

#[test]
fn a_used_field_shows_in_the_messages() {
    let base = encode_row(CommandType::MemAcc10, &f(1, 2, 3, 4));
    assert_ne!(base, encode_row(CommandType::MemAcc10, &f(9, 2, 3, 4)));
    assert_ne!(base, encode_row(CommandType::MemAcc10, &f(1, 9, 3, 4)));
    assert_ne!(base, encode_row(CommandType::MemAcc10, &f(1, 2, 9, 4)));
    assert_ne!(base, encode_row(CommandType::MemAcc10, &f(1, 2, 3, 9)));
    let tune = encode_row(CommandType::Tune, &f(1, 2, 3, 4));
    assert_ne!(tune, encode_row(CommandType::Tune, &f(2, 2, 3, 4)));
    assert_eq!(tune, encode_row(CommandType::Tune, &f(1, 9, 9, 9)));
}
