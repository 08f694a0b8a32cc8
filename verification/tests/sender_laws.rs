use ccomidi::command::CommandType;
use ccomidi::encode::{encode_row, CcMessage, EncodedCommand};
use ccomidi::model::Emission;
use ccomidi::sender::{RecordingSink, RowState, SenderCore};

fn cc(timing: u32, channel: u8, cc: u8, value: u8) -> Emission {
    Emission::Cc { timing, channel, cc, value }
}

fn tick(core: &mut SenderCore, playing: bool) -> Vec<Emission> {
    let mut sink = RecordingSink::new();
    core.tick(playing, &mut sink);
    sink.events
}

/// Program change, volume and a memory access, on channel 4.
fn busy_core() -> SenderCore {
    let mut core = SenderCore::new();
    core.set_channel(4);
    core.set_program(9);
    core.set_program_enabled(true);
    core.set_row_enabled(0, true);
    core.set_row_field(0, 0, 100);
    core.set_row_enabled(15, true);
    core.set_row_cmd(15, CommandType::XcmdIecl);
    core.set_row_field(15, 0, 8);
    core
}

fn busy_snapshot(timing: u32, channel: u8) -> Vec<Emission> {
    vec![
        Emission::Program { timing, channel, program: 9 },
        cc(timing, channel, 0x07, 100),
        cc(timing, channel, 0x1E, 9),
        cc(timing, channel, 0x1D, 8),
    ]
}

#[test]
fn snapshot_is_complete_at_any_offset() {
    let mut core = busy_core();
    let mut sink = RecordingSink::new();
    core.emit_snapshot(&mut sink, 31);
    assert_eq!(sink.events, busy_snapshot(31, 4));
    // Nothing is left, and a further snapshot is complete again.
    core.emit_diff(&mut sink, 32);
    assert_eq!(sink.events.len(), 4);
    core.emit_snapshot(&mut sink, 33);
    assert_eq!(sink.events[4..], busy_snapshot(33, 4)[..]);
}

#[test]
fn events_go_behind_those_received_before() {
    let mut core = busy_core();
    let mut sink = RecordingSink::new();
    sink.events.push(cc(1, 2, 3, 4));
    core.tick(true, &mut sink);
    assert_eq!(sink.events[0], cc(1, 2, 3, 4));
    assert_eq!(sink.events[1..], busy_snapshot(0, 4)[..]);
}

#[test]
fn changes_made_while_stopped_are_part_of_the_next_start() {
    let mut core = busy_core();
    assert_eq!(tick(&mut core, true), busy_snapshot(0, 4));
    assert_eq!(tick(&mut core, false), vec![]);
    core.set_channel(5);
    assert_eq!(tick(&mut core, false), vec![]);
    assert_eq!(tick(&mut core, true), busy_snapshot(0, 5));
    assert_eq!(tick(&mut core, true), vec![]);
}

#[test]
fn channel_change_and_back_re_emits_twice() {
    let mut core = busy_core();
    tick(&mut core, true);
    core.set_channel(7);
    assert_eq!(tick(&mut core, true), busy_snapshot(0, 7));
    core.set_channel(4);
    assert_eq!(tick(&mut core, true), busy_snapshot(0, 4));
}

#[test]
fn channel_change_undone_before_the_block_is_silent() {
    let mut core = busy_core();
    tick(&mut core, true);
    core.set_channel(7);
    core.set_channel(4);
    assert_eq!(tick(&mut core, true), vec![]);
}

#[test]
fn unused_fields_are_silent() {
    let mut core = busy_core();
    tick(&mut core, true);
    core.set_row_field(0, 1, 55);
    core.set_row_field(15, 3, 55);
    assert_eq!(tick(&mut core, true), vec![]);
    core.set_row_field(15, 0, 9);
    assert_eq!(tick(&mut core, true), vec![cc(0, 4, 0x1E, 9), cc(0, 4, 0x1D, 9)]);
}

#[test]
fn disabled_settings_are_silent() {
    let mut core = busy_core();
    tick(&mut core, true);
    core.set_row_field(1, 0, 55);
    core.set_row_cmd(8, CommandType::Tune);
    core.set_row_field(8, 0, 55);
    assert_eq!(tick(&mut core, true), vec![]);
}

#[test]
fn an_enabled_row_without_a_command_emits_nothing() {
    let mut core = SenderCore::new();
    core.set_row_enabled(8, true);
    assert_eq!(tick(&mut core, true), vec![]);
    core.set_row_cmd(8, CommandType::LfoDelay);
    assert_eq!(tick(&mut core, true), vec![cc(0, 0, 0x1A, 0)]);
}

#[test]
fn a_new_program_is_the_only_event() {
    let mut core = busy_core();
    tick(&mut core, true);
    core.set_program(10);
    assert_eq!(
        tick(&mut core, true),
        vec![Emission::Program { timing: 0, channel: 4, program: 10 }]
    );
}

#[test]
fn setters_ignore_what_is_out_of_range() {
    let mut core = SenderCore::new();
    core.set_row_enabled(16, true);
    core.set_row_cmd(16, CommandType::Tune);
    core.set_row_field(16, 0, 1);
    core.set_row_field(2, 4, 1);
    assert!(core.row(16).is_none());
    assert_eq!(core.resolved_cmd_for_row(16), CommandType::NoCommand);
    for row in 0..16 {
        assert_eq!(*core.row(row).unwrap(), RowState::default());
    }
}

#[test]
fn setters_keep_values_at_the_limits() {
    let mut core = SenderCore::default();
    core.set_channel(15);
    core.set_program(127);
    core.set_row_field(6, 3, 127);
    assert_eq!((core.channel(), core.program()), (15, 127));
    assert_eq!(core.row(6).unwrap().fields, [0, 0, 0, 127]);
    core.set_channel(16);
    core.set_program(128);
    core.set_row_field(6, 3, 128);
    assert_eq!((core.channel(), core.program()), (15, 127));
    assert_eq!(core.row(6).unwrap().fields, [0, 0, 0, 127]);
}

#[test]
fn a_clone_goes_its_own_way() {
    let mut core = busy_core();
    tick(&mut core, true);
    let mut copy = core.clone();
    copy.set_program(1);
    assert_eq!(core.program(), 9);
    assert_eq!(tick(&mut copy, true).len(), 1);
    assert_eq!(tick(&mut core, true), vec![]);
}

#[test]
fn encoded_commands_compare_by_messages() {
    let a = encode_row(CommandType::Pan, &[5, 1, 2, 3]);
    let b = encode_row(CommandType::Pan, &[5, 9, 9, 9]);
    assert_eq!(a, b);
    assert_ne!(a, encode_row(CommandType::Pan, &[6, 1, 2, 3]));
    assert_ne!(a, encode_row(CommandType::NoCommand, &[5, 1, 2, 3]));
    assert_eq!(encode_row(CommandType::NoCommand, &[5, 1, 2, 3]), EncodedCommand::default());
    assert_eq!(CcMessage::default(), CcMessage { cc: 0, value: 0 });
    assert!(!a.is_empty());
}

#[test]
fn every_single_controller_command() {
    let table = [
        (CommandType::Volume, 0x07),
        (CommandType::Pan, 0x0A),
        (CommandType::Mod, 0x01),
        (CommandType::LfoSpeed, 0x15),
        (CommandType::BendRange, 0x14),
        (CommandType::ModType, 0x16),
        (CommandType::Tune, 0x18),
        (CommandType::LfoDelay, 0x1A),
        (CommandType::Priority21, 0x21),
        (CommandType::Priority27, 0x27),
    ];
    for (cmd, cc) in table {
        assert_eq!(encode_row(cmd, &[77, 1, 2, 3]).as_slice(), &[CcMessage { cc, value: 77 }]);
    }
}

#[test]
fn fixed_commands_are_the_first_four() {
    for v in 0u8..=14 {
        assert_eq!(CommandType::from_u8(v).unwrap().is_fixed(), v < 4);
    }
    assert!(CommandType::from_u8(15).is_none());
    assert!(CommandType::fixed_for_row(usize::MAX).is_none());
}
