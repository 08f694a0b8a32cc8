use ccomidi::command::{CommandType, FIXED_ROW_COUNT, MAX_ROWS};
use ccomidi::model::Emission;
use ccomidi::params::{
    cmd_param_name, dynamic_row_label, field_param_name, fixed_row_label, value_param_name,
    AssignableCommand, CComidiParams, DynamicRowParams, FixedRowParams, DYN_ROWS, FIXED_ROWS,
};
use ccomidi::plugin::{retarget_channel, Block, BlockEvent, CComidiPlugin, NoteEvent};
use ccomidi::sender::RecordingSink;

#[test]
fn the_rows_are_those_of_the_sender() {
    assert_eq!(FIXED_ROWS, FIXED_ROW_COUNT);
    assert_eq!(FIXED_ROWS + DYN_ROWS, MAX_ROWS);
}

#[test]
fn assignable_commands_keep_their_names() {
    assert_eq!(CommandType::from(AssignableCommand::NoCommand), CommandType::NoCommand);
    assert_eq!(CommandType::from(AssignableCommand::BendRange), CommandType::BendRange);
    assert_eq!(CommandType::from(AssignableCommand::XcmdIecl), CommandType::XcmdIecl);
    assert_eq!(CommandType::from(AssignableCommand::MemAcc10), CommandType::MemAcc10);
    let cmd: CommandType = AssignableCommand::Priority27.into();
    assert_eq!(cmd, CommandType::Priority27);
}

#[test]
fn defaults_make_a_sound() {
    let p = CComidiParams::default();
    assert_eq!((p.channel, p.program_enabled, p.program, p.add_instrument_index), (0, true, 0, 0));
    assert_eq!(p.fixed_rows[0], FixedRowParams::new(true, 64));
    assert_eq!(p.fixed_rows[1], FixedRowParams::new(true, 64));
    assert_eq!(p.fixed_rows[2], FixedRowParams::new(false, 0));
    assert_eq!(p.fixed_rows[3], FixedRowParams::new(false, 0));
    for row in p.dyn_rows {
        assert_eq!(row, DynamicRowParams::new());
        assert!(!row.enabled);
        assert_eq!(row.cmd, AssignableCommand::NoCommand);
    }
}

#[test]
fn parameter_names() {
    assert_eq!(fixed_row_label(0), "Volume");
    assert_eq!(fixed_row_label(1), "Pan");
    assert_eq!(fixed_row_label(2), "Mod");
    assert_eq!(fixed_row_label(3), "LFO Speed");
    assert_eq!(value_param_name("Pan"), "Pan Value");
    let label = dynamic_row_label(15);
    assert_eq!(label, "Row 15");
    assert_eq!(cmd_param_name(&label), "Row 15 Cmd");
    assert_eq!(field_param_name(&label, 3), "Row 15 F3");
}

#[test]
fn a_new_plugin_emits_its_defaults_on_start() {
    let mut plugin = CComidiPlugin::default();
    assert_eq!(plugin.begin_block(), 0);
    let mut sink = RecordingSink::new();
    plugin.finish_block(true, &mut sink);
    assert_eq!(
        sink.events,
        vec![
            Emission::Program { timing: 0, channel: 0, program: 0 },
            Emission::Cc { timing: 0, channel: 0, cc: 0x07, value: 64 },
            Emission::Cc { timing: 0, channel: 0, cc: 0x0A, value: 64 },
        ]
    );
}

#[test]
fn an_unchanged_block_is_silent_and_a_changed_parameter_is_sent() {
    let mut plugin = CComidiPlugin::default();
    plugin.params.channel = 5;
    plugin.begin_block();
    plugin.finish_block(true, &mut RecordingSink::new());
    let mut sink = RecordingSink::new();
    plugin.begin_block();
    plugin.finish_block(true, &mut sink);
    assert_eq!(sink.events, vec![]);

    plugin.params.dyn_rows[11] = DynamicRowParams {
        enabled: true,
        cmd: AssignableCommand::MemAcc10,
        f0: 1,
        f1: 2,
        f2: 3,
        f3: 127,
    };
    assert_eq!(plugin.begin_block(), 5);
    plugin.finish_block(true, &mut sink);
    assert_eq!(
        sink.events,
        vec![
            Emission::Cc { timing: 0, channel: 5, cc: 0x0D, value: 1 },
            Emission::Cc { timing: 0, channel: 5, cc: 0x0E, value: 2 },
            Emission::Cc { timing: 0, channel: 5, cc: 0x0F, value: 3 },
            Emission::Cc { timing: 0, channel: 5, cc: 0x10, value: 127 },
        ]
    );
}

#[test]
fn sync_takes_every_parameter_over() {
    let mut plugin = CComidiPlugin::default();
    plugin.params.channel = 9;
    plugin.params.program = 77;
    plugin.params.program_enabled = false;
    plugin.params.fixed_rows[3] = FixedRowParams::new(true, 12);
    plugin.params.dyn_rows[0].cmd = AssignableCommand::Tune;
    plugin.params.dyn_rows[0].f2 = 33;
    plugin.sync_params_to_core();
    let sender = &plugin.sender;
    assert_eq!((sender.channel(), sender.program(), sender.program_enabled()), (9, 77, false));
    assert!(sender.row(3).unwrap().enabled);
    assert_eq!(sender.row(3).unwrap().fields, [12, 0, 0, 0]);
    assert_eq!(sender.resolved_cmd_for_row(3), CommandType::LfoSpeed);
    assert_eq!(sender.resolved_cmd_for_row(4), CommandType::Tune);
    assert_eq!(sender.row(4).unwrap().fields, [0, 0, 33, 0]);
    assert!(!sender.row(4).unwrap().enabled);
}

#[test]
fn reset_makes_the_next_block_a_start() {
    let mut plugin = CComidiPlugin::default();
    plugin.begin_block();
    plugin.finish_block(true, &mut RecordingSink::new());
    plugin.reset();
    let mut sink = RecordingSink::new();
    plugin.begin_block();
    plugin.finish_block(true, &mut sink);
    assert_eq!(sink.events.len(), 3);
}

#[test]
fn channel_voice_events_are_retargeted() {
    let events = [
        NoteEvent::NoteOn { channel: 1 },
        NoteEvent::NoteOff { channel: 2 },
        NoteEvent::Choke { channel: 3 },
        NoteEvent::PolyPressure { channel: 4 },
        NoteEvent::MidiChannelPressure { channel: 5 },
        NoteEvent::MidiPitchBend { channel: 6 },
        NoteEvent::MidiCC { channel: 7 },
        NoteEvent::MidiProgramChange { channel: 8 },
    ];
    for event in events {
        let mut moved = event;
        retarget_channel(&mut moved, 11);
        assert_eq!(moved.channel(), Some(11));
        assert_ne!(moved, event);
        retarget_channel(&mut moved, event.channel().unwrap());
        assert_eq!(moved, event);
    }
}

#[test]
fn other_events_pass_untouched() {
    let mut event = NoteEvent::Other;
    retarget_channel(&mut event, 11);
    assert_eq!(event, NoteEvent::Other);
    assert_eq!(event.channel(), None);
}

#[test]
fn a_block_sends_its_input_on_and_then_emits() {
    let mut plugin = CComidiPlugin::default();
    plugin.params.channel = 3;
    let mut block = Block::new();
    block.input.push(NoteEvent::NoteOn { channel: 0 });
    block.input.push(NoteEvent::Other);
    block.input.push(NoteEvent::MidiCC { channel: 9 });
    plugin.process(true, &mut block);
    assert!(block.input.is_empty());
    assert_eq!(
        block.sent,
        vec![
            BlockEvent::Input(NoteEvent::NoteOn { channel: 3 }),
            BlockEvent::Input(NoteEvent::Other),
            BlockEvent::Input(NoteEvent::MidiCC { channel: 3 }),
            BlockEvent::Emitted(Emission::Program { timing: 0, channel: 3, program: 0 }),
            BlockEvent::Emitted(Emission::Cc { timing: 0, channel: 3, cc: 0x07, value: 64 }),
            BlockEvent::Emitted(Emission::Cc { timing: 0, channel: 3, cc: 0x0A, value: 64 }),
        ]
    );

    // What an earlier block sent is not sent again.
    block.input.push(NoteEvent::NoteOff { channel: 0 });
    plugin.process(true, &mut block);
    assert_eq!(block.sent, vec![BlockEvent::Input(NoteEvent::NoteOff { channel: 3 })]);
}

#[test]
fn a_stopped_block_still_sends_its_input_on() {
    let mut plugin = CComidiPlugin::default();
    let mut block = Block::new();
    block.input.push(NoteEvent::MidiPitchBend { channel: 15 });
    plugin.process(false, &mut block);
    assert_eq!(block.sent, vec![BlockEvent::Input(NoteEvent::MidiPitchBend { channel: 0 })]);
    plugin.process(false, &mut block);
    assert_eq!(block.sent, vec![]);
}
