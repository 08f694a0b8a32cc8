use ccomidi::command::CommandType;
use ccomidi::sender::{EventSink, SenderCore};

/// Test-side `EventSink`: records every emission as a tagged enum so we
/// can pattern-match them in assertions.
#[derive(Debug, Clone, PartialEq, Eq)]
enum Emission {
    Cc { timing: u32, channel: u8, cc: u8, value: u8 },
    Program { timing: u32, channel: u8, program: u8 },
}

#[derive(Default)]
struct RecordingSink(Vec<Emission>);

impl EventSink for RecordingSink {
    fn push_cc(&mut self, timing: u32, channel: u8, cc: u8, value: u8) {
        self.0.push(Emission::Cc { timing, channel, cc, value });
    }
    fn push_program(&mut self, timing: u32, channel: u8, program: u8) {
        self.0.push(Emission::Program { timing, channel, program });
    }
}

// Shorthands to keep tests readable.
fn cc(timing: u32, channel: u8, cc: u8, value: u8) -> Emission {
    Emission::Cc { timing, channel, cc, value }
}
fn pc(timing: u32, channel: u8, program: u8) -> Emission {
    Emission::Program { timing, channel, program }
}

#[test]
fn snapshot_when_transport_starts() {
    let mut core = SenderCore::new();
    core.set_channel(3);
    core.set_program(42);
    core.set_program_enabled(true);
    core.set_row_enabled(0, true); // Volume
    core.set_row_field(0, 0, 100);

    let mut sink = RecordingSink::default();
    core.tick(true, &mut sink); // play just started

    assert_eq!(
        sink.0,
        vec![
            pc(0, 3, 42),
            cc(0, 3, 0x07, 100),
        ]
    );
}

#[test]
fn no_snapshot_while_stopped() {
    let mut core = SenderCore::new();
    core.set_row_enabled(0, true);
    core.set_row_field(0, 0, 100);

    let mut sink = RecordingSink::default();
    core.tick(false, &mut sink);

    assert!(sink.0.is_empty());
}

#[test]
fn no_redundant_snapshot_on_continued_playback() {
    let mut core = SenderCore::new();
    core.set_row_enabled(0, true);
    core.set_row_field(0, 0, 100);

    let mut sink = RecordingSink::default();
    core.tick(true, &mut sink); // edge: emit
    let emitted_once = sink.0.len();
    core.tick(true, &mut sink); // still playing: should NOT re-emit
    assert_eq!(sink.0.len(), emitted_once);
}

#[test]
fn snapshot_re_emits_after_stop_then_start() {
    let mut core = SenderCore::new();
    core.set_row_enabled(0, true);
    core.set_row_field(0, 0, 64);

    let mut sink = RecordingSink::default();
    core.tick(true, &mut sink); // emit 1
    core.tick(false, &mut sink); // stop
    core.tick(true, &mut sink); // edge: emit again

    // Each tick(true) emitted one CC (row 0, program disabled).
    assert_eq!(sink.0.len(), 2);
}

#[test]
fn program_change_omitted_when_disabled() {
    let mut core = SenderCore::new();
    core.set_program(99);
    core.set_program_enabled(false);

    let mut sink = RecordingSink::default();
    core.tick(true, &mut sink);

    assert!(sink.0.iter().all(|e| !matches!(e, Emission::Program { .. })));
}

#[test]
fn set_row_cmd_is_noop_for_fixed_rows() {
    let mut core = SenderCore::new();
    core.set_row_cmd(0, CommandType::MemAcc0C);
    assert_eq!(
        core.resolved_cmd_for_row(0),
        CommandType::Volume,
        "row 0 must stay as Volume regardless of user input"
    );
}

#[test]
fn set_row_cmd_works_for_dynamic_rows() {
    let mut core = SenderCore::new();
    core.set_row_cmd(7, CommandType::BendRange);
    assert_eq!(core.resolved_cmd_for_row(7), CommandType::BendRange);
}

#[test]
fn dynamic_row_emits_its_chosen_command() {
    let mut core = SenderCore::new();
    core.set_row_enabled(5, true);
    core.set_row_cmd(5, CommandType::MemAcc0C);
    core.set_row_field(5, 0, 1);
    core.set_row_field(5, 1, 2);
    core.set_row_field(5, 2, 3);
    core.set_row_field(5, 3, 4);

    let mut sink = RecordingSink::default();
    core.tick(true, &mut sink);

    assert_eq!(
        sink.0,
        vec![
            cc(0, 0, 0x0D, 1),
            cc(0, 0, 0x0E, 2),
            cc(0, 0, 0x0F, 3),
            cc(0, 0, 0x0C, 4),
        ]
    );
}

#[test]
fn disabled_rows_are_silent() {
    let mut core = SenderCore::new();
    // Enable volume (row 0), leave all others disabled.
    core.set_row_enabled(0, true);
    core.set_row_field(0, 0, 50);

    let mut sink = RecordingSink::default();
    core.tick(true, &mut sink);

    // Exactly one CC (CC#07 from Volume), nothing from rows 1..16.
    assert_eq!(sink.0, vec![cc(0, 0, 0x07, 50)]);
}

#[test]
fn clamps_out_of_range_inputs() {
    let mut core = SenderCore::new();
    core.set_channel(200); // → clamped to 15
    core.set_program(200); // → clamped to 127
    core.set_row_field(0, 0, 200); // → clamped to 127
    assert_eq!(core.channel(), 15);
    assert_eq!(core.program(), 127);
    assert_eq!(core.row(0).unwrap().fields[0], 127);
}

#[test]
fn reset_wipes_everything() {
    let mut core = SenderCore::new();
    core.set_channel(5);
    core.set_program(99);
    core.set_program_enabled(true);
    core.set_row_enabled(0, true);
    core.reset();
    assert_eq!(core.channel(), 0);
    assert_eq!(core.program(), 0);
    assert!(!core.program_enabled());
    assert!(!core.row(0).unwrap().enabled);
}

// ---- Automation / diff-emit behavior -----------------------------------

#[test]
fn diff_emits_row_change_during_playback() {
    let mut core = SenderCore::new();
    core.set_row_enabled(0, true);
    core.set_row_field(0, 0, 50);

    let mut sink = RecordingSink::default();
    core.tick(true, &mut sink); // play start: emits CC#07=50
    sink.0.clear();

    // Simulate host automation: volume moves to 90 mid-playback.
    core.set_row_field(0, 0, 90);
    core.tick(true, &mut sink); // still playing, but row bytes differ

    assert_eq!(sink.0, vec![cc(0, 0, 0x07, 90)]);
}

#[test]
fn diff_emits_program_change_when_enabled_mid_play() {
    let mut core = SenderCore::new();
    core.set_program(77);
    // Program disabled to start.

    let mut sink = RecordingSink::default();
    core.tick(true, &mut sink); // nothing enabled → nothing emitted
    assert!(sink.0.is_empty());

    // Host automates Program Enable → on.
    core.set_program_enabled(true);
    core.tick(true, &mut sink);
    assert_eq!(sink.0, vec![pc(0, 0, 77)]);
}

#[test]
fn diff_does_not_repeat_unchanged_rows() {
    let mut core = SenderCore::new();
    core.set_row_enabled(0, true);
    core.set_row_field(0, 0, 64);

    let mut sink = RecordingSink::default();
    core.tick(true, &mut sink); // edge: emit
    let n = sink.0.len();
    core.tick(true, &mut sink); // unchanged: nothing more
    core.tick(true, &mut sink); // still unchanged
    assert_eq!(sink.0.len(), n);
}

#[test]
fn diff_re_emits_everything_on_channel_change() {
    let mut core = SenderCore::new();
    core.set_channel(2);
    core.set_row_enabled(0, true);
    core.set_row_field(0, 0, 50);
    core.set_row_enabled(5, true);
    core.set_row_cmd(5, CommandType::BendRange);
    core.set_row_field(5, 0, 12);

    let mut sink = RecordingSink::default();
    core.tick(true, &mut sink); // emit everything on ch 2
    sink.0.clear();

    // Automate channel change 2 → 9.
    core.set_channel(9);
    core.tick(true, &mut sink);

    // Both previously-emitted rows must re-emit, now on ch 9.
    assert_eq!(
        sink.0,
        vec![
            cc(0, 9, 0x07, 50),  // Volume row
            cc(0, 9, 0x14, 12),  // BendRange on dynamic row 5
        ]
    );
}

#[test]
fn diff_disabling_a_row_stops_future_emits_without_flushing() {
    let mut core = SenderCore::new();
    core.set_row_enabled(0, true);
    core.set_row_field(0, 0, 100);

    let mut sink = RecordingSink::default();
    core.tick(true, &mut sink); // emit CC#07=100
    sink.0.clear();

    core.set_row_enabled(0, false);
    core.tick(true, &mut sink);
    // Cache updates to None but nothing new on the wire — you can't
    // un-emit a CC anyway.
    assert!(sink.0.is_empty());

    // Re-enabling the row should emit again (even with same value)
    // because the cache was flipped to None on disable.
    core.set_row_enabled(0, true);
    core.tick(true, &mut sink);
    assert_eq!(sink.0, vec![cc(0, 0, 0x07, 100)]);
}

#[test]
fn diff_program_enable_toggle_off_stops_future_pc() {
    let mut core = SenderCore::new();
    core.set_program(33);
    core.set_program_enabled(true);

    let mut sink = RecordingSink::default();
    core.tick(true, &mut sink); // emits PC 33
    sink.0.clear();

    core.set_program_enabled(false);
    core.tick(true, &mut sink);
    assert!(sink.0.is_empty()); // can't un-send a PC

    // Turning it back on re-emits because cache was flipped to None.
    core.set_program_enabled(true);
    core.tick(true, &mut sink);
    assert_eq!(sink.0, vec![pc(0, 0, 33)]);
}

#[test]
fn reset_runtime_keeps_config() {
    let mut core = SenderCore::new();
    core.set_row_enabled(0, true);
    core.set_row_field(0, 0, 7);

    let mut sink = RecordingSink::default();
    core.tick(true, &mut sink); // edge: emit

    core.reset_runtime(); // simulate plugin deactivation/reactivation

    let mut sink2 = RecordingSink::default();
    core.tick(true, &mut sink2);
    // After reset_runtime, tick(true) is once again a rising edge.
    assert_eq!(sink2.0, vec![cc(0, 0, 0x07, 7)]);
    // And the row config survived.
    assert!(core.row(0).unwrap().enabled);
}
