//! [`SenderCore`]: the engine that tracks the row configuration and emits CC
//! and Program Change events at the right times.

use vstd::prelude::*;
use vstd::array::spec_array_fill_for_copy_type;
use crate::command::{CommandType, FIXED_ROW_COUNT, MAX_FIELDS, MAX_ROWS};
use crate::encode::{encode_row, lemma_equal_by_messages, CcMessage, EncodedCommand};
use crate::model::{
    cc_events, clamp_127, lemma_diff_with_nothing_sent, program_events, row_events,
    rows_events, snapshot_events, Emission, RowModel, SenderConfig, SenderModel, SenderRuntime,
};

verus! {

/// A destination for the events that [`SenderCore`] emits.
///
/// Implementors keep what they are handed: each call adds its event behind the
/// ones received before, and nothing else happens to them.
pub trait EventSink {
    /// The events received so far, oldest first. A verified implementor defines
    /// this; for one outside the verified code it is some function of its state.
    closed spec fn received(&self) -> Seq<Emission> {
        arbitrary::<spec_fn(&Self) -> Seq<Emission>>()(self)
    }

    /// Take one MIDI Control Change, `timing` samples into the block.
    fn push_cc(&mut self, timing: u32, channel: u8, cc: u8, value: u8)
        ensures
            final(self).received() == old(self).received().push(
                Emission::Cc { timing, channel, cc, value },
            ),
    ;

    /// Take one MIDI Program Change, `timing` samples into the block.
    fn push_program(&mut self, timing: u32, channel: u8, program: u8)
        ensures
            final(self).received() == old(self).received().push(
                Emission::Program { timing, channel, program },
            ),
    ;
}

/// A sink that keeps every event in a vector.
#[derive(Debug)]
pub struct RecordingSink {
    pub events: Vec<Emission>,
}

impl RecordingSink {
    /// A sink that has received nothing.
    pub fn new() -> (sink: Self)
        ensures
            sink.received() == Seq::<Emission>::empty(),
    {
        RecordingSink { events: Vec::new() }
    }
}

impl EventSink for RecordingSink {
    open spec fn received(&self) -> Seq<Emission> {
        self.events@
    }

    fn push_cc(&mut self, timing: u32, channel: u8, cc: u8, value: u8) {
        self.events.push(Emission::Cc { timing, channel, cc, value });
    }

    fn push_program(&mut self, timing: u32, channel: u8, program: u8) {
        self.events.push(Emission::Program { timing, channel, program });
    }
}

/// Everything the user can configure for one row.
#[derive(Debug, Copy, Clone, PartialEq, Eq)]
pub struct RowState {
    pub enabled: bool,
    pub cmd: CommandType,
    pub fields: [u8; MAX_FIELDS],
}

impl View for RowState {
    type V = RowModel;

    open spec fn view(&self) -> RowModel {
        RowModel { enabled: self.enabled, cmd: self.cmd, fields: self.fields@ }
    }
}

impl Default for RowState {
    /// A disabled row without a command. What a fixed row emits is not stored
    /// here: it follows from the row's index.
    fn default() -> (row: Self)
        ensures
            row@ == RowModel::initial(),
            !row.enabled,
            row.cmd == CommandType::NoCommand,
            row.fields@ == seq![0u8, 0u8, 0u8, 0u8],
    {
        RowState { enabled: false, cmd: CommandType::NoCommand, fields: [0; MAX_FIELDS] }
    }
}

/// The engine.
///
/// The channel is always in 0 to 15, and the program and every field in 0 to
/// 127: the setters clamp, and no mutable reference to the state is handed out.
#[derive(Debug)]
pub struct SenderCore {
    channel: u8,
    program: u8,
    program_enabled: bool,
    rows: [RowState; MAX_ROWS],
    last_transport_playing: bool,
    last_emitted_channel: Option<u8>,
    last_emitted_program: Option<u8>,
    last_emitted_rows: [Option<EncodedCommand>; MAX_ROWS],
}

/// The messages in an optional buffer.
spec fn messages_of(encoded: Option<EncodedCommand>) -> Option<Seq<CcMessage>> {
    match encoded {
        Some(e) => Some(e@),
        None => None,
    }
}

/// The rows of a configuration, as modelled.
spec fn row_models(rows: [RowState; MAX_ROWS]) -> Seq<RowModel> {
    Seq::new(MAX_ROWS as nat, |i: int| rows@[i]@)
}

/// The buffers last sent, as modelled.
spec fn sent_models(sent: [Option<EncodedCommand>; MAX_ROWS]) -> Seq<Option<Seq<CcMessage>>> {
    Seq::new(MAX_ROWS as nat, |i: int| messages_of(sent@[i]))
}

/// Replacing one row replaces its model.
proof fn lemma_row_replaced(
    before: [RowState; MAX_ROWS],
    after: [RowState; MAX_ROWS],
    row: int,
    state: RowState,
)
    requires
        0 <= row < MAX_ROWS,
        after@ == before@.update(row, state),
    ensures
        row_models(after) == row_models(before).update(row, state@),
{
}

/// Replacing what was last sent for one row replaces its model.
proof fn lemma_sent_replaced(
    before: [Option<EncodedCommand>; MAX_ROWS],
    after: [Option<EncodedCommand>; MAX_ROWS],
    row: int,
    sent: Option<EncodedCommand>,
)
    requires
        0 <= row < MAX_ROWS,
        after@ == before@.update(row, sent),
    ensures
        sent_models(after) == sent_models(before).update(row, messages_of(sent)),
{
}

impl View for SenderCore {
    type V = SenderModel;

    closed spec fn view(&self) -> SenderModel {
        SenderModel {
            config: SenderConfig {
                channel: self.channel,
                program: self.program,
                program_enabled: self.program_enabled,
                rows: row_models(self.rows),
            },
            runtime: SenderRuntime {
                playing: self.last_transport_playing,
                channel: self.last_emitted_channel,
                program: self.last_emitted_program,
                rows: sent_models(self.last_emitted_rows),
            },
        }
    }
}

impl Clone for SenderCore {
    fn clone(&self) -> (core: Self)
        ensures
            core@ == self@,
    {
        proof {
            use_type_invariant(self);
        }
        SenderCore {
            channel: self.channel,
            program: self.program,
            program_enabled: self.program_enabled,
            rows: self.rows,
            last_transport_playing: self.last_transport_playing,
            last_emitted_channel: self.last_emitted_channel,
            last_emitted_program: self.last_emitted_program,
            last_emitted_rows: self.last_emitted_rows,
        }
    }
}

impl Default for SenderCore {
    fn default() -> (core: Self)
        ensures
            core@ == SenderModel::initial(),
    {
        SenderCore::new()
    }
}

impl SenderCore {
    #[verifier::type_invariant]
    spec fn well_formed(self) -> bool {
        &&& self@.config.valid()
        &&& forall|i: int|
            0 <= i < MAX_ROWS ==> (#[trigger] self.last_emitted_rows@[i] matches Some(e)
                ==> e.well_formed())
    }

    /// A core in the default state: channel 0, program 0, program changes and
    /// all rows disabled, nothing sent.
    pub fn new() -> (core: Self)
        ensures
            core@ == SenderModel::initial(),
            core@.valid(),
    {
        let row = RowState { enabled: false, cmd: CommandType::NoCommand, fields: [0; MAX_FIELDS] };
        assert(row@ == RowModel::initial());
        let rows = [row; MAX_ROWS];
        assert forall|i: int| 0 <= i < MAX_ROWS implies #[trigger] row_models(rows)[i]
            == RowModel::initial() by {
            assert(rows@[i] == spec_array_fill_for_copy_type::<RowState, MAX_ROWS>(row)@[i]);
        }
        assert(row_models(rows) == SenderConfig::initial().rows);
        let sent: [Option<EncodedCommand>; MAX_ROWS] = [None; MAX_ROWS];
        assert(sent_models(sent) == SenderRuntime::initial().rows);
        SenderCore {
            channel: 0,
            program: 0,
            program_enabled: false,
            rows,
            last_transport_playing: false,
            last_emitted_channel: None,
            last_emitted_program: None,
            last_emitted_rows: sent,
        }
    }

    /// Clear everything to the defaults, in place.
    pub fn reset(&mut self)
        ensures
            final(self)@ == SenderModel::initial(),
            final(self)@.valid(),
    {
        *self = SenderCore::new();
    }

    /// Forget the transport state and what was sent, and keep the configuration.
    pub fn reset_runtime(&mut self)
        ensures
            final(self)@.config == old(self)@.config,
            final(self)@.runtime == SenderRuntime::initial(),
            final(self)@.valid(),
    {
        proof {
            use_type_invariant(&*self);
        }
        self.last_transport_playing = false;
        self.invalidate_caches();
    }

    /// Forget what was sent: the next emission is a full snapshot.
    fn invalidate_caches(&mut self)
        ensures
            final(self)@.config == old(self)@.config,
            final(self)@.runtime == old(self)@.runtime.forgotten(),
            final(self)@.valid(),
    {
        proof {
            use_type_invariant(&*self);
        }
        self.last_emitted_channel = None;
        self.last_emitted_program = None;
        let sent: [Option<EncodedCommand>; MAX_ROWS] = [None; MAX_ROWS];
        assert(sent_models(sent) == SenderRuntime::initial().rows);
        self.last_emitted_rows = sent;
    }

    /// Set the output channel, clamped to 15.
    pub fn set_channel(&mut self, channel: u8)
        ensures
            final(self)@.config == old(self)@.config.with_channel(channel),
            final(self)@.runtime == old(self)@.runtime,
            final(self)@.valid(),
    {
        proof {
            use_type_invariant(&*self);
        }
        self.channel = if channel > 15 {
            15
        } else {
            channel
        };
    }

    /// Set the program, clamped to 127.
    pub fn set_program(&mut self, program: u8)
        ensures
            final(self)@.config == old(self)@.config.with_program(program),
            final(self)@.runtime == old(self)@.runtime,
            final(self)@.valid(),
    {
        proof {
            use_type_invariant(&*self);
        }
        self.program = clamp_u8_127(program);
    }

    /// Enable or disable program changes.
    pub fn set_program_enabled(&mut self, enabled: bool)
        ensures
            final(self)@.config == old(self)@.config.with_program_enabled(enabled),
            final(self)@.runtime == old(self)@.runtime,
            final(self)@.valid(),
    {
        proof {
            use_type_invariant(&*self);
        }
        self.program_enabled = enabled;
    }

    /// Enable or disable a row. A row out of range is ignored.
    pub fn set_row_enabled(&mut self, row: usize, enabled: bool)
        ensures
            final(self)@.config == old(self)@.config.with_row_enabled(row as int, enabled),
            final(self)@.runtime == old(self)@.runtime,
            final(self)@.valid(),
    {
        proof {
            use_type_invariant(&*self);
        }
        if row < MAX_ROWS {
            let state = RowState { enabled, ..self.rows[row] };
            assert(self@.config.rows[row as int].valid());
            self.replace_row(row, state);
        }
    }

    /// Set what a dynamic row emits. A fixed row keeps its command, and a row
    /// out of range is ignored.
    pub fn set_row_cmd(&mut self, row: usize, cmd: CommandType)
        ensures
            final(self)@.config == old(self)@.config.with_row_cmd(row as int, cmd),
            final(self)@.runtime == old(self)@.runtime,
            final(self)@.valid(),
    {
        proof {
            use_type_invariant(&*self);
        }
        if row < FIXED_ROW_COUNT {
            return;
        }
        if row < MAX_ROWS {
            let state = RowState { cmd, ..self.rows[row] };
            assert(self@.config.rows[row as int].valid());
            self.replace_row(row, state);
        }
    }

    /// Set one field of a row, clamped to 127. A row or a field out of range is
    /// ignored.
    pub fn set_row_field(&mut self, row: usize, field: usize, value: u8)
        ensures
            final(self)@.config == old(self)@.config.with_row_field(
                row as int,
                field as int,
                value,
            ),
            final(self)@.runtime == old(self)@.runtime,
            final(self)@.valid(),
    {
        proof {
            use_type_invariant(&*self);
        }
        if row < MAX_ROWS {
            if field < MAX_FIELDS {
                let mut fields = self.rows[row].fields;
                fields[field] = clamp_u8_127(value);
                let state = RowState { fields, ..self.rows[row] };
                assert(self@.config.rows[row as int].valid());
                self.replace_row(row, state);
            }
        }
    }

    /// Store the state of one row.
    fn replace_row(&mut self, row: usize, state: RowState)
        requires
            row < MAX_ROWS,
            state@.valid(),
        ensures
            final(self)@.config == (SenderConfig {
                rows: old(self)@.config.rows.update(row as int, state@),
                ..old(self)@.config
            }),
            final(self)@.runtime == old(self)@.runtime,
            final(self)@.valid(),
    {
        proof {
            use_type_invariant(&*self);
        }
        let mut rows = self.rows;
        rows[row] = state;
        proof {
            lemma_row_replaced(self.rows, rows, row as int, state);
        }
        self.rows = rows;
    }

    /// The output channel.
    pub fn channel(&self) -> (channel: u8)
        ensures
            channel == self@.config.channel,
            channel <= 15,
    {
        proof {
            use_type_invariant(self);
        }
        self.channel
    }

    /// The program.
    pub fn program(&self) -> (program: u8)
        ensures
            program == self@.config.program,
            program <= 127,
    {
        proof {
            use_type_invariant(self);
        }
        self.program
    }

    /// Whether program changes are enabled.
    pub fn program_enabled(&self) -> (enabled: bool)
        ensures
            enabled == self@.config.program_enabled,
    {
        self.program_enabled
    }

    /// The configuration of a row, or `None` for a row out of range.
    pub fn row(&self, row: usize) -> (state: Option<&RowState>)
        ensures
            state is Some <==> row < MAX_ROWS,
            state matches Some(s) ==> s@ == self@.config.rows[row as int] && s@.valid(),
            state matches Some(s) ==> {
                &&& s.enabled == self@.config.rows[row as int].enabled
                &&& s.cmd == self@.config.rows[row as int].cmd
                &&& s.fields@ == self@.config.rows[row as int].fields
            },
    {
        proof {
            use_type_invariant(self);
        }
        if row < MAX_ROWS {
            assert(self@.config.rows[row as int].valid());
            Some(&self.rows[row])
        } else {
            None
        }
    }

    /// What a row emits when enabled: the bound command of a fixed row, else the
    /// one assigned to it. A row out of range has no command.
    pub fn resolved_cmd_for_row(&self, row: usize) -> (cmd: CommandType)
        ensures
            cmd == self@.config.command(row as int),
    {
        match CommandType::fixed_for_row(row) {
            Some(cmd) => cmd,
            None => if row < MAX_ROWS {
                self.rows[row].cmd
            } else {
                CommandType::NoCommand
            },
        }
    }

    /// One audio block: nothing while stopped, a full snapshot when playback has
    /// just started, and what has changed since while it goes on.
    pub fn tick<S: EventSink>(&mut self, is_playing: bool, sink: &mut S)
        ensures
            final(sink).received() == old(sink).received() + old(self)@.tick_events(is_playing),
            final(self)@ == old(self)@.after_tick(is_playing),
            final(self)@.valid(),
    {
        proof {
            use_type_invariant(&*self);
        }
        let just_started = is_playing && !self.last_transport_playing;
        self.last_transport_playing = is_playing;
        if !is_playing {
            return;
        }
        if just_started {
            self.invalidate_caches();
            proof {
                lemma_diff_with_nothing_sent(self@, 0);
            }
        }
        self.emit_diff(sink, 0);
    }

    /// Emit everything that is enabled at `timing`, whatever was sent before.
    pub fn emit_snapshot<S: EventSink>(&mut self, sink: &mut S, timing: u32)
        ensures
            final(sink).received() == old(sink).received() + snapshot_events(
                old(self)@.config,
                timing,
            ),
            final(self)@ == old(self)@.after_emission(),
            final(self)@.valid(),
    {
        self.invalidate_caches();
        proof {
            lemma_diff_with_nothing_sent(self@, timing);
        }
        self.emit_diff(sink, timing);
    }

    /// Emit what has changed since the last emission: the program change first,
    /// then the rows in order. After a change of channel everything counts as
    /// changed. What has been disabled is forgotten, and nothing is sent for it.
    pub fn emit_diff<S: EventSink>(&mut self, sink: &mut S, timing: u32)
        ensures
            final(sink).received() == old(sink).received() + old(self)@.diff_events(timing),
            final(self)@ == old(self)@.after_emission(),
            final(self)@.valid(),
    {
        proof {
            use_type_invariant(&*self);
        }
        let ghost config = self@.config;
        let ghost known = self@.runtime.relative_to(config.channel);
        let ghost playing = self@.runtime.playing;
        if self.last_emitted_channel != Some(self.channel) {
            self.invalidate_caches();
        }
        proof {
            use_type_invariant(&*self);
        }
        let channel = self.channel;
        self.last_emitted_channel = Some(channel);
        let pc_target = if self.program_enabled {
            Some(self.program)
        } else {
            None
        };
        if pc_target != self.last_emitted_program {
            if let Some(p) = pc_target {
                sink.push_program(timing, channel, p);
            }
            self.last_emitted_program = pc_target;
        }
        let ghost head = program_events(config, known.program, timing);
        assert(sink.received() == old(sink).received() + head);
        let mut row_idx: usize = 0;
        while row_idx < MAX_ROWS
            invariant
                row_idx <= MAX_ROWS,
                config.valid(),
                channel == config.channel,
                self@.config == config,
                self@.runtime.playing == playing,
                self@.runtime.channel == Some(config.channel),
                self@.runtime.program == config.wanted_program(),
                known.rows.len() == MAX_ROWS,
                forall|i: int|
                    0 <= i < row_idx ==> #[trigger] self@.runtime.rows[i] == config.wanted_row(i),
                forall|i: int|
                    row_idx <= i < MAX_ROWS ==> #[trigger] self@.runtime.rows[i] == known.rows[i],
                sink.received() == old(sink).received() + head + rows_events(
                    config,
                    known.rows,
                    row_idx as nat,
                    timing,
                ),
            decreases MAX_ROWS - row_idx,
        {
            proof {
                use_type_invariant(&*self);
            }
            let row = self.rows[row_idx];
            let desired: Option<EncodedCommand> = if row.enabled {
                let cmd = match CommandType::fixed_for_row(row_idx) {
                    Some(cmd) => cmd,
                    None => row.cmd,
                };
                Some(encode_row(cmd, &row.fields))
            } else {
                None
            };
            assert(config.rows[row_idx as int] == row@);
            assert(messages_of(desired) == config.wanted_row(row_idx as int));
            let ghost before = sink.received();
            let last = self.last_emitted_rows[row_idx];
            assert(messages_of(last) == self@.runtime.rows[row_idx as int]);
            proof {
                if let (Some(d), Some(l)) = (desired, last) {
                    lemma_equal_by_messages(d, l);
                }
            }
            if desired != last {
                if let Some(enc) = &desired {
                    emit_messages(enc.as_slice(), sink, timing, channel);
                }
                let mut sent = self.last_emitted_rows;
                sent[row_idx] = desired;
                proof {
                    lemma_sent_replaced(self.last_emitted_rows, sent, row_idx as int, desired);
                }
                self.last_emitted_rows = sent;
            }
            assert(sink.received() == before + row_events(
                config,
                row_idx as int,
                known.rows[row_idx as int],
                timing,
            ));
            row_idx += 1;
        }
    }
}

/// Hand the messages of one row to the sink, in order.
fn emit_messages<S: EventSink>(messages: &[CcMessage], sink: &mut S, timing: u32, channel: u8)
    ensures
        final(sink).received() == old(sink).received() + cc_events(messages@, timing, channel),
{
    let mut i: usize = 0;
    while i < messages.len()
        invariant
            i <= messages.len(),
            sink.received() == old(sink).received() + cc_events(messages@, timing, channel).take(
                i as int,
            ),
        decreases messages.len() - i,
    {
        let msg = messages[i];
        sink.push_cc(timing, channel, msg.cc, msg.value);
        i += 1;
    }
}

/// Clamp to the MIDI 7-bit data range.
fn clamp_u8_127(v: u8) -> (r: u8)
    ensures
        r == clamp_127(v),
        r <= 127,
{
    if v > 127 {
        127
    } else {
        v
    }
}

} // verus!
