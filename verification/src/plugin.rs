//! What the plugin does in one audio block: take over the parameters, send the
//! input on to the selected channel, and emit.

use vstd::prelude::*;
use crate::command::MAX_ROWS;
use crate::model::{
    clamp_127, clamp_channel, Emission, RowModel, SenderConfig, SenderModel, SenderRuntime,
};
use crate::params::{
    assigned_command, is_data, CComidiParams, DynamicRowParams, DYN_ROWS, FIXED_ROWS,
};
use crate::receiver_laws::at_most;
use crate::sender::{EventSink, RecordingSink, SenderCore};
use crate::sender_laws::{
    law_block_events_follow_the_configuration, law_unchanged_playback_is_silent, reconfigured,
};

verus! {

/// An input event, by what matters for sending it on.
#[derive(Debug, Copy, Clone, PartialEq, Eq, Structural)]
pub enum NoteEvent {
    NoteOn { channel: u8 },
    NoteOff { channel: u8 },
    Choke { channel: u8 },
    PolyPressure { channel: u8 },
    MidiChannelPressure { channel: u8 },
    MidiPitchBend { channel: u8 },
    MidiCC { channel: u8 },
    MidiProgramChange { channel: u8 },
    /// Anything that is not sent on to another channel: automation, note
    /// expressions, system messages.
    Other,
}

impl NoteEvent {
    /// The channel of an event that is sent on.
    pub open spec fn on_channel(self) -> Option<u8> {
        match self {
            NoteEvent::NoteOn { channel } => Some(channel),
            NoteEvent::NoteOff { channel } => Some(channel),
            NoteEvent::Choke { channel } => Some(channel),
            NoteEvent::PolyPressure { channel } => Some(channel),
            NoteEvent::MidiChannelPressure { channel } => Some(channel),
            NoteEvent::MidiPitchBend { channel } => Some(channel),
            NoteEvent::MidiCC { channel } => Some(channel),
            NoteEvent::MidiProgramChange { channel } => Some(channel),
            NoteEvent::Other => None,
        }
    }

    /// The channel of an event that is sent on.
    pub fn channel(&self) -> (channel: Option<u8>)
        ensures
            channel == self.on_channel(),
    {
        match *self {
            NoteEvent::NoteOn { channel } => Some(channel),
            NoteEvent::NoteOff { channel } => Some(channel),
            NoteEvent::Choke { channel } => Some(channel),
            NoteEvent::PolyPressure { channel } => Some(channel),
            NoteEvent::MidiChannelPressure { channel } => Some(channel),
            NoteEvent::MidiPitchBend { channel } => Some(channel),
            NoteEvent::MidiCC { channel } => Some(channel),
            NoteEvent::MidiProgramChange { channel } => Some(channel),
            NoteEvent::Other => None,
        }
    }
}

/// The event on another channel, if it is one that is sent on.
pub open spec fn retargeted(ev: NoteEvent, channel: u8) -> NoteEvent {
    match ev {
        NoteEvent::NoteOn { .. } => NoteEvent::NoteOn { channel },
        NoteEvent::NoteOff { .. } => NoteEvent::NoteOff { channel },
        NoteEvent::Choke { .. } => NoteEvent::Choke { channel },
        NoteEvent::PolyPressure { .. } => NoteEvent::PolyPressure { channel },
        NoteEvent::MidiChannelPressure { .. } => NoteEvent::MidiChannelPressure { channel },
        NoteEvent::MidiPitchBend { .. } => NoteEvent::MidiPitchBend { channel },
        NoteEvent::MidiCC { .. } => NoteEvent::MidiCC { channel },
        NoteEvent::MidiProgramChange { .. } => NoteEvent::MidiProgramChange { channel },
        NoteEvent::Other => NoteEvent::Other,
    }
}

/// Rewrite an event's channel in place. Every channel-voice message is
/// retargeted; other events pass through untouched.
pub fn retarget_channel(ev: &mut NoteEvent, new_channel: u8)
    ensures
        *final(ev) == retargeted(*old(ev), new_channel),
{
    match ev {
        NoteEvent::NoteOn { channel } => {
            *channel = new_channel;
        },
        NoteEvent::NoteOff { channel } => {
            *channel = new_channel;
        },
        NoteEvent::Choke { channel } => {
            *channel = new_channel;
        },
        NoteEvent::PolyPressure { channel } => {
            *channel = new_channel;
        },
        NoteEvent::MidiChannelPressure { channel } => {
            *channel = new_channel;
        },
        NoteEvent::MidiPitchBend { channel } => {
            *channel = new_channel;
        },
        NoteEvent::MidiCC { channel } => {
            *channel = new_channel;
        },
        NoteEvent::MidiProgramChange { channel } => {
            *channel = new_channel;
        },
        NoteEvent::Other => {},
    }
}

/// The field values of a dynamic row, clamped.
pub open spec fn dynamic_fields(r: DynamicRowParams) -> Seq<u8> {
    seq![
        clamp_127(r.f0 as u8),
        clamp_127(r.f1 as u8),
        clamp_127(r.f2 as u8),
        clamp_127(r.f3 as u8),
    ]
}

/// A row as the parameters have it. A fixed row takes its switch and its first
/// field over; its other fields, which its command does not use, stay.
pub open spec fn synced_row(row: RowModel, p: CComidiParams, i: int) -> RowModel {
    if i < FIXED_ROWS {
        let r = p.fixed_rows@[i];
        RowModel {
            enabled: r.enabled,
            fields: row.fields.update(0, clamp_127(r.value as u8)),
            ..row
        }
    } else {
        let r = p.dyn_rows@[i - FIXED_ROWS];
        RowModel {
            enabled: r.enabled,
            cmd: assigned_command(r.cmd),
            fields: dynamic_fields(r),
        }
    }
}

/// A configuration with the parameters taken over.
pub open spec fn synced(c: SenderConfig, p: CComidiParams) -> SenderConfig {
    SenderConfig {
        channel: clamp_channel(p.channel as u8),
        program: clamp_127(p.program as u8),
        program_enabled: p.program_enabled,
        rows: Seq::new(MAX_ROWS as nat, |i: int| synced_row(c.rows[i], p, i)),
    }
}

/// An event that is sent to the host.
#[derive(Debug, Copy, Clone, PartialEq, Eq, Structural)]
pub enum BlockEvent {
    /// An input event that is sent on.
    Input(NoteEvent),
    /// An event that the sender emits.
    Emitted(Emission),
}

impl BlockEvent {
    /// The channel of an event that has one.
    pub open spec fn on_channel(self) -> Option<u8> {
        match self {
            BlockEvent::Input(ev) => ev.on_channel(),
            BlockEvent::Emitted(e) => Some(e.on_channel()),
        }
    }
}

/// What is sent in a block: every input event on `channel`, in order, and then
/// every event of the sender.
pub open spec fn sent_in_block(
    input: Seq<NoteEvent>,
    channel: u8,
    emitted: Seq<Emission>,
) -> Seq<BlockEvent> {
    Seq::new(input.len(), |i: int| BlockEvent::Input(retargeted(input[i], channel))) + Seq::new(
        emitted.len(),
        |i: int| BlockEvent::Emitted(emitted[i]),
    )
}

/// The events of one audio block. It is kept from block to block, so that its
/// memory is used again.
#[derive(Debug)]
pub struct Block {
    /// The input events that wait, oldest first.
    pub input: Vec<NoteEvent>,
    /// The events that are sent to the host, in order.
    pub sent: Vec<BlockEvent>,
    /// The part of them that the sender emits.
    pub emitted: RecordingSink,
}

impl Block {
    /// A block without events.
    pub fn new() -> (block: Self)
        ensures
            block.input@ == Seq::<NoteEvent>::empty(),
            block.sent@ == Seq::<BlockEvent>::empty(),
            block.emitted.received() == Seq::<Emission>::empty(),
    {
        Block { input: Vec::new(), sent: Vec::new(), emitted: RecordingSink::new() }
    }
}

/// The sender with the parameters taken over.
pub open spec fn block_start(m: SenderModel, p: CComidiParams) -> SenderModel {
    reconfigured(m, synced(m.config, p))
}

/// The plugin: the values of its parameters and the sender.
#[derive(Debug)]
pub struct CComidiPlugin {
    pub params: CComidiParams,
    pub sender: SenderCore,
}

impl Default for CComidiPlugin {
    fn default() -> (plugin: Self)
        ensures
            plugin.params.is_initial(),
            plugin.sender@ == SenderModel::initial(),
    {
        CComidiPlugin { params: CComidiParams::default(), sender: SenderCore::new() }
    }
}

impl CComidiPlugin {
    /// Take the parameters over into the sender.
    pub fn sync_params_to_core(&mut self)
        ensures
            final(self).params == old(self).params,
            final(self).sender@.config == synced(old(self).sender@.config, old(self).params),
            final(self).sender@.runtime == old(self).sender@.runtime,
            final(self).sender@.config.program_enabled == old(self).params.program_enabled,
            forall|i: int|
                0 <= i < 4 ==> (#[trigger] final(self).sender@.config.rows[i]).enabled == old(
                    self,
                ).params.fixed_rows@[i].enabled,
            forall|j: int|
                0 <= j < 12 ==> {
                    let row = final(self).sender@.config.rows[4 + j];
                    let r = #[trigger] old(self).params.dyn_rows@[j];
                    row.enabled == r.enabled && row.cmd == assigned_command(r.cmd)
                },
    {
        let ghost start = self.sender@;
        let p = self.params;
        self.sender.set_channel(p.channel as u8);
        self.sender.set_program(p.program as u8);
        self.sender.set_program_enabled(p.program_enabled);
        let ghost globals = self.sender@.config;
        let mut i: usize = 0;
        while i < FIXED_ROWS
            invariant
                i <= FIXED_ROWS,
                self.params == p,
                self.sender@.valid(),
                self.sender@.runtime == start.runtime,
                globals.rows == start.config.rows,
                self.sender@.config == (SenderConfig { rows: self.sender@.config.rows, ..globals }),
                forall|k: int|
                    0 <= k < i ==> #[trigger] self.sender@.config.rows[k] == synced_row(
                        start.config.rows[k],
                        p,
                        k,
                    ),
                forall|k: int|
                    i <= k < MAX_ROWS ==> #[trigger] self.sender@.config.rows[k]
                        == start.config.rows[k],
            decreases FIXED_ROWS - i,
        {
            let r = p.fixed_rows[i];
            self.sender.set_row_enabled(i, r.enabled);
            self.sender.set_row_field(i, 0, r.value as u8);
            i += 1;
        }
        let mut j: usize = 0;
        while j < DYN_ROWS
            invariant
                j <= DYN_ROWS,
                self.params == p,
                self.sender@.valid(),
                self.sender@.runtime == start.runtime,
                globals.rows == start.config.rows,
                self.sender@.config == (SenderConfig { rows: self.sender@.config.rows, ..globals }),
                forall|k: int|
                    0 <= k < FIXED_ROWS + j ==> #[trigger] self.sender@.config.rows[k]
                        == synced_row(start.config.rows[k], p, k),
            decreases DYN_ROWS - j,
        {
            let r = p.dyn_rows[j];
            let row = FIXED_ROWS + j;
            self.sender.set_row_enabled(row, r.enabled);
            self.sender.set_row_cmd(row, r.cmd.into());
            self.sender.set_row_field(row, 0, r.f0 as u8);
            self.sender.set_row_field(row, 1, r.f1 as u8);
            self.sender.set_row_field(row, 2, r.f2 as u8);
            self.sender.set_row_field(row, 3, r.f3 as u8);
            assert(self.sender@.config.rows[row as int].valid());
            assert(self.sender@.config.rows[row as int].fields == dynamic_fields(r));
            j += 1;
        }
        assert(self.sender@.config.rows == synced(start.config, p).rows);
    }

    /// Begin an audio block: take the parameters over. The input events of the
    /// block go to the channel returned.
    pub fn begin_block(&mut self) -> (target_channel: u8)
        ensures
            target_channel == old(self).params.channel as u8,
            final(self).params == old(self).params,
            final(self).sender@.config == synced(old(self).sender@.config, old(self).params),
            final(self).sender@.runtime == old(self).sender@.runtime,
    {
        self.sync_params_to_core();
        self.params.channel as u8
    }

    /// End an audio block, once its input events are sent on: emit.
    pub fn finish_block<S: EventSink>(&mut self, is_playing: bool, sink: &mut S)
        ensures
            final(self).params == old(self).params,
            final(sink).received() == old(sink).received() + old(self).sender@.tick_events(
                is_playing,
            ),
            final(self).sender@ == old(self).sender@.after_tick(is_playing),
    {
        self.sender.tick(is_playing, sink);
    }

    /// One audio block: take the parameters over, send every input event on to
    /// the selected channel, and then emit. No input event is left.
    pub fn process(&mut self, is_playing: bool, block: &mut Block)
        ensures
            final(self).params == old(self).params,
            final(self).sender@ == block_start(old(self).sender@, old(self).params).after_tick(
                is_playing,
            ),
            final(block).input@ == Seq::<NoteEvent>::empty(),
            final(block).emitted.received() == block_start(
                old(self).sender@,
                old(self).params,
            ).tick_events(is_playing),
            final(block).sent@ == sent_in_block(
                old(block).input@,
                old(self).params.channel as u8,
                block_start(old(self).sender@, old(self).params).tick_events(is_playing),
            ),
    {
        let ghost input = block.input@;
        let target_channel = self.begin_block();
        let ghost start = self.sender@;
        assert(start == block_start(old(self).sender@, old(self).params));
        block.sent.clear();
        let mut i: usize = 0;
        while i < block.input.len()
            invariant
                i <= block.input.len(),
                block.input@ == input,
                block.sent@ == sent_in_block(input.take(i as int), target_channel, seq![]),
            decreases block.input.len() - i,
        {
            let mut ev = block.input[i];
            retarget_channel(&mut ev, target_channel);
            block.sent.push(BlockEvent::Input(ev));
            i += 1;
        }
        assert(input.take(i as int) == input);
        block.input.clear();
        block.emitted.events.clear();
        self.finish_block(is_playing, &mut block.emitted);
        let ghost emitted = start.tick_events(is_playing);
        assert(block.emitted.events@ == emitted);
        let mut k: usize = 0;
        while k < block.emitted.events.len()
            invariant
                k <= block.emitted.events.len(),
                block.emitted.events@ == emitted,
                block.input@ == Seq::<NoteEvent>::empty(),
                block.sent@ == sent_in_block(input, target_channel, emitted.take(k as int)),
            decreases block.emitted.events.len() - k,
        {
            let e = block.emitted.events[k];
            block.sent.push(BlockEvent::Emitted(e));
            k += 1;
        }
        assert(emitted.take(k as int) == emitted);
    }

    /// The plugin is activated: forget what was sent and keep the settings, so
    /// that the next start of playback emits everything.
    pub fn reset(&mut self)
        ensures
            final(self).params == old(self).params,
            final(self).sender@.config == old(self).sender@.config,
            final(self).sender@.runtime == SenderRuntime::initial(),
    {
        self.sender.reset_runtime();
    }
}

/// Parameters in their ranges are taken over as they are, without clamping, and
/// the input events go to the channel that the sender emits on.
pub proof fn law_parameters_in_range_are_kept(c: SenderConfig, p: CComidiParams, i: int)
    requires
        c.valid(),
        p.in_range(),
    ensures
        synced(c, p).channel == p.channel,
        synced(c, p).program == p.program,
        p.channel as u8 == synced(c, p).channel,
        0 <= i < FIXED_ROWS ==> synced(c, p).rows[i].fields[0] == p.fixed_rows@[i].value,
        0 <= i < DYN_ROWS ==> {
            let r = p.dyn_rows@[i];
            let fields = synced(c, p).rows[FIXED_ROWS + i].fields;
            fields[0] == r.f0 && fields[1] == r.f1 && fields[2] == r.f2 && fields[3] == r.f3
        },
{
    if 0 <= i < FIXED_ROWS {
        assert(c.rows[i].valid());
        assert(is_data(p.fixed_rows@[i].value));
    }
    if 0 <= i < DYN_ROWS {
        assert(is_data(p.dyn_rows@[i].f0));
    }
}

/// Taking the same parameters over twice is the same as once: a block without a
/// parameter change leaves the sender's configuration as it is.
pub proof fn law_sync_is_idempotent(c: SenderConfig, p: CComidiParams)
    requires
        c.valid(),
    ensures
        synced(synced(c, p), p) == synced(c, p),
{
    let once = synced(c, p);
    assert forall|k: int| 0 <= k < MAX_ROWS implies #[trigger] synced(once, p).rows[k]
        == once.rows[k] by {
        assert(c.rows[k].valid());
        assert(synced_row(once.rows[k], p, k).fields == once.rows[k].fields);
    }
    assert(synced(once, p).rows == once.rows);
}

/// A block of playback that follows another with the same parameters emits
/// nothing.
pub proof fn law_unchanged_block_is_silent(m: SenderModel, p: CComidiParams)
    requires
        m.valid(),
    ensures
        ({
            let played = block_start(m, p).after_tick(true);
            block_start(played, p).tick_events(true) == Seq::<Emission>::empty()
        }),
{
    let first = block_start(m, p);
    law_sync_is_idempotent(m.config, p);
    law_synced_is_valid(m.config, p);
    law_unchanged_playback_is_silent(first);
}

/// In a block every input event is sent once, in order, and all of them before
/// what the sender emits; nothing else is sent.
pub proof fn law_input_is_sent_before_the_emission(
    input: Seq<NoteEvent>,
    channel: u8,
    emitted: Seq<Emission>,
    i: int,
)
    ensures
        sent_in_block(input, channel, emitted).len() == input.len() + emitted.len(),
        0 <= i < input.len() ==> sent_in_block(input, channel, emitted)[i] == BlockEvent::Input(
            retargeted(input[i], channel),
        ),
        0 <= i < emitted.len() ==> sent_in_block(input, channel, emitted)[input.len() + i]
            == BlockEvent::Emitted(emitted[i]),
{
}

/// Whatever is sent in a block goes to the selected channel, save for input
/// events that have none.
pub proof fn law_a_block_is_sent_on_one_channel(
    m: SenderModel,
    p: CComidiParams,
    input: Seq<NoteEvent>,
    playing: bool,
    i: int,
)
    requires
        m.valid(),
        p.in_range(),
        0 <= i < sent_in_block(
            input,
            p.channel as u8,
            block_start(m, p).tick_events(playing),
        ).len(),
    ensures
        ({
            let sent = sent_in_block(
                input,
                p.channel as u8,
                block_start(m, p).tick_events(playing),
            );
            sent[i] == BlockEvent::Input(NoteEvent::Other) || sent[i].on_channel() == Some(
                p.channel as u8,
            )
        }),
{
    if i >= input.len() {
        law_synced_is_valid(m.config, p);
        law_block_events_follow_the_configuration(block_start(m, p), playing, i - input.len());
    }
}

/// Whatever the parameters are, the configuration that results is valid.
pub proof fn law_synced_is_valid(c: SenderConfig, p: CComidiParams)
    requires
        c.valid(),
    ensures
        synced(c, p).valid(),
{
    assert forall|k: int| 0 <= k < MAX_ROWS implies (#[trigger] synced(c, p).rows[k]).valid() by {
        assert(c.rows[k].valid());
    }
}

/// Sending an event on changes its channel alone, and the last channel counts.
/// An event that has no channel to change passes as it is.
pub proof fn law_retargeting_changes_the_channel_alone(ev: NoteEvent, a: u8, b: u8)
    ensures
        retargeted(retargeted(ev, a), b) == retargeted(ev, b),
        ev !is Other ==> retargeted(ev, a).on_channel() == Some(a),
        retargeted(ev, a) is Other <==> ev is Other,
        retargeted(ev, a) is NoteOn <==> ev is NoteOn,
        retargeted(ev, a) is NoteOff <==> ev is NoteOff,
        retargeted(ev, a) is Choke <==> ev is Choke,
        retargeted(ev, a) is PolyPressure <==> ev is PolyPressure,
        retargeted(ev, a) is MidiChannelPressure <==> ev is MidiChannelPressure,
        retargeted(ev, a) is MidiPitchBend <==> ev is MidiPitchBend,
        retargeted(ev, a) is MidiCC <==> ev is MidiCC,
        retargeted(ev, a) is MidiProgramChange <==> ev is MidiProgramChange,
{
}

/// What the sender is set to once the parameters are taken over: every switch is
/// on exactly if its parameter is, whatever the other parameters are; a dynamic
/// row has the command of the same name; the channel is at most 15, and all other
/// values are at most 127. The fields of a fixed row that have no parameter stay,
/// and so does what the sender remembers.
pub proof fn law_every_parameter_is_taken_over(m: SenderModel, p: CComidiParams, i: int)
    requires
        m.valid(),
    ensures
        ({
            let c = block_start(m, p).config;
            &&& c == synced(m.config, p)
            &&& c.channel == at_most(p.channel as u8, 15)
            &&& c.program == at_most(p.program as u8, 127)
            &&& c.program_enabled == p.program_enabled
            &&& c.rows.len() == 16
            &&& 0 <= i < 4 ==> {
                let (row, before, r) = (c.rows[i], m.config.rows[i], p.fixed_rows@[i]);
                &&& row.enabled == r.enabled
                &&& row.cmd == before.cmd
                &&& row.fields.len() == 4
                &&& row.fields[0] == at_most(r.value as u8, 127)
                &&& row.fields[1] == before.fields[1]
                &&& row.fields[2] == before.fields[2]
                &&& row.fields[3] == before.fields[3]
            }
            &&& 0 <= i < 12 ==> {
                let (row, r) = (c.rows[4 + i], p.dyn_rows@[i]);
                &&& row.enabled == r.enabled
                &&& row.cmd == assigned_command(r.cmd)
                &&& row.fields.len() == 4
                &&& row.fields[0] == at_most(r.f0 as u8, 127)
                &&& row.fields[1] == at_most(r.f1 as u8, 127)
                &&& row.fields[2] == at_most(r.f2 as u8, 127)
                &&& row.fields[3] == at_most(r.f3 as u8, 127)
            }
        }),
        block_start(m, p).runtime == m.runtime,
{
    if 0 <= i < 4 {
        assert(m.config.rows[i].valid());
    }
}

/// Each kind of event with a channel goes to the new channel as the same kind, and
/// any other event stays as it is.
pub proof fn law_every_kind_is_retargeted(from: u8, to: u8)
    ensures
        retargeted(NoteEvent::NoteOn { channel: from }, to) == (NoteEvent::NoteOn { channel: to }),
        retargeted(NoteEvent::NoteOff { channel: from }, to) == (NoteEvent::NoteOff {
            channel: to,
        }),
        retargeted(NoteEvent::Choke { channel: from }, to) == (NoteEvent::Choke { channel: to }),
        retargeted(NoteEvent::PolyPressure { channel: from }, to) == (NoteEvent::PolyPressure {
            channel: to,
        }),
        retargeted(NoteEvent::MidiChannelPressure { channel: from }, to) == (
        NoteEvent::MidiChannelPressure { channel: to }),
        retargeted(NoteEvent::MidiPitchBend { channel: from }, to) == (NoteEvent::MidiPitchBend {
            channel: to,
        }),
        retargeted(NoteEvent::MidiCC { channel: from }, to) == (NoteEvent::MidiCC { channel: to }),
        retargeted(NoteEvent::MidiProgramChange { channel: from }, to) == (
        NoteEvent::MidiProgramChange { channel: to }),
        retargeted(NoteEvent::Other, to) == NoteEvent::Other,
        (NoteEvent::NoteOn { channel: from }).on_channel() == Some(from),
        (NoteEvent::NoteOff { channel: from }).on_channel() == Some(from),
        (NoteEvent::Choke { channel: from }).on_channel() == Some(from),
        (NoteEvent::PolyPressure { channel: from }).on_channel() == Some(from),
        (NoteEvent::MidiChannelPressure { channel: from }).on_channel() == Some(from),
        (NoteEvent::MidiPitchBend { channel: from }).on_channel() == Some(from),
        (NoteEvent::MidiCC { channel: from }).on_channel() == Some(from),
        (NoteEvent::MidiProgramChange { channel: from }).on_channel() == Some(from),
        NoteEvent::Other.on_channel() is None,
{
}

/// A block sends on each input event for itself: one more event at the end of the
/// input is one more event sent, behind the others and before what is emitted.
pub proof fn law_each_input_event_counts_for_itself(
    input: Seq<NoteEvent>,
    more: NoteEvent,
    channel: u8,
    emitted: Seq<Emission>,
)
    ensures
        sent_in_block(input.push(more), channel, emitted) == sent_in_block(
            input,
            channel,
            emitted,
        ).insert(input.len() as int, BlockEvent::Input(retargeted(more, channel))),
{
    let all = sent_in_block(input.push(more), channel, emitted);
    let fewer = sent_in_block(input, channel, emitted);
    let put = fewer.insert(input.len() as int, BlockEvent::Input(retargeted(more, channel)));
    assert(all.len() == put.len());
    assert forall|i: int| 0 <= i < all.len() implies #[trigger] all[i] == put[i] by {}
    assert(all == put);
}

} // verus!
