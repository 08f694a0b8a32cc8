//! Mathematical model of the sender: its configuration, what it remembers of
//! what it sent, and which events each step emits.

use vstd::prelude::*;
use crate::command::{CommandType, MAX_FIELDS, MAX_ROWS};
use crate::encode::{encoding, CcMessage};

verus! {

/// One event that the sender hands to its sink. `timing` is the sample offset
/// within the current audio block.
#[derive(Debug, Copy, Clone, PartialEq, Eq, Structural)]
pub enum Emission {
    /// A MIDI Control Change.
    Cc { timing: u32, channel: u8, cc: u8, value: u8 },
    /// A MIDI Program Change.
    Program { timing: u32, channel: u8, program: u8 },
}

impl Emission {
    /// The channel that the event is sent on.
    pub open spec fn on_channel(self) -> u8 {
        match self {
            Emission::Cc { channel, .. } => channel,
            Emission::Program { channel, .. } => channel,
        }
    }

    /// The sample offset that the event carries.
    pub open spec fn at(self) -> u32 {
        match self {
            Emission::Cc { timing, .. } => timing,
            Emission::Program { timing, .. } => timing,
        }
    }

    /// Channel in 0 to 15 and all data bytes in the 7-bit range.
    pub open spec fn is_midi(self) -> bool {
        match self {
            Emission::Cc { channel, cc, value, .. } => channel <= 15 && cc <= 127 && value <= 127,
            Emission::Program { channel, program, .. } => channel <= 15 && program <= 127,
        }
    }
}

/// The closest value in the MIDI 7-bit data range.
pub open spec fn clamp_127(v: u8) -> u8 {
    if v > 127 {
        127
    } else {
        v
    }
}

/// The closest MIDI channel.
pub open spec fn clamp_channel(channel: u8) -> u8 {
    if channel > 15 {
        15
    } else {
        channel
    }
}

/// What can be configured for one row.
#[verifier::ext_equal]
pub struct RowModel {
    pub enabled: bool,
    pub cmd: CommandType,
    pub fields: Seq<u8>,
}

impl RowModel {
    /// A disabled row without a command.
    pub open spec fn initial() -> RowModel {
        RowModel {
            enabled: false,
            cmd: CommandType::NoCommand,
            fields: Seq::new(MAX_FIELDS as nat, |i: int| 0u8),
        }
    }

    /// Every field is a 7-bit value.
    pub open spec fn valid(self) -> bool {
        &&& self.fields.len() == MAX_FIELDS
        &&& forall|i: int| 0 <= i < MAX_FIELDS ==> #[trigger] self.fields[i] <= 127
    }
}

/// The configuration of the sender.
#[verifier::ext_equal]
pub struct SenderConfig {
    pub channel: u8,
    pub program: u8,
    pub program_enabled: bool,
    pub rows: Seq<RowModel>,
}

impl SenderConfig {
    /// Channel 0, program 0, nothing enabled.
    pub open spec fn initial() -> SenderConfig {
        SenderConfig {
            channel: 0,
            program: 0,
            program_enabled: false,
            rows: Seq::new(MAX_ROWS as nat, |i: int| RowModel::initial()),
        }
    }

    /// The channel is one of the 16 MIDI channels, and the program and all
    /// fields are 7-bit values.
    pub open spec fn valid(self) -> bool {
        &&& self.channel <= 15
        &&& self.program <= 127
        &&& self.rows.len() == MAX_ROWS
        &&& forall|i: int| 0 <= i < MAX_ROWS ==> (#[trigger] self.rows[i]).valid()
    }

    /// What a row emits when enabled: the bound command of a fixed row, else the
    /// one assigned to it, else none.
    pub open spec fn command(self, row: int) -> CommandType {
        match CommandType::bound_to(row) {
            Some(cmd) => cmd,
            None => if 0 <= row < self.rows.len() {
                self.rows[row].cmd
            } else {
                CommandType::NoCommand
            },
        }
    }

    /// The program that the receiver should have, if the sender is to set one.
    pub open spec fn wanted_program(self) -> Option<u8> {
        if self.program_enabled {
            Some(self.program)
        } else {
            None
        }
    }

    /// The messages that the receiver should have got from a row, if enabled.
    pub open spec fn wanted_row(self, row: int) -> Option<Seq<CcMessage>> {
        if self.rows[row].enabled {
            Some(encoding(self.command(row), self.rows[row].fields))
        } else {
            None
        }
    }

    pub open spec fn with_channel(self, channel: u8) -> SenderConfig {
        SenderConfig { channel: clamp_channel(channel), ..self }
    }

    pub open spec fn with_program(self, program: u8) -> SenderConfig {
        SenderConfig { program: clamp_127(program), ..self }
    }

    pub open spec fn with_program_enabled(self, enabled: bool) -> SenderConfig {
        SenderConfig { program_enabled: enabled, ..self }
    }

    /// A row out of range is ignored.
    pub open spec fn with_row_enabled(self, row: int, enabled: bool) -> SenderConfig {
        if 0 <= row < self.rows.len() {
            SenderConfig {
                rows: self.rows.update(row, RowModel { enabled, ..self.rows[row] }),
                ..self
            }
        } else {
            self
        }
    }

    /// A fixed row, or a row out of range, is left as it is.
    pub open spec fn with_row_cmd(self, row: int, cmd: CommandType) -> SenderConfig {
        if CommandType::bound_to(row) is None && 0 <= row < self.rows.len() {
            SenderConfig { rows: self.rows.update(row, RowModel { cmd, ..self.rows[row] }), ..self }
        } else {
            self
        }
    }

    /// A row or a field out of range is ignored.
    pub open spec fn with_row_field(self, row: int, field: int, value: u8) -> SenderConfig {
        if 0 <= row < self.rows.len() && 0 <= field < MAX_FIELDS {
            let fields = self.rows[row].fields.update(field, clamp_127(value));
            SenderConfig {
                rows: self.rows.update(row, RowModel { fields, ..self.rows[row] }),
                ..self
            }
        } else {
            self
        }
    }
}

/// What the sender remembers: the last transport state, and what it last sent.
/// `None` stands for nothing sent, or for something disabled since.
#[verifier::ext_equal]
pub struct SenderRuntime {
    pub playing: bool,
    pub channel: Option<u8>,
    pub program: Option<u8>,
    pub rows: Seq<Option<Seq<CcMessage>>>,
}

impl SenderRuntime {
    /// Stopped, and nothing sent.
    pub open spec fn initial() -> SenderRuntime {
        SenderRuntime {
            playing: false,
            channel: None,
            program: None,
            rows: Seq::new(MAX_ROWS as nat, |i: int| None),
        }
    }

    /// The same transport state with everything sent forgotten.
    pub open spec fn forgotten(self) -> SenderRuntime {
        SenderRuntime { playing: self.playing, ..SenderRuntime::initial() }
    }

    /// Everything that `config` wants has been sent.
    pub open spec fn up_to_date(playing: bool, config: SenderConfig) -> SenderRuntime {
        SenderRuntime {
            playing,
            channel: Some(config.channel),
            program: config.wanted_program(),
            rows: Seq::new(MAX_ROWS as nat, |i: int| config.wanted_row(i)),
        }
    }

    /// What a sender on `channel` may rely on: nothing that went to another
    /// channel.
    pub open spec fn relative_to(self, channel: u8) -> SenderRuntime {
        if self.channel == Some(channel) {
            self
        } else {
            self.forgotten()
        }
    }
}

/// The messages of one row as events.
pub open spec fn cc_events(messages: Seq<CcMessage>, timing: u32, channel: u8) -> Seq<Emission> {
    Seq::new(
        messages.len(),
        |i: int| Emission::Cc { timing, channel, cc: messages[i].cc, value: messages[i].value },
    )
}

/// The program change that brings a receiver with program `sent` up to date.
pub open spec fn program_events(
    config: SenderConfig,
    sent: Option<u8>,
    timing: u32,
) -> Seq<Emission> {
    match config.wanted_program() {
        Some(program) => if sent != Some(program) {
            seq![Emission::Program { timing, channel: config.channel, program }]
        } else {
            seq![]
        },
        None => seq![],
    }
}

/// The messages that bring a receiver that got `sent` from a row up to date.
pub open spec fn row_events(
    config: SenderConfig,
    row: int,
    sent: Option<Seq<CcMessage>>,
    timing: u32,
) -> Seq<Emission> {
    match config.wanted_row(row) {
        Some(messages) => if sent != Some(messages) {
            cc_events(messages, timing, config.channel)
        } else {
            seq![]
        },
        None => seq![],
    }
}

/// The events of the first `n` rows, in order.
pub open spec fn rows_events(
    config: SenderConfig,
    sent: Seq<Option<Seq<CcMessage>>>,
    n: nat,
    timing: u32,
) -> Seq<Emission>
    decreases n,
{
    if n == 0 {
        seq![]
    } else {
        rows_events(config, sent, (n - 1) as nat, timing) + row_events(
            config,
            n - 1,
            sent[n - 1],
            timing,
        )
    }
}

/// The events of the first `n` rows that are enabled, in order.
pub open spec fn enabled_rows_events(config: SenderConfig, n: nat, timing: u32) -> Seq<Emission>
    decreases n,
{
    if n == 0 {
        seq![]
    } else {
        let before = enabled_rows_events(config, (n - 1) as nat, timing);
        match config.wanted_row(n - 1) {
            Some(messages) => before + cc_events(messages, timing, config.channel),
            None => before,
        }
    }
}

/// Everything that `config` wants: the program change, if enabled, followed by
/// the messages of every enabled row.
pub open spec fn snapshot_events(config: SenderConfig, timing: u32) -> Seq<Emission> {
    let program = if config.program_enabled {
        seq![Emission::Program { timing, channel: config.channel, program: config.program }]
    } else {
        seq![]
    };
    program + enabled_rows_events(config, MAX_ROWS as nat, timing)
}

/// The sender as a whole.
#[verifier::ext_equal]
pub struct SenderModel {
    pub config: SenderConfig,
    pub runtime: SenderRuntime,
}

impl SenderModel {
    pub open spec fn initial() -> SenderModel {
        SenderModel { config: SenderConfig::initial(), runtime: SenderRuntime::initial() }
    }

    pub open spec fn valid(self) -> bool {
        self.config.valid() && self.runtime.rows.len() == MAX_ROWS
    }

    /// What has changed since the last emission, counting everything as changed
    /// when that went to another channel.
    pub open spec fn diff_events(self, timing: u32) -> Seq<Emission> {
        let sent = self.runtime.relative_to(self.config.channel);
        program_events(self.config, sent.program, timing) + rows_events(
            self.config,
            sent.rows,
            MAX_ROWS as nat,
            timing,
        )
    }

    /// The sender once the receiver is up to date.
    pub open spec fn after_emission(self) -> SenderModel {
        SenderModel {
            runtime: SenderRuntime::up_to_date(self.runtime.playing, self.config),
            ..self
        }
    }

    /// The events of one audio block: none while stopped, a full snapshot when
    /// playback starts, and the changes while it goes on.
    pub open spec fn tick_events(self, playing: bool) -> Seq<Emission> {
        if !playing {
            seq![]
        } else if !self.runtime.playing {
            snapshot_events(self.config, 0)
        } else {
            self.diff_events(0)
        }
    }

    /// The sender after one audio block.
    pub open spec fn after_tick(self, playing: bool) -> SenderModel {
        SenderModel {
            runtime: if playing {
                SenderRuntime::up_to_date(true, self.config)
            } else {
                SenderRuntime { playing: false, ..self.runtime }
            },
            ..self
        }
    }
}

/// With nothing sent, the rows that have changed are the enabled ones.
pub proof fn lemma_rows_with_nothing_sent(
    config: SenderConfig,
    sent: Seq<Option<Seq<CcMessage>>>,
    n: nat,
    timing: u32,
)
    requires
        forall|i: int| 0 <= i < n ==> #[trigger] sent[i] is None,
    ensures
        rows_events(config, sent, n, timing) == enabled_rows_events(config, n, timing),
    decreases n,
{
    if n > 0 {
        lemma_rows_with_nothing_sent(config, sent, (n - 1) as nat, timing);
        assert(sent[n - 1] is None);
    }
}

/// With nothing sent, the changes are a full snapshot.
pub proof fn lemma_diff_with_nothing_sent(m: SenderModel, timing: u32)
    requires
        m.runtime.relative_to(m.config.channel) == m.runtime.forgotten(),
    ensures
        m.diff_events(timing) == snapshot_events(m.config, timing),
{
    lemma_rows_with_nothing_sent(m.config, m.runtime.forgotten().rows, MAX_ROWS as nat, timing);
}

} // verus!
