//! Laws of the sender: what it promises about sequences of calls and about all
//! configurations.

use vstd::prelude::*;
use crate::command::{CommandType, FIXED_ROW_COUNT, MAX_FIELDS, MAX_ROWS};
use crate::encode::{encoding, law_messages_are_seven_bit, CcMessage};
use crate::model::{
    cc_events, clamp_127, enabled_rows_events, lemma_diff_with_nothing_sent, program_events,
    row_events, rows_events, snapshot_events, Emission, SenderConfig, SenderModel, SenderRuntime,
};

verus! {

/// The sender with another configuration and the same memory.
pub open spec fn reconfigured(m: SenderModel, config: SenderConfig) -> SenderModel {
    SenderModel { config, ..m }
}

/// Rows whose messages have been sent emit nothing, save for row `row`.
proof fn lemma_rows_but_one_sent(
    config: SenderConfig,
    sent: Seq<Option<Seq<CcMessage>>>,
    row: int,
    n: nat,
    timing: u32,
)
    requires
        forall|i: int| 0 <= i < n && i != row ==> #[trigger] sent[i] == config.wanted_row(i),
    ensures
        rows_events(config, sent, n, timing) == if 0 <= row < n {
            row_events(config, row, sent[row], timing)
        } else {
            seq![]
        },
    decreases n,
{
    if n > 0 {
        lemma_rows_but_one_sent(config, sent, row, (n - 1) as nat, timing);
        if n - 1 != row {
            assert(sent[n - 1] == config.wanted_row(n - 1));
        }
    }
}

/// Every event of the rows is a message of an enabled row.
proof fn lemma_row_event_origin(
    config: SenderConfig,
    sent: Seq<Option<Seq<CcMessage>>>,
    n: nat,
    timing: u32,
    k: int,
) -> (row: int)
    requires
        0 <= k < rows_events(config, sent, n, timing).len(),
    ensures
        0 <= row < n,
        config.rows[row].enabled,
        cc_events(
            encoding(config.command(row), config.rows[row].fields),
            timing,
            config.channel,
        ).contains(rows_events(config, sent, n, timing)[k]),
    decreases n,
{
    let before = rows_events(config, sent, (n - 1) as nat, timing);
    let last = row_events(config, n - 1, sent[n - 1], timing);
    if k < before.len() {
        lemma_row_event_origin(config, sent, (n - 1) as nat, timing, k)
    } else {
        assert(rows_events(config, sent, n, timing)[k] == last[k - before.len()]);
        n - 1
    }
}

/// The messages of an enabled row are among the events of all enabled rows.
proof fn lemma_enabled_row_contained(
    config: SenderConfig,
    n: nat,
    timing: u32,
    row: int,
    event: Emission,
)
    requires
        0 <= row < n,
        config.rows[row].enabled,
        cc_events(
            encoding(config.command(row), config.rows[row].fields),
            timing,
            config.channel,
        ).contains(event),
    ensures
        enabled_rows_events(config, n, timing).contains(event),
    decreases n,
{
    let before = enabled_rows_events(config, (n - 1) as nat, timing);
    let all = enabled_rows_events(config, n, timing);
    if row < n - 1 {
        lemma_enabled_row_contained(config, (n - 1) as nat, timing, row, event);
        let i = choose|i: int| 0 <= i < before.len() && before[i] == event;
        assert(all[i] == event);
    } else {
        let own = cc_events(config.wanted_row(row)->0, timing, config.channel);
        let i = choose|i: int| 0 <= i < own.len() && own[i] == event;
        assert(all[before.len() + i] == event);
    }
}

/// Configurations that want the same of the first `n` rows emit the same for
/// them.
proof fn lemma_enabled_rows_congruent(a: SenderConfig, b: SenderConfig, n: nat, timing: u32)
    requires
        a.channel == b.channel,
        forall|i: int| 0 <= i < n ==> #[trigger] a.wanted_row(i) == b.wanted_row(i),
    ensures
        enabled_rows_events(a, n, timing) == enabled_rows_events(b, n, timing),
    decreases n,
{
    if n > 0 {
        lemma_enabled_rows_congruent(a, b, (n - 1) as nat, timing);
        assert(a.wanted_row(n - 1) == b.wanted_row(n - 1));
    }
}

/// The channel stays in 0 to 15, and the program and all fields in 0 to 127,
/// whatever the setters are called with.
pub proof fn law_setters_keep_configuration_valid(
    c: SenderConfig,
    row: int,
    field: int,
    value: u8,
    enabled: bool,
    cmd: CommandType,
)
    requires
        c.valid(),
    ensures
        SenderConfig::initial().valid(),
        c.with_channel(value).valid(),
        c.with_program(value).valid(),
        c.with_program_enabled(enabled).valid(),
        c.with_row_enabled(row, enabled).valid(),
        c.with_row_cmd(row, cmd).valid(),
        c.with_row_field(row, field, value).valid(),
{
    if 0 <= row < MAX_ROWS {
        assert(c.rows[row].valid());
    }
}

/// Emission never touches the configuration, and keeps the sender valid.
pub proof fn law_emission_keeps_configuration(m: SenderModel, playing: bool)
    requires
        m.valid(),
    ensures
        m.after_tick(playing).config == m.config,
        m.after_emission().config == m.config,
        m.after_tick(playing).valid(),
        m.after_emission().valid(),
{
}

/// Setting what is already set changes nothing.
pub proof fn law_setting_the_same_is_a_noop(c: SenderConfig, row: int, field: int)
    requires
        c.valid(),
    ensures
        c.with_channel(c.channel) == c,
        c.with_program(c.program) == c,
        c.with_program_enabled(c.program_enabled) == c,
        c.with_row_enabled(row, c.rows[row].enabled) == c,
        c.with_row_cmd(row, c.rows[row].cmd) == c,
        c.with_row_field(row, field, c.rows[row].fields[field]) == c,
{
    if 0 <= row < MAX_ROWS {
        assert(c.rows[row].valid());
        assert(c.rows.update(row, c.rows[row]) == c.rows);
        if 0 <= field < MAX_FIELDS {
            let same = c.rows[row].fields.update(field, c.rows[row].fields[field]);
            assert(same == c.rows[row].fields);
        }
    }
}

/// What a setter stores is what the row then holds, clamped, and every other
/// row and field stays as it was.
pub proof fn law_row_setters_are_local(
    c: SenderConfig,
    row: int,
    field: int,
    value: u8,
    enabled: bool,
    cmd: CommandType,
    other: int,
    other_field: int,
)
    requires
        c.valid(),
        0 <= row < MAX_ROWS,
        0 <= field < MAX_FIELDS,
        0 <= other < MAX_ROWS,
        0 <= other_field < MAX_FIELDS,
    ensures
        c.with_row_enabled(row, enabled).rows[row].enabled == enabled,
        c.with_row_field(row, field, value).rows[row].fields[field] == clamp_127(value),
        row >= FIXED_ROW_COUNT ==> c.with_row_cmd(row, cmd).command(row) == cmd,
        other != row ==> {
            &&& c.with_row_enabled(row, enabled).rows[other] == c.rows[other]
            &&& c.with_row_cmd(row, cmd).rows[other] == c.rows[other]
            &&& c.with_row_field(row, field, value).rows[other] == c.rows[other]
        },
        other_field != field ==> c.with_row_field(row, field, value).rows[row].fields[other_field]
            == c.rows[row].fields[other_field],
{
    assert(c.rows[row].valid());
}

/// A fixed row always emits the command that it is bound to: it cannot be
/// assigned another, and no configuration changes what it resolves to.
pub proof fn law_fixed_rows_are_pinned(c: SenderConfig, row: int, cmd: CommandType)
    requires
        0 <= row < FIXED_ROW_COUNT,
    ensures
        c.with_row_cmd(row, cmd) == c,
        Some(c.command(row)) == CommandType::bound_to(row),
        c.command(row).code() == row,
{
}

/// While the transport is stopped nothing is emitted, and what was sent is
/// remembered as it was.
pub proof fn law_stopped_is_silent(m: SenderModel)
    ensures
        m.tick_events(false) == Seq::<Emission>::empty(),
        m.after_tick(false) == (SenderModel {
            runtime: SenderRuntime { playing: false, ..m.runtime },
            ..m
        }),
{
}

/// When playback starts, everything that is enabled is emitted, as if nothing
/// had been sent before.
pub proof fn law_start_emits_a_snapshot(m: SenderModel)
    requires
        !m.runtime.playing,
    ensures
        m.tick_events(true) == snapshot_events(m.config, 0),
        m.tick_events(true) == (SenderModel { runtime: m.runtime.forgotten(), ..m }).diff_events(0),
{
    lemma_diff_with_nothing_sent(SenderModel { runtime: m.runtime.forgotten(), ..m }, 0);
}

/// While playback goes on and nothing changes, nothing is emitted again, and
/// the sender has reached a fixed point.
pub proof fn law_unchanged_playback_is_silent(m: SenderModel)
    requires
        m.valid(),
    ensures
        m.after_tick(true).tick_events(true) == Seq::<Emission>::empty(),
        m.after_tick(true).after_tick(true) == m.after_tick(true),
{
    law_emission_leaves_nothing_to_send(m.after_tick(true), 0);
    assert(m.after_tick(true).after_emission() == m.after_tick(true));
}

/// After an emission there is nothing left to emit, at whatever offset.
pub proof fn law_emission_leaves_nothing_to_send(m: SenderModel, timing: u32)
    requires
        m.valid(),
    ensures
        m.after_emission().diff_events(timing) == Seq::<Emission>::empty(),
        m.after_emission().after_emission() == m.after_emission(),
{
    let after = m.after_emission();
    assert(after.runtime.rows.len() == MAX_ROWS);
    lemma_rows_but_one_sent(m.config, after.runtime.rows, -1, MAX_ROWS as nat, timing);
}

/// Stopping and starting again emits the full snapshot again.
pub proof fn law_restart_emits_the_snapshot_again(m: SenderModel)
    ensures
        m.after_tick(true).after_tick(false).tick_events(true) == snapshot_events(m.config, 0),
        !m.runtime.playing ==> m.after_tick(true).after_tick(false).tick_events(true)
            == m.tick_events(true),
{
}

/// Forgetting the runtime makes the next block of playback a start, with the
/// configuration as it was.
pub proof fn law_reset_runtime_makes_the_next_block_a_start(m: SenderModel)
    ensures
        (SenderModel { runtime: SenderRuntime::initial(), ..m }).tick_events(true)
            == snapshot_events(m.config, 0),
{
}

/// After a change of channel everything that is enabled is emitted again, on the
/// new channel.
pub proof fn law_channel_change_re_emits_everything(m: SenderModel, channel: u8)
    requires
        m.config.with_channel(channel).channel != m.config.channel,
    ensures
        reconfigured(m.after_tick(true), m.config.with_channel(channel)).tick_events(true)
            == snapshot_events(m.config.with_channel(channel), 0),
{
    lemma_diff_with_nothing_sent(
        reconfigured(m.after_tick(true), m.config.with_channel(channel)),
        0,
    );
}

/// When the configuration changes during playback in what one row wants, then
/// the messages of that row are emitted and nothing else; where the row is
/// disabled or wants what it wanted before, nothing is.
pub proof fn law_only_the_changed_row_is_sent(m: SenderModel, config: SenderConfig, row: int)
    requires
        m.valid(),
        0 <= row < MAX_ROWS,
        config.channel == m.config.channel,
        config.wanted_program() == m.config.wanted_program(),
        forall|i: int|
            0 <= i < MAX_ROWS && i != row ==> #[trigger] config.wanted_row(i)
                == m.config.wanted_row(i),
    ensures
        reconfigured(m.after_tick(true), config).tick_events(true) == if config.rows[row].enabled
            && config.wanted_row(row) != m.config.wanted_row(row) {
            cc_events(
                encoding(config.command(row), config.rows[row].fields),
                0,
                config.channel,
            )
        } else {
            seq![]
        },
{
    let sent = m.after_tick(true).runtime;
    assert forall|i: int| 0 <= i < MAX_ROWS && i != row implies #[trigger] sent.rows[i]
        == config.wanted_row(i) by {
        assert(config.wanted_row(i) == m.config.wanted_row(i));
    }
    lemma_rows_but_one_sent(config, sent.rows, row, MAX_ROWS as nat, 0);
}

/// Moving a field of an enabled row during playback emits that row and nothing
/// else, if the row's command uses the field in a way that changes its messages.
pub proof fn law_automated_field_emits_its_row(m: SenderModel, row: int, field: int, value: u8)
    requires
        m.valid(),
        0 <= row < MAX_ROWS,
        0 <= field < MAX_FIELDS,
    ensures
        ({
            let config = m.config.with_row_field(row, field, value);
            let events = reconfigured(m.after_tick(true), config).tick_events(true);
            let messages = encoding(config.command(row), config.rows[row].fields);
            if m.config.rows[row].enabled && messages != encoding(
                m.config.command(row),
                m.config.rows[row].fields,
            ) {
                events == cc_events(messages, 0, config.channel)
            } else {
                events == Seq::<Emission>::empty()
            }
        }),
{
    let config = m.config.with_row_field(row, field, value);
    assert forall|i: int| 0 <= i < MAX_ROWS && i != row implies #[trigger] config.wanted_row(i)
        == m.config.wanted_row(i) by {
        assert(config.rows[i] == m.config.rows[i]);
    }
    law_only_the_changed_row_is_sent(m, config, row);
}

/// Disabling a row during playback emits nothing. Enabling it again emits its
/// messages again, though they are the same as before.
pub proof fn law_row_toggle_re_emits(m: SenderModel, row: int)
    requires
        m.valid(),
        0 <= row < MAX_ROWS,
        m.config.rows[row].enabled,
    ensures
        ({
            let off = reconfigured(m.after_tick(true), m.config.with_row_enabled(row, false));
            let on = reconfigured(off.after_tick(true), off.config.with_row_enabled(row, true));
            &&& off.tick_events(true) == Seq::<Emission>::empty()
            &&& on.config == m.config
            &&& on.tick_events(true) == cc_events(
                encoding(m.config.command(row), m.config.rows[row].fields),
                0,
                m.config.channel,
            )
        }),
{
    let config_off = m.config.with_row_enabled(row, false);
    let off = reconfigured(m.after_tick(true), config_off);
    assert(m.config.rows[row].valid());
    assert forall|i: int| 0 <= i < MAX_ROWS && i != row implies #[trigger] config_off.wanted_row(i)
        == m.config.wanted_row(i) by {
        assert(config_off.rows[i] == m.config.rows[i]);
    }
    law_only_the_changed_row_is_sent(m, config_off, row);
    let config_on = config_off.with_row_enabled(row, true);
    assert(config_on.rows == m.config.rows);
    assert(config_on == m.config);
    assert(off.valid());
    law_only_the_changed_row_is_sent(off, config_on, row);
}

/// When only the wanted program changes during playback, then the program
/// change is emitted, if program changes are enabled, and nothing else.
pub proof fn law_only_the_changed_program_is_sent(m: SenderModel, config: SenderConfig)
    requires
        m.valid(),
        config.channel == m.config.channel,
        forall|i: int|
            0 <= i < MAX_ROWS ==> #[trigger] config.wanted_row(i) == m.config.wanted_row(i),
    ensures
        reconfigured(m.after_tick(true), config).tick_events(true) == if config.program_enabled
            && config.wanted_program() != m.config.wanted_program() {
            seq![Emission::Program { timing: 0, channel: config.channel, program: config.program }]
        } else {
            seq![]
        },
{
    let sent = m.after_tick(true).runtime;
    assert forall|i: int| 0 <= i < MAX_ROWS implies #[trigger] sent.rows[i] == config.wanted_row(
        i,
    ) by {
        assert(config.wanted_row(i) == m.config.wanted_row(i));
    }
    lemma_rows_but_one_sent(config, sent.rows, -1, MAX_ROWS as nat, 0);
}

/// Disabling program changes during playback emits nothing. Enabling them again
/// emits the program again, though it is the same as before.
pub proof fn law_program_toggle_re_emits(m: SenderModel)
    requires
        m.valid(),
        m.config.program_enabled,
    ensures
        ({
            let off = reconfigured(m.after_tick(true), m.config.with_program_enabled(false));
            let on = reconfigured(off.after_tick(true), off.config.with_program_enabled(true));
            &&& off.tick_events(true) == Seq::<Emission>::empty()
            &&& on.config == m.config
            &&& on.tick_events(true) == seq![
                Emission::Program {
                    timing: 0,
                    channel: m.config.channel,
                    program: m.config.program,
                },
            ]
        }),
{
    let config_off = m.config.with_program_enabled(false);
    let off = reconfigured(m.after_tick(true), config_off);
    let config_on = config_off.with_program_enabled(true);
    assert forall|i: int| 0 <= i < MAX_ROWS implies #[trigger] config_off.wanted_row(i)
        == m.config.wanted_row(i) by {}
    law_only_the_changed_program_is_sent(m, config_off);
    assert forall|i: int| 0 <= i < MAX_ROWS implies #[trigger] config_on.wanted_row(i)
        == config_off.wanted_row(i) by {}
    law_only_the_changed_program_is_sent(off, config_on);
}

/// Whether event `k` of an emission at `timing` is as the configuration has it:
/// at that offset, on the configured channel, and a well-formed MIDI message. A
/// program change can only be the first event, needs program changes to be
/// enabled, and names the configured program. A control change is a message of
/// an enabled row.
pub open spec fn follows(config: SenderConfig, timing: u32, event: Emission, k: int) -> bool {
    &&& event.at() == timing
    &&& event.on_channel() == config.channel
    &&& event.is_midi()
    &&& event matches Emission::Program { program, .. } ==> {
        &&& k == 0
        &&& config.program_enabled
        &&& program == config.program
    }
    &&& event is Cc ==> exists|row: int|
        {
            &&& 0 <= row < MAX_ROWS
            &&& (#[trigger] config.rows[row]).enabled
            &&& cc_events(
                encoding(config.command(row), config.rows[row].fields),
                timing,
                config.channel,
            ).contains(event)
        }
}

/// Every event of an emission is as the configuration has it.
pub proof fn law_events_follow_the_configuration(m: SenderModel, timing: u32, k: int)
    requires
        m.valid(),
        0 <= k < m.diff_events(timing).len(),
    ensures
        follows(m.config, timing, m.diff_events(timing)[k], k),
{
    let sent = m.runtime.relative_to(m.config.channel);
    let head = program_events(m.config, sent.program, timing);
    let tail = rows_events(m.config, sent.rows, MAX_ROWS as nat, timing);
    if k >= head.len() {
        let event = m.diff_events(timing)[k];
        assert(event == tail[k - head.len()]);
        let row = lemma_row_event_origin(
            m.config,
            sent.rows,
            MAX_ROWS as nat,
            timing,
            k - head.len(),
        );
        let fields = m.config.rows[row].fields;
        let own = cc_events(encoding(m.config.command(row), fields), timing, m.config.channel);
        let j = choose|j: int| 0 <= j < own.len() && own[j] == event;
        assert(m.config.rows[row].valid());
        law_messages_are_seven_bit(m.config.command(row), fields, j);
    }
}

/// Every event of a full snapshot is as the configuration has it.
pub proof fn law_snapshot_follows_the_configuration(config: SenderConfig, timing: u32, k: int)
    requires
        config.valid(),
        0 <= k < snapshot_events(config, timing).len(),
    ensures
        follows(config, timing, snapshot_events(config, timing)[k], k),
{
    let m = SenderModel { config, runtime: SenderRuntime::initial() };
    lemma_diff_with_nothing_sent(m, timing);
    law_events_follow_the_configuration(m, timing, k);
}

/// Every event of an audio block is as the configuration has it, at the start of
/// the block.
pub proof fn law_block_events_follow_the_configuration(m: SenderModel, playing: bool, k: int)
    requires
        m.valid(),
        0 <= k < m.tick_events(playing).len(),
    ensures
        playing,
        follows(m.config, 0, m.tick_events(playing)[k], k),
{
    if m.runtime.playing {
        law_events_follow_the_configuration(m, 0, k);
    } else {
        law_snapshot_follows_the_configuration(m.config, 0, k);
    }
}

/// Nothing is ever emitted that a full snapshot would not emit too.
pub proof fn law_changes_are_part_of_the_snapshot(m: SenderModel, timing: u32, k: int)
    requires
        m.valid(),
        0 <= k < m.diff_events(timing).len(),
    ensures
        snapshot_events(m.config, timing).contains(m.diff_events(timing)[k]),
{
    let sent = m.runtime.relative_to(m.config.channel);
    let head = program_events(m.config, sent.program, timing);
    let event = m.diff_events(timing)[k];
    let rows = enabled_rows_events(m.config, MAX_ROWS as nat, timing);
    let all = snapshot_events(m.config, timing);
    if k < head.len() {
        assert(all[0] == event);
    } else {
        let row = lemma_row_event_origin(
            m.config,
            sent.rows,
            MAX_ROWS as nat,
            timing,
            k - head.len(),
        );
        lemma_enabled_row_contained(m.config, MAX_ROWS as nat, timing, row, event);
        let i = choose|i: int| 0 <= i < rows.len() && rows[i] == event;
        assert(all[all.len() - rows.len() + i] == event);
    }
}

/// What a disabled row holds, and the program while program changes are
/// disabled, have no influence on a snapshot.
pub proof fn law_disabled_settings_are_silent(a: SenderConfig, b: SenderConfig, timing: u32)
    requires
        a.channel == b.channel,
        a.program_enabled == b.program_enabled,
        a.program_enabled ==> a.program == b.program,
        forall|i: int|
            0 <= i < MAX_ROWS ==> (#[trigger] a.rows[i]).enabled == b.rows[i].enabled && (
            a.rows[i].enabled ==> a.command(i) == b.command(i) && a.rows[i].fields
                == b.rows[i].fields),
    ensures
        snapshot_events(a, timing) == snapshot_events(b, timing),
{
    assert forall|i: int| 0 <= i < MAX_ROWS implies #[trigger] a.wanted_row(i) == b.wanted_row(
        i,
    ) by {
        assert(a.rows[i].enabled == b.rows[i].enabled);
    }
    lemma_enabled_rows_congruent(a, b, MAX_ROWS as nat, timing);
}

} // verus!
