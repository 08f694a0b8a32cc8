//! Laws of the sender as seen from the receiving end: what arrives in a block,
//! and what a receiver holds after any number of blocks.

use vstd::prelude::*;
use crate::command::CommandType;
use crate::encode::{encoding, CcMessage};
use crate::model::{
    cc_events, lemma_diff_with_nothing_sent, program_events, row_events,
    rows_events, snapshot_events, Emission, RowModel, SenderConfig, SenderModel, SenderRuntime,
};
use crate::sender_laws::{law_emission_keeps_configuration, reconfigured};

verus! {

/// The messages of a row.
pub open spec fn messages_of_row(config: SenderConfig, row: int) -> Seq<CcMessage> {
    encoding(config.command(row), config.rows[row].fields)
}

/// The program is to be sent: it is switched on, and is not what a receiver that
/// `knows` what the sender remembers has got last.
pub open spec fn program_is_due(m: SenderModel, knows: bool) -> bool {
    m.config.program_enabled && !(knows && m.runtime.program == Some(m.config.program))
}

/// A row is to be sent: it is switched on, and its messages are not what a
/// receiver that `knows` what the sender remembers has got last.
pub open spec fn row_is_due(m: SenderModel, knows: bool, row: int) -> bool {
    m.config.rows[row].enabled && !(knows && m.runtime.rows[row] == Some(
        messages_of_row(m.config, row),
    ))
}

/// The events from `starts[row]` up to `starts[row + 1]` are the messages of the
/// row, all of them and in order, if the row is to be sent, and none if it is
/// not.
pub open spec fn row_is_sent(
    events: Seq<Emission>,
    m: SenderModel,
    knows: bool,
    timing: u32,
    starts: Seq<int>,
    row: int,
) -> bool {
    let messages = messages_of_row(m.config, row);
    if row_is_due(m, knows, row) {
        &&& starts[row + 1] == starts[row] + messages.len()
        &&& forall|j: int|
            0 <= j < messages.len() ==> events[starts[row] + j] == (Emission::Cc {
                timing,
                channel: m.config.channel,
                cc: (#[trigger] messages[j]).cc,
                value: messages[j].value,
            })
    } else {
        starts[row + 1] == starts[row]
    }
}

/// The events are those of everything that is to be sent and nothing else: the
/// program change, and then the rows from the first to the sixteenth, each from
/// its place in `starts`. Whether one is sent has no influence on another.
pub open spec fn is_what_is_due(
    events: Seq<Emission>,
    m: SenderModel,
    knows: bool,
    timing: u32,
    starts: Seq<int>,
) -> bool {
    &&& starts.len() == 17
    &&& starts[16] == events.len()
    &&& if program_is_due(m, knows) {
        starts[0] == 1 && events.len() > 0 && events[0] == (Emission::Program {
            timing,
            channel: m.config.channel,
            program: m.config.program,
        })
    } else {
        starts[0] == 0
    }
    &&& forall|row: int|
        0 <= row < 16 ==> #[trigger] row_is_sent(events, m, knows, timing, starts, row)
    &&& forall|row: int| 0 <= row < 17 ==> 0 <= #[trigger] starts[row] <= events.len()
}

/// Where the events of each row begin.
proof fn lemma_rows_are_sent(
    m: SenderModel,
    knows: bool,
    sent: Seq<Option<Seq<CcMessage>>>,
    head: Seq<Emission>,
    n: nat,
    timing: u32,
) -> (starts: Seq<int>)
    requires
        n <= 16,
        forall|i: int|
            0 <= i < 16 ==> #[trigger] sent[i] == if knows {
                m.runtime.rows[i]
            } else {
                None
            },
    ensures
        starts.len() == n + 1,
        starts[0] == head.len(),
        starts[n as int] == (head + rows_events(m.config, sent, n, timing)).len(),
        forall|row: int|
            0 <= row < n ==> #[trigger] row_is_sent(
                head + rows_events(m.config, sent, n, timing),
                m,
                knows,
                timing,
                starts,
                row,
            ),
        forall|row: int|
            0 <= row <= n ==> head.len() <= #[trigger] starts[row] <= (head + rows_events(
                m.config,
                sent,
                n,
                timing,
            )).len(),
    decreases n,
{
    if n == 0 {
        seq![head.len() as int]
    } else {
        let last = n - 1;
        let before = lemma_rows_are_sent(m, knows, sent, head, last as nat, timing);
        let shorter = head + rows_events(m.config, sent, last as nat, timing);
        let own = row_events(m.config, last, sent[last], timing);
        let events = head + rows_events(m.config, sent, n, timing);
        assert(events == shorter + own);
        let starts = before.push(events.len() as int);
        assert(sent[last] == if knows {
            m.runtime.rows[last]
        } else {
            None
        });
        assert forall|row: int| 0 <= row < n implies #[trigger] row_is_sent(
            events,
            m,
            knows,
            timing,
            starts,
            row,
        ) by {
            let messages = messages_of_row(m.config, row);
            if row < last {
                assert(row_is_sent(shorter, m, knows, timing, before, row));
                assert(starts[row] == before[row] && starts[row + 1] == before[row + 1]);
                assert(before[row + 1] <= shorter.len());
                if row_is_due(m, knows, row) {
                    assert forall|j: int| 0 <= j < messages.len() implies events[starts[row] + j]
                        == (Emission::Cc {
                        timing,
                        channel: m.config.channel,
                        cc: (#[trigger] messages[j]).cc,
                        value: messages[j].value,
                    }) by {
                        assert(0 <= before[row]);
                        assert(events[starts[row] + j] == shorter[starts[row] + j]);
                    }
                }
            } else {
                assert(starts[row] == shorter.len());
                assert(starts[row + 1] == events.len());
                if row_is_due(m, knows, row) {
                    assert(own == cc_events(messages, timing, m.config.channel));
                    assert forall|j: int| 0 <= j < messages.len() implies events[starts[row] + j]
                        == (Emission::Cc {
                        timing,
                        channel: m.config.channel,
                        cc: (#[trigger] messages[j]).cc,
                        value: messages[j].value,
                    }) by {
                        assert(events[shorter.len() + j] == own[j]);
                    }
                } else {
                    assert(own.len() == 0);
                }
            }
        }
        assert forall|row: int| 0 <= row <= n implies head.len() <= #[trigger] starts[row]
            <= events.len() by {
            if row < n {
                assert(starts[row] == before[row]);
            }
        }
        starts
    }
}

/// An emission sends everything that has changed since the last one: whatever set
/// of settings has changed, the program change if the program differs from the
/// one last sent, and all messages of every row that differ from those last sent.
/// Nothing that was sent to another channel counts as sent.
pub proof fn law_every_change_is_sent(m: SenderModel, timing: u32) -> (starts: Seq<int>)
    requires
        m.valid(),
    ensures
        is_what_is_due(
            m.diff_events(timing),
            m,
            m.runtime.channel == Some(m.config.channel),
            timing,
            starts,
        ),
{
    let knows = m.runtime.channel == Some(m.config.channel);
    let sent = m.runtime.relative_to(m.config.channel);
    let head = program_events(m.config, sent.program, timing);
    let starts = lemma_rows_are_sent(m, knows, sent.rows, head, 16, timing);
    assert(m.diff_events(timing) == head + rows_events(m.config, sent.rows, 16, timing));
    if program_is_due(m, knows) {
        assert(m.diff_events(timing)[0] == head[0]);
    }
    starts
}

/// A snapshot sends the program, if switched on, and every row that is switched
/// on.
pub proof fn law_a_snapshot_is_complete(m: SenderModel, timing: u32) -> (starts: Seq<int>)
    requires
        m.valid(),
    ensures
        is_what_is_due(snapshot_events(m.config, timing), m, false, timing, starts),
{
    let blank = SenderModel { runtime: SenderRuntime::initial(), ..m };
    lemma_diff_with_nothing_sent(blank, timing);
    let starts = law_every_change_is_sent(blank, timing);
    let events = snapshot_events(m.config, timing);
    assert forall|row: int| 0 <= row < 16 implies #[trigger] row_is_sent(
        events,
        m,
        false,
        timing,
        starts,
        row,
    ) by {
        assert(row_is_sent(events, blank, false, timing, starts, row));
        assert(messages_of_row(blank.config, row) == messages_of_row(m.config, row));
    }
    starts
}

/// A block of playback sends everything that has changed since the last one, and
/// everything there is if playback has just started or the channel has changed.
pub proof fn law_a_block_of_playback_is_complete(m: SenderModel) -> (starts: Seq<int>)
    requires
        m.valid(),
    ensures
        is_what_is_due(
            m.tick_events(true),
            m,
            m.runtime.playing && m.runtime.channel == Some(m.config.channel),
            0,
            starts,
        ),
{
    if m.runtime.playing {
        law_every_change_is_sent(m, 0)
    } else {
        law_a_snapshot_is_complete(m, 0)
    }
}

/// What is remembered after a block: after playback the channel, and the program
/// and the messages of every row as far as they are switched on; after a stopped
/// block what was remembered before it. The settings stay as they are.
pub proof fn law_what_a_block_leaves_behind(m: SenderModel, row: int)
    requires
        m.valid(),
        0 <= row < 16,
    ensures
        ({
            let played = m.after_tick(true);
            &&& played.config == m.config
            &&& played.runtime.playing
            &&& played.runtime.channel == Some(m.config.channel)
            &&& played.runtime.program == if m.config.program_enabled {
                Some(m.config.program)
            } else {
                None
            }
            &&& played.runtime.rows.len() == 16
            &&& played.runtime.rows[row] == if m.config.rows[row].enabled {
                Some(messages_of_row(m.config, row))
            } else {
                None
            }
        }),
        ({
            let stopped = m.after_tick(false);
            &&& stopped.config == m.config
            &&& !stopped.runtime.playing
            &&& stopped.runtime.channel == m.runtime.channel
            &&& stopped.runtime.program == m.runtime.program
            &&& stopped.runtime.rows == m.runtime.rows
        }),
        m.tick_events(false).len() == 0,
{
}

/// An emission on its own leaves behind what a block of playback does, save that
/// the transport state stays as it is.
pub proof fn law_what_an_emission_leaves_behind(m: SenderModel)
    requires
        m.valid(),
    ensures
        m.after_emission().config == m.config,
        m.after_emission().runtime.playing == m.runtime.playing,
        m.after_emission().runtime.channel == m.after_tick(true).runtime.channel,
        m.after_emission().runtime.program == m.after_tick(true).runtime.program,
        m.after_emission().runtime.rows == m.after_tick(true).runtime.rows,
{
}

/// A new sender: channel and program 0, everything switched off, nothing sent,
/// and stopped.
pub proof fn law_a_new_sender_is_off(row: int, field: int)
    requires
        0 <= row < 16,
        0 <= field < 4,
    ensures
        ({
            let m = SenderModel::initial();
            &&& m.config.channel == 0
            &&& m.config.program == 0
            &&& !m.config.program_enabled
            &&& m.config.rows.len() == 16
            &&& !m.config.rows[row].enabled
            &&& m.config.rows[row].cmd == CommandType::NoCommand
            &&& m.config.rows[row].fields.len() == 4
            &&& m.config.rows[row].fields[field] == 0
            &&& !m.runtime.playing
            &&& m.runtime.channel is None
            &&& m.runtime.program is None
            &&& m.runtime.rows.len() == 16
            &&& m.runtime.rows[row] is None
            &&& m.runtime == SenderRuntime::initial()
        }),
        !RowModel::initial().enabled,
        RowModel::initial().cmd == CommandType::NoCommand,
        RowModel::initial().fields == seq![0u8, 0u8, 0u8, 0u8],
{
    assert(RowModel::initial().fields =~= seq![0u8, 0u8, 0u8, 0u8]);
}

/// The first four rows send volume, pan, modulation and LFO speed, whatever they
/// are assigned; each of the others sends what it is assigned.
pub proof fn law_what_a_row_sends(c: SenderConfig, row: int)
    requires
        c.valid(),
    ensures
        c.command(0) == CommandType::Volume,
        c.command(1) == CommandType::Pan,
        c.command(2) == CommandType::Mod,
        c.command(3) == CommandType::LfoSpeed,
        4 <= row < 16 ==> c.command(row) == c.rows[row].cmd,
        row >= 16 ==> c.command(row) == CommandType::NoCommand,
{
}

/// The closest value that is at most `top`.
pub open spec fn at_most(value: u8, top: u8) -> u8 {
    if value <= top {
        value
    } else {
        top
    }
}

/// The settings apart from those of the rows are the same.
pub open spec fn same_globals(a: SenderConfig, b: SenderConfig) -> bool {
    a.channel == b.channel && a.program == b.program && a.program_enabled == b.program_enabled
}

/// Each of the global setters changes its own setting and no other: the channel
/// is at most 15 and the program at most 127.
pub proof fn law_global_setters(c: SenderConfig, value: u8, enabled: bool)
    ensures
        c.with_channel(value).channel == at_most(value, 15),
        c.with_channel(value).program == c.program,
        c.with_channel(value).program_enabled == c.program_enabled,
        c.with_channel(value).rows == c.rows,
        c.with_program(value).channel == c.channel,
        c.with_program(value).program == at_most(value, 127),
        c.with_program(value).program_enabled == c.program_enabled,
        c.with_program(value).rows == c.rows,
        c.with_program_enabled(enabled).channel == c.channel,
        c.with_program_enabled(enabled).program == c.program,
        c.with_program_enabled(enabled).program_enabled == enabled,
        c.with_program_enabled(enabled).rows == c.rows,
{
}

/// Each of the row setters changes its own setting of its own row and nothing
/// else. A field is at most 127. The command of one of the first four rows cannot
/// be set, and what is out of range is ignored.
pub proof fn law_row_setters(
    c: SenderConfig,
    row: int,
    field: int,
    value: u8,
    enabled: bool,
    cmd: CommandType,
    other: int,
)
    requires
        c.valid(),
        0 <= other < 16,
    ensures
        ({
            let after = c.with_row_enabled(row, enabled);
            let (a, b) = (after.rows[other], c.rows[other]);
            &&& same_globals(after, c)
            &&& after.rows.len() == 16
            &&& a.enabled == if other == row {
                enabled
            } else {
                b.enabled
            }
            &&& a.cmd == b.cmd
            &&& a.fields == b.fields
        }),
        ({
            let after = c.with_row_cmd(row, cmd);
            let (a, b) = (after.rows[other], c.rows[other]);
            &&& same_globals(after, c)
            &&& after.rows.len() == 16
            &&& a.enabled == b.enabled
            &&& a.cmd == if other == row && row >= 4 {
                cmd
            } else {
                b.cmd
            }
            &&& a.fields == b.fields
        }),
        ({
            let after = c.with_row_field(row, field, value);
            let (a, b) = (after.rows[other], c.rows[other]);
            &&& same_globals(after, c)
            &&& after.rows.len() == 16
            &&& a.enabled == b.enabled
            &&& a.cmd == b.cmd
            &&& a.fields.len() == 4
            &&& forall|k: int|
                0 <= k < 4 ==> #[trigger] a.fields[k] == if other == row && k == field {
                    at_most(value, 127)
                } else {
                    b.fields[k]
                }
        }),
{
    assert(c.rows[other].valid());
}

/// The program that a receiver of these events has on a channel.
pub open spec fn last_program(events: Seq<Emission>, on: u8) -> Option<u8>
    decreases events.len(),
{
    if events.len() == 0 {
        None
    } else {
        match events.last() {
            Emission::Program { channel, program, .. } => if channel == on {
                Some(program)
            } else {
                last_program(events.drop_last(), on)
            },
            _ => last_program(events.drop_last(), on),
        }
    }
}

/// The value that a receiver of these events has for a controller of a channel.
pub open spec fn last_value(events: Seq<Emission>, on: u8, controller: u8) -> Option<u8>
    decreases events.len(),
{
    if events.len() == 0 {
        None
    } else {
        match events.last() {
            Emission::Cc { channel, cc, value, .. } => if channel == on && cc == controller {
                Some(value)
            } else {
                last_value(events.drop_last(), on, controller)
            },
            _ => last_value(events.drop_last(), on, controller),
        }
    }
}

/// Whether an event sets a controller of a channel.
spec fn sets(event: Emission, on: u8, controller: u8) -> bool {
    event matches Emission::Cc { channel, cc, .. } && channel == on && cc == controller
}

/// Events that come later count.
proof fn lemma_later_events_count(
    before: Seq<Emission>,
    after: Seq<Emission>,
    on: u8,
    controller: u8,
)
    ensures
        last_program(before + after, on) == match last_program(after, on) {
            Some(p) => Some(p),
            None => last_program(before, on),
        },
        last_value(before + after, on, controller) == match last_value(after, on, controller) {
            Some(v) => Some(v),
            None => last_value(before, on, controller),
        },
    decreases after.len(),
{
    if after.len() == 0 {
        assert(before + after == before);
    } else {
        lemma_later_events_count(before, after.drop_last(), on, controller);
        assert((before + after).drop_last() == before + after.drop_last());
        assert((before + after).last() == after.last());
    }
}

/// The only event that sets a controller decides.
proof fn lemma_only_setter_decides(events: Seq<Emission>, on: u8, controller: u8, k: int)
    requires
        forall|i: int|
            0 <= i < events.len() && i != k ==> !sets(#[trigger] events[i], on, controller),
        0 <= k < events.len() ==> sets(events[k], on, controller),
    ensures
        last_value(events, on, controller) == if 0 <= k < events.len() {
            Some(events[k]->Cc_value)
        } else {
            None
        },
    decreases events.len(),
{
    if events.len() > 0 {
        let shorter = events.drop_last();
        let last = events.len() - 1;
        if k != last {
            assert(!sets(events[last], on, controller));
            assert forall|i: int| 0 <= i < shorter.len() && i != k implies !sets(
                #[trigger] shorter[i],
                on,
                controller,
            ) by {
                assert(shorter[i] == events[i]);
            }
            lemma_only_setter_decides(shorter, on, controller, k);
        }
    }
}

/// A program change that is first and alone decides.
proof fn lemma_first_program_decides(events: Seq<Emission>, on: u8)
    requires
        forall|i: int| 1 <= i < events.len() ==> #[trigger] events[i] is Cc,
    ensures
        last_program(events, on) == if events.len() > 0 && events[0] is Program
            && events[0]->Program_channel == on {
            Some(events[0]->Program_program)
        } else {
            None
        },
    decreases events.len(),
{
    if events.len() > 1 {
        let shorter = events.drop_last();
        assert(events[events.len() - 1] is Cc);
        assert forall|i: int| 1 <= i < shorter.len() implies #[trigger] shorter[i] is Cc by {
            assert(shorter[i] == events[i]);
        }
        lemma_first_program_decides(shorter, on);
    } else if events.len() == 1 {
        reveal_with_fuel(last_program, 2);
        assert(events.last() == events[0]);
    }
}

/// Every event behind the program change belongs to a row.
proof fn lemma_event_of_a_row(
    events: Seq<Emission>,
    m: SenderModel,
    knows: bool,
    timing: u32,
    starts: Seq<int>,
    k: int,
    n: int,
) -> (row: int)
    requires
        is_what_is_due(events, m, knows, timing, starts),
        0 <= n <= 16,
        starts[0] <= k < starts[n],
    ensures
        0 <= row < n,
        row_is_due(m, knows, row),
        0 <= k - starts[row] < messages_of_row(m.config, row).len(),
        events[k] == (Emission::Cc {
            timing,
            channel: m.config.channel,
            cc: messages_of_row(m.config, row)[k - starts[row]].cc,
            value: messages_of_row(m.config, row)[k - starts[row]].value,
        }),
    decreases n,
{
    assert(row_is_sent(events, m, knows, timing, starts, n - 1));
    if k < starts[n - 1] {
        lemma_event_of_a_row(events, m, knows, timing, starts, k, n - 1)
    } else {
        let message = messages_of_row(m.config, n - 1)[k - starts[n - 1]];
        n - 1
    }
}

/// No command sets the same controller twice.
proof fn lemma_controllers_differ(cmd: CommandType, fields: Seq<u8>, i: int, j: int)
    requires
        0 <= i < encoding(cmd, fields).len(),
        0 <= j < encoding(cmd, fields).len(),
        encoding(cmd, fields)[i].cc == encoding(cmd, fields)[j].cc,
    ensures
        i == j,
{
}

/// A row that is switched on sends a message to a controller.
pub open spec fn row_sets(config: SenderConfig, row: int, controller: u8) -> bool {
    config.rows[row].enabled && exists|j: int|
        0 <= j < messages_of_row(config, row).len() && (#[trigger] messages_of_row(
            config,
            row,
        )[j]).cc == controller
}

/// The sender after blocks that each had these settings and this transport state.
pub open spec fn after_blocks(m: SenderModel, blocks: Seq<(SenderConfig, bool)>) -> SenderModel
    decreases blocks.len(),
{
    if blocks.len() == 0 {
        m
    } else {
        reconfigured(after_blocks(m, blocks.drop_last()), blocks.last().0).after_tick(
            blocks.last().1,
        )
    }
}

/// Everything that is sent in these blocks.
pub open spec fn sent_in_blocks(m: SenderModel, blocks: Seq<(SenderConfig, bool)>) -> Seq<Emission>
    decreases blocks.len(),
{
    if blocks.len() == 0 {
        seq![]
    } else {
        sent_in_blocks(m, blocks.drop_last()) + reconfigured(
            after_blocks(m, blocks.drop_last()),
            blocks.last().0,
        ).tick_events(blocks.last().1)
    }
}

/// What the sender remembers of a row and of the program is what a receiver of
/// `sent` has.
spec fn is_in_step(m: SenderModel, sent: Seq<Emission>, row: int, controller: u8) -> bool {
    m.runtime.channel matches Some(c) ==> {
        &&& m.runtime.program matches Some(p) ==> last_program(sent, c) == Some(p)
        &&& m.runtime.rows[row] matches Some(messages) ==> forall|j: int|
            0 <= j < messages.len() && (#[trigger] messages[j]).cc == controller ==> last_value(
                sent,
                c,
                controller,
            ) == Some(messages[j].value)
    }
}

/// A block keeps a receiver in step.
#[verifier::spinoff_prover]
proof fn lemma_block_keeps_in_step(
    m: SenderModel,
    playing: bool,
    sent: Seq<Emission>,
    row: int,
    controller: u8,
)
    requires
        m.valid(),
        0 <= row < 16,
        forall|i: int| 0 <= i < 16 && i != row ==> !#[trigger] row_sets(m.config, i, controller),
        is_in_step(m, sent, row, controller),
    ensures
        is_in_step(m.after_tick(playing), sent + m.tick_events(playing), row, controller),
{
    let events = m.tick_events(playing);
    if !playing {
        assert(events.len() == 0);
        assert(sent + events == sent);
    } else {
        let knows = m.runtime.playing && m.runtime.channel == Some(m.config.channel);
        let starts = law_a_block_of_playback_is_complete(m);
        let on = m.config.channel;
        let messages = messages_of_row(m.config, row);
        lemma_later_events_count(sent, events, on, controller);
        assert forall|i: int| 1 <= i < events.len() implies #[trigger] events[i] is Cc by {
            let r = lemma_event_of_a_row(events, m, knows, 0, starts, i, 16);
        }
        if !program_is_due(m, knows) && events.len() > 0 {
            let r = lemma_event_of_a_row(events, m, knows, 0, starts, 0, 16);
        }
        lemma_first_program_decides(events, on);
        if m.config.rows[row].enabled {
            assert forall|j: int|
                0 <= j < messages.len() && (#[trigger] messages[j]).cc == controller implies last_value(
                sent + events,
                on,
                controller,
            ) == Some(messages[j].value) by {
                let due = row_is_due(m, knows, row);
                let k = if due {
                    starts[row] + j
                } else {
                    -1
                };
                assert(row_is_sent(events, m, knows, 0, starts, row));
                assert(0 <= starts[row] && starts[row + 1] <= events.len());
                assert forall|i: int| 0 <= i < events.len() && i != k implies !sets(
                    #[trigger] events[i],
                    on,
                    controller,
                ) by {
                    if i >= starts[0] {
                        let r = lemma_event_of_a_row(events, m, knows, 0, starts, i, 16);
                        let at = i - starts[r];
                        if messages_of_row(m.config, r)[at].cc == controller {
                            if r != row {
                                assert(row_sets(m.config, r, controller));
                            } else {
                                lemma_controllers_differ(
                                    m.config.command(row),
                                    m.config.rows[row].fields,
                                    at,
                                    j,
                                );
                            }
                        }
                    }
                }
                if due {
                    assert(events[k] == (Emission::Cc {
                        timing: 0,
                        channel: on,
                        cc: messages[j].cc,
                        value: messages[j].value,
                    }));
                } else {
                    assert(m.runtime.rows[row] == Some(messages));
                    assert(m.runtime.rows[row]->0[j] == messages[j]);
                    assert(last_value(sent, on, controller) == Some(messages[j].value));
                }
                lemma_only_setter_decides(events, on, controller, k);
            }
        }
    }
}

/// Any number of blocks keeps a receiver in step.
proof fn lemma_blocks_keep_in_step(
    m: SenderModel,
    blocks: Seq<(SenderConfig, bool)>,
    row: int,
    controller: u8,
)
    requires
        m.valid(),
        0 <= row < 16,
        m.runtime.channel is None,
        forall|b: int| 0 <= b < blocks.len() ==> (#[trigger] blocks[b]).0.valid(),
        forall|b: int, i: int|
            0 <= b < blocks.len() && 0 <= i < 16 && i != row ==> !#[trigger] row_sets(
                blocks[b].0,
                i,
                controller,
            ),
    ensures
        after_blocks(m, blocks).valid(),
        is_in_step(after_blocks(m, blocks), sent_in_blocks(m, blocks), row, controller),
    decreases blocks.len(),
{
    if blocks.len() > 0 {
        let earlier = blocks.drop_last();
        let last = blocks.len() - 1;
        assert forall|b: int| 0 <= b < earlier.len() implies (#[trigger] earlier[b]).0.valid() by {
            assert(earlier[b] == blocks[b]);
        }
        assert forall|b: int, i: int|
            0 <= b < earlier.len() && 0 <= i < 16 && i != row implies !#[trigger] row_sets(
            earlier[b].0,
            i,
            controller,
        ) by {
            assert(earlier[b] == blocks[b]);
            assert(!row_sets(blocks[b].0, i, controller));
        }
        lemma_blocks_keep_in_step(m, earlier, row, controller);
        let start = reconfigured(after_blocks(m, earlier), blocks.last().0);
        assert(blocks[last].0.valid());
        assert forall|i: int| 0 <= i < 16 && i != row implies !#[trigger] row_sets(
            start.config,
            i,
            controller,
        ) by {
            assert(!row_sets(blocks[last].0, i, controller));
        }
        law_emission_keeps_configuration(start, blocks.last().1);
        lemma_block_keeps_in_step(
            start,
            blocks.last().1,
            sent_in_blocks(m, earlier),
            row,
            controller,
        );
    }
}

/// After any number of blocks, with whatever settings in each, of which the last
/// was one of playback, a receiver that has taken everything sent has the program
/// that is set, if program changes are on.
pub proof fn law_a_receiver_has_the_program(m: SenderModel, blocks: Seq<(SenderConfig, bool)>)
    requires
        m.valid(),
        m.runtime == SenderRuntime::initial(),
        blocks.len() > 0,
        blocks.last().1,
        blocks.last().0.program_enabled,
        forall|b: int| 0 <= b < blocks.len() ==> (#[trigger] blocks[b]).0.valid(),
    ensures
        last_program(sent_in_blocks(m, blocks), blocks.last().0.channel) == Some(
            blocks.last().0.program,
        ),
{
    // No command uses the last controller.
    assert forall|b: int, i: int|
        0 <= b < blocks.len() && 0 <= i < 16 && i != 0 implies !#[trigger] row_sets(
        blocks[b].0,
        i,
        127,
    ) by {
        let c = blocks[b].0;
        assert forall|j: int| 0 <= j < messages_of_row(c, i).len() implies (
        #[trigger] messages_of_row(c, i)[j]).cc != 127 by {}
    }
    lemma_blocks_keep_in_step(m, blocks, 0, 127);
    let before = reconfigured(after_blocks(m, blocks.drop_last()), blocks.last().0);
    assert(after_blocks(m, blocks) == before.after_tick(true));
}

/// After any number of blocks, with whatever settings in each, of which the last
/// was one of playback, a receiver that has taken everything sent has the value
/// of each message of every row that is on, as long as no other row has used the
/// same controller.
pub proof fn law_a_receiver_has_what_a_row_is_set_to(
    m: SenderModel,
    blocks: Seq<(SenderConfig, bool)>,
    row: int,
    j: int,
)
    requires
        m.valid(),
        m.runtime == SenderRuntime::initial(),
        blocks.len() > 0,
        blocks.last().1,
        forall|b: int| 0 <= b < blocks.len() ==> (#[trigger] blocks[b]).0.valid(),
        0 <= row < 16,
        blocks.last().0.rows[row].enabled,
        0 <= j < messages_of_row(blocks.last().0, row).len(),
        forall|b: int, i: int|
            0 <= b < blocks.len() && 0 <= i < 16 && i != row ==> !#[trigger] row_sets(
                blocks[b].0,
                i,
                messages_of_row(blocks.last().0, row)[j].cc,
            ),
    ensures
        last_value(
            sent_in_blocks(m, blocks),
            blocks.last().0.channel,
            messages_of_row(blocks.last().0, row)[j].cc,
        ) == Some(messages_of_row(blocks.last().0, row)[j].value),
{
    let config = blocks.last().0;
    let message = messages_of_row(config, row)[j];
    lemma_blocks_keep_in_step(m, blocks, row, message.cc);
    let before = reconfigured(after_blocks(m, blocks.drop_last()), config);
    let after = after_blocks(m, blocks);
    assert(after == before.after_tick(true));
    assert(blocks[blocks.len() - 1].0.valid());
    assert(config.wanted_row(row) == Some(messages_of_row(config, row)));
    assert(after.runtime.rows[row] == Some(messages_of_row(config, row)));
    assert(after.runtime.rows[row]->0[j] == message);
}

} // verus!
