//! Encoding of one row into a short sequence of MIDI CC messages.

use vstd::prelude::*;
use vstd::slice::slice_subrange;
use vstd::std_specs::cmp::PartialEqSpecImpl;
use crate::command::{CommandType, MAX_FIELDS, MAX_MESSAGES_PER_ROW};

verus! {

/// One MIDI Control Change message. The channel is attached when it is emitted.
#[derive(Debug, Copy, Clone, PartialEq, Eq, Structural)]
pub struct CcMessage {
    pub cc: u8,
    pub value: u8,
}

/// The message that sets controller `cc` to `value`.
pub open spec fn message(cc: u8, value: u8) -> CcMessage {
    CcMessage { cc, value }
}

impl Default for CcMessage {
    fn default() -> (r: Self)
        ensures
            r == message(0, 0),
    {
        CcMessage { cc: 0, value: 0 }
    }
}

/// The CC messages that one row emits, in a buffer of fixed capacity.
#[derive(Debug, Copy, Clone, Eq)]
pub struct EncodedCommand {
    pub messages: [CcMessage; MAX_MESSAGES_PER_ROW],
    /// How many entries of `messages` are meaningful.
    pub len: u8,
}

impl View for EncodedCommand {
    type V = Seq<CcMessage>;

    open spec fn view(&self) -> Seq<CcMessage> {
        self.messages@.take(self.len as int)
    }
}

impl PartialEq for EncodedCommand {
    fn eq(&self, other: &Self) -> (r: bool) {
        if self.len != other.len {
            return false;
        }
        let mut i: usize = 0;
        while i < MAX_MESSAGES_PER_ROW
            invariant
                i <= MAX_MESSAGES_PER_ROW,
                self.messages@.take(i as int) == other.messages@.take(i as int),
            decreases MAX_MESSAGES_PER_ROW - i,
        {
            if self.messages[i] != other.messages[i] {
                return false;
            }
            assert(self.messages@.take(i + 1) == self.messages@.take(i as int).push(
                self.messages@[i as int],
            ));
            assert(other.messages@.take(i + 1) == other.messages@.take(i as int).push(
                other.messages@[i as int],
            ));
            i += 1;
        }
        assert(self.messages@.take(i as int) == self.messages@);
        assert(other.messages@.take(i as int) == other.messages@);
        true
    }
}

impl PartialEqSpecImpl for EncodedCommand {
    open spec fn obeys_eq_spec() -> bool {
        true
    }

    open spec fn eq_spec(&self, other: &Self) -> bool {
        self.len == other.len && self.messages@ == other.messages@
    }
}

impl Default for EncodedCommand {
    fn default() -> (r: Self)
        ensures
            r.well_formed(),
            r.len == 0,
            r@ == Seq::<CcMessage>::empty(),
    {
        EncodedCommand { messages: [CcMessage { cc: 0, value: 0 }; MAX_MESSAGES_PER_ROW], len: 0 }
    }
}

impl EncodedCommand {
    /// The length fits the buffer, and the slots behind it hold the default
    /// message. Two well-formed buffers are equal when they hold the same
    /// messages.
    pub open spec fn well_formed(&self) -> bool {
        &&& self.len <= MAX_MESSAGES_PER_ROW
        &&& forall|i: int|
            self.len <= i < MAX_MESSAGES_PER_ROW ==> #[trigger] self.messages@[i] == message(0, 0)
    }

    /// Whether the row emits nothing.
    pub fn is_empty(&self) -> (r: bool)
        ensures
            r == (self.len == 0),
            self.len <= MAX_MESSAGES_PER_ROW ==> r == (self@.len() == 0),
    {
        self.len == 0
    }

    /// The messages, without the unused slots.
    pub fn as_slice(&self) -> (r: &[CcMessage])
        requires
            self.len <= MAX_MESSAGES_PER_ROW,
        ensures
            r@ == self@,
            r@.len() == self.len,
            forall|i: int| 0 <= i < self.len ==> #[trigger] r@[i] == self.messages@[i],
    {
        slice_subrange(self.messages.as_slice(), 0, self.len as usize)
    }

    fn push(&mut self, cc: u8, value: u8)
        requires
            old(self).well_formed(),
            old(self).len < MAX_MESSAGES_PER_ROW,
        ensures
            final(self).well_formed(),
            final(self).len == old(self).len + 1,
            final(self)@ == old(self)@.push(message(cc, value)),
    {
        self.messages[self.len as usize] = CcMessage { cc, value };
        self.len = self.len + 1;
    }
}

/// The messages that a row with command `cmd` and field values `fields` stands
/// for.
pub open spec fn encoding(cmd: CommandType, fields: Seq<u8>) -> Seq<CcMessage> {
    match cmd {
        CommandType::Volume => seq![message(0x07, fields[0])],
        CommandType::Pan => seq![message(0x0A, fields[0])],
        CommandType::Mod => seq![message(0x01, fields[0])],
        CommandType::LfoSpeed => seq![message(0x15, fields[0])],
        CommandType::BendRange => seq![message(0x14, fields[0])],
        CommandType::ModType => seq![message(0x16, fields[0])],
        CommandType::Tune => seq![message(0x18, fields[0])],
        CommandType::LfoDelay => seq![message(0x1A, fields[0])],
        CommandType::Priority21 => seq![message(0x21, fields[0])],
        CommandType::Priority27 => seq![message(0x27, fields[0])],
        CommandType::XcmdIecv => seq![message(0x1E, 0x08), message(0x1D, fields[0])],
        CommandType::XcmdIecl => seq![message(0x1E, 0x09), message(0x1D, fields[0])],
        CommandType::MemAcc0C => seq![
            message(0x0D, fields[0]),
            message(0x0E, fields[1]),
            message(0x0F, fields[2]),
            message(0x0C, fields[3]),
        ],
        CommandType::MemAcc10 => seq![
            message(0x0D, fields[0]),
            message(0x0E, fields[1]),
            message(0x0F, fields[2]),
            message(0x10, fields[3]),
        ],
        CommandType::NoCommand => seq![],
    }
}

/// Encode one row: its command and its field values give the messages to emit.
pub fn encode_row(cmd: CommandType, fields: &[u8; MAX_FIELDS]) -> (r: EncodedCommand)
    ensures
        r.well_formed(),
        r@ == encoding(cmd, fields@),
{
    let mut out = EncodedCommand::default();
    match cmd {
        CommandType::Volume => out.push(0x07, fields[0]),
        CommandType::Pan => out.push(0x0A, fields[0]),
        CommandType::Mod => out.push(0x01, fields[0]),
        CommandType::LfoSpeed => out.push(0x15, fields[0]),
        CommandType::BendRange => out.push(0x14, fields[0]),
        CommandType::ModType => out.push(0x16, fields[0]),
        CommandType::Tune => out.push(0x18, fields[0]),
        CommandType::LfoDelay => out.push(0x1A, fields[0]),
        CommandType::Priority21 => out.push(0x21, fields[0]),
        CommandType::Priority27 => out.push(0x27, fields[0]),
        // An opcode select, then the value.
        CommandType::XcmdIecv => {
            out.push(0x1E, 0x08);
            out.push(0x1D, fields[0]);
        },
        CommandType::XcmdIecl => {
            out.push(0x1E, 0x09);
            out.push(0x1D, fields[0]);
        },
        // Three operands; the last message selects the bank and commits.
        CommandType::MemAcc0C => {
            out.push(0x0D, fields[0]);
            out.push(0x0E, fields[1]);
            out.push(0x0F, fields[2]);
            out.push(0x0C, fields[3]);
        },
        CommandType::MemAcc10 => {
            out.push(0x0D, fields[0]);
            out.push(0x0E, fields[1]);
            out.push(0x0F, fields[2]);
            out.push(0x10, fields[3]);
        },
        CommandType::NoCommand => {},
    }
    out
}

/// How many leading fields a command reads.
pub open spec fn fields_used(cmd: CommandType) -> int {
    match cmd {
        CommandType::NoCommand => 0,
        CommandType::MemAcc0C | CommandType::MemAcc10 => 4,
        _ => 1,
    }
}

/// Two well-formed buffers are equal exactly when they hold the same messages.
pub proof fn lemma_equal_by_messages(a: EncodedCommand, b: EncodedCommand)
    requires
        a.well_formed(),
        b.well_formed(),
    ensures
        (a.len == b.len && a.messages@ == b.messages@) <==> a@ == b@,
{
    if a@ == b@ {
        assert(a@.len() == a.len && b@.len() == b.len);
        assert forall|i: int| 0 <= i < MAX_MESSAGES_PER_ROW implies a.messages@[i]
            == b.messages@[i] by {
            if i < a.len {
                assert(a@[i] == b@[i]);
            }
        }
        assert(a.messages@ == b.messages@);
    }
}

/// Fields that a command does not use have no influence on what it emits.
pub proof fn law_unused_fields_are_ignored(cmd: CommandType, f: Seq<u8>, g: Seq<u8>)
    requires
        forall|i: int| 0 <= i < fields_used(cmd) ==> #[trigger] f[i] == g[i],
    ensures
        encoding(cmd, f) == encoding(cmd, g),
{
    assert(0 < fields_used(cmd) ==> f[0] == g[0]);
    assert(1 < fields_used(cmd) ==> f[1] == g[1] && f[2] == g[2] && f[3] == g[3]);
}

/// A change of a field that a command uses always changes what it emits.
pub proof fn law_used_fields_matter(cmd: CommandType, f: Seq<u8>, g: Seq<u8>)
    requires
        encoding(cmd, f) == encoding(cmd, g),
    ensures
        forall|i: int| 0 <= i < fields_used(cmd) ==> #[trigger] f[i] == g[i],
{
    let (a, b) = (encoding(cmd, f), encoding(cmd, g));
    assert(a[0] == b[0] && a[1] == b[1] && a[2] == b[2] && a[3] == b[3]);
}

/// A row emits at most four messages, which the buffer always has room for, and
/// only the empty command emits none.
pub proof fn law_message_count(cmd: CommandType, fields: Seq<u8>)
    ensures
        encoding(cmd, fields).len() <= 4 < MAX_MESSAGES_PER_ROW,
        encoding(cmd, fields).len() == 0 <==> cmd == CommandType::NoCommand,
{
}

/// Fields in the 7-bit data range give controllers and values in that range.
pub proof fn law_messages_are_seven_bit(cmd: CommandType, fields: Seq<u8>, i: int)
    requires
        forall|k: int| 0 <= k < MAX_FIELDS ==> #[trigger] fields[k] <= 127,
        0 <= i < encoding(cmd, fields).len(),
    ensures
        encoding(cmd, fields)[i].cc <= 127,
        encoding(cmd, fields)[i].value <= 127,
{
    assert(fields[0] <= 127 && fields[1] <= 127 && fields[2] <= 127 && fields[3] <= 127);
}

/// The two extended commands differ in the opcode that they select and in
/// nothing else.
pub proof fn law_xcmds_differ_only_in_opcode(fields: Seq<u8>)
    ensures
        ({
            let iecv = encoding(CommandType::XcmdIecv, fields);
            let iecl = encoding(CommandType::XcmdIecl, fields);
            &&& iecv.len() == iecl.len()
            &&& iecv[0].cc == iecl[0].cc
            &&& iecv[0].value != iecl[0].value
            &&& iecv.skip(1) == iecl.skip(1)
        }),
{
}

/// The two memory-access commands differ in the controller of the committing
/// message and in nothing else.
pub proof fn law_mem_accs_differ_only_in_bank_commit(fields: Seq<u8>)
    ensures
        ({
            let a = encoding(CommandType::MemAcc0C, fields);
            let b = encoding(CommandType::MemAcc10, fields);
            &&& a.len() == b.len() == 4
            &&& a.take(3) == b.take(3)
            &&& a[3].cc != b[3].cc
            &&& a[3].value == b[3].value
        }),
{
}

/// A command sends one message, which sets `cc` to the first field.
pub open spec fn sets_one_controller(cmd: CommandType, fields: Seq<u8>, cc: u8) -> bool {
    let sent = encoding(cmd, fields);
    sent.len() == 1 && sent[0].cc == cc && sent[0].value == fields[0]
}

/// A command selects `opcode` with one message, and sends the first field with
/// the next.
pub open spec fn selects_and_sets(cmd: CommandType, fields: Seq<u8>, opcode: u8) -> bool {
    let sent = encoding(cmd, fields);
    &&& sent.len() == 2
    &&& sent[0].cc == 0x1E && sent[0].value == opcode
    &&& sent[1].cc == 0x1D && sent[1].value == fields[0]
}

/// A command sends each of the four fields with a message of its own, the last of
/// them to `commit`.
pub open spec fn sends_all_fields(cmd: CommandType, fields: Seq<u8>, commit: u8) -> bool {
    let sent = encoding(cmd, fields);
    &&& sent.len() == 4
    &&& forall|k: int| 0 <= k < 4 ==> (#[trigger] sent[k]).value == fields[k]
    &&& sent[0].cc == 0x0D && sent[1].cc == 0x0E && sent[2].cc == 0x0F && sent[3].cc == commit
}

/// Which controllers a command sets, and that field values are sent as they are.
pub proof fn law_fields_are_sent_as_they_are(fields: Seq<u8>)
    ensures
        sets_one_controller(CommandType::Volume, fields, 0x07),
        sets_one_controller(CommandType::Pan, fields, 0x0A),
        sets_one_controller(CommandType::Mod, fields, 0x01),
        sets_one_controller(CommandType::LfoSpeed, fields, 0x15),
        sets_one_controller(CommandType::BendRange, fields, 0x14),
        sets_one_controller(CommandType::ModType, fields, 0x16),
        sets_one_controller(CommandType::Tune, fields, 0x18),
        sets_one_controller(CommandType::LfoDelay, fields, 0x1A),
        sets_one_controller(CommandType::Priority21, fields, 0x21),
        sets_one_controller(CommandType::Priority27, fields, 0x27),
        selects_and_sets(CommandType::XcmdIecv, fields, 0x08),
        selects_and_sets(CommandType::XcmdIecl, fields, 0x09),
        sends_all_fields(CommandType::MemAcc0C, fields, 0x0C),
        sends_all_fields(CommandType::MemAcc10, fields, 0x10),
        encoding(CommandType::NoCommand, fields).len() == 0,
{
}

/// Raising a field by one raises the value of one message by one and changes
/// nothing else, if the command uses the field.
pub proof fn law_values_move_with_the_field(cmd: CommandType, fields: Seq<u8>, i: int)
    requires
        fields.len() == MAX_FIELDS,
        0 <= i < fields_used(cmd),
        fields[i] < 127,
    ensures
        ({
            let before = encoding(cmd, fields);
            let after = encoding(cmd, fields.update(i, (fields[i] + 1) as u8));
            let k = before.len() - fields_used(cmd) + i;
            &&& after.len() == before.len()
            &&& after[k].cc == before[k].cc
            &&& after[k].value == before[k].value + 1
            &&& forall|j: int| 0 <= j < before.len() && j != k ==> #[trigger] after[j] == before[j]
        }),
{
}

} // verus!
