//! The values of the plugin's parameters.

use vstd::prelude::*;
use vstd::std_specs::convert::FromSpecImpl;
use crate::command::{CommandType, FIXED_ROW_COUNT, MAX_ROWS};
use crate::text::{concat2, concat3, decimal, decimal_text};
use crate::voicegroup::MAX_INSTRUMENT_INDEX;

verus! {

/// Number of rows with a fixed command.
pub const FIXED_ROWS: usize = 4;

/// Number of freely assignable rows.
pub const DYN_ROWS: usize = 12;

/// The fixed and the dynamic rows are the rows of the sender.
pub proof fn law_rows_of_the_sender()
    ensures
        FIXED_ROWS == FIXED_ROW_COUNT,
        FIXED_ROWS + DYN_ROWS == MAX_ROWS,
{
}

/// What a dynamic row can be assigned, in the order in which it is offered.
#[derive(Debug, Copy, Clone, PartialEq, Eq, Structural)]
pub enum AssignableCommand {
    NoCommand,
    BendRange,
    ModType,
    Tune,
    LfoDelay,
    Priority21,
    Priority27,
    XcmdIecv,
    XcmdIecl,
    MemAcc0C,
    MemAcc10,
}

impl From<AssignableCommand> for CommandType {
    fn from(a: AssignableCommand) -> Self {
        match a {
            AssignableCommand::NoCommand => CommandType::NoCommand,
            AssignableCommand::BendRange => CommandType::BendRange,
            AssignableCommand::ModType => CommandType::ModType,
            AssignableCommand::Tune => CommandType::Tune,
            AssignableCommand::LfoDelay => CommandType::LfoDelay,
            AssignableCommand::Priority21 => CommandType::Priority21,
            AssignableCommand::Priority27 => CommandType::Priority27,
            AssignableCommand::XcmdIecv => CommandType::XcmdIecv,
            AssignableCommand::XcmdIecl => CommandType::XcmdIecl,
            AssignableCommand::MemAcc0C => CommandType::MemAcc0C,
            AssignableCommand::MemAcc10 => CommandType::MemAcc10,
        }
    }
}

impl FromSpecImpl<AssignableCommand> for CommandType {
    open spec fn obeys_from_spec() -> bool {
        true
    }

    open spec fn from_spec(a: AssignableCommand) -> CommandType {
        assigned_command(a)
    }
}

/// The command of the same name.
pub open spec fn assigned_command(a: AssignableCommand) -> CommandType {
    match a {
        AssignableCommand::NoCommand => CommandType::NoCommand,
        AssignableCommand::BendRange => CommandType::BendRange,
        AssignableCommand::ModType => CommandType::ModType,
        AssignableCommand::Tune => CommandType::Tune,
        AssignableCommand::LfoDelay => CommandType::LfoDelay,
        AssignableCommand::Priority21 => CommandType::Priority21,
        AssignableCommand::Priority27 => CommandType::Priority27,
        AssignableCommand::XcmdIecv => CommandType::XcmdIecv,
        AssignableCommand::XcmdIecl => CommandType::XcmdIecl,
        AssignableCommand::MemAcc0C => CommandType::MemAcc0C,
        AssignableCommand::MemAcc10 => CommandType::MemAcc10,
    }
}

/// The assignable commands are exactly the commands that no fixed row is bound
/// to, each once.
pub proof fn law_assignable_commands_are_the_unbound_ones(
    a: AssignableCommand,
    b: AssignableCommand,
    cmd: CommandType,
)
    ensures
        assigned_command(a) == assigned_command(b) <==> a == b,
        (exists|c: AssignableCommand| #[trigger] assigned_command(c) == cmd) <==> cmd.code()
            >= FIXED_ROW_COUNT,
{
    assert(assigned_command(AssignableCommand::NoCommand) == CommandType::NoCommand);
    assert(assigned_command(AssignableCommand::BendRange) == CommandType::BendRange);
    assert(assigned_command(AssignableCommand::ModType) == CommandType::ModType);
    assert(assigned_command(AssignableCommand::Tune) == CommandType::Tune);
    assert(assigned_command(AssignableCommand::LfoDelay) == CommandType::LfoDelay);
    assert(assigned_command(AssignableCommand::Priority21) == CommandType::Priority21);
    assert(assigned_command(AssignableCommand::Priority27) == CommandType::Priority27);
    assert(assigned_command(AssignableCommand::XcmdIecv) == CommandType::XcmdIecv);
    assert(assigned_command(AssignableCommand::XcmdIecl) == CommandType::XcmdIecl);
    assert(assigned_command(AssignableCommand::MemAcc0C) == CommandType::MemAcc0C);
    assert(assigned_command(AssignableCommand::MemAcc10) == CommandType::MemAcc10);
}

/// A parameter value in the 7-bit data range.
pub open spec fn is_data(v: i32) -> bool {
    0 <= v <= 127
}

/// The parameters of a fixed row.
#[derive(Debug, Copy, Clone, PartialEq, Eq, Structural)]
pub struct FixedRowParams {
    pub enabled: bool,
    pub value: i32,
}

impl FixedRowParams {
    /// A row with the given defaults.
    pub fn new(default_enabled: bool, default_value: i32) -> (row: Self)
        ensures
            row == (FixedRowParams { enabled: default_enabled, value: default_value }),
    {
        FixedRowParams { enabled: default_enabled, value: default_value }
    }
}

/// The parameters of a dynamic row.
#[derive(Debug, Copy, Clone, PartialEq, Eq, Structural)]
pub struct DynamicRowParams {
    pub enabled: bool,
    pub cmd: AssignableCommand,
    pub f0: i32,
    pub f1: i32,
    pub f2: i32,
    pub f3: i32,
}

impl DynamicRowParams {
    /// A disabled row without a command.
    pub open spec fn initial() -> DynamicRowParams {
        DynamicRowParams {
            enabled: false,
            cmd: AssignableCommand::NoCommand,
            f0: 0,
            f1: 0,
            f2: 0,
            f3: 0,
        }
    }

    /// A disabled row without a command.
    pub fn new() -> (row: Self)
        ensures
            row == Self::initial(),
    {
        DynamicRowParams {
            enabled: false,
            cmd: AssignableCommand::NoCommand,
            f0: 0,
            f1: 0,
            f2: 0,
            f3: 0,
        }
    }
}

/// The values of all parameters.
#[derive(Debug, Copy, Clone, PartialEq, Eq)]
pub struct CComidiParams {
    pub channel: i32,
    pub program_enabled: bool,
    pub program: i32,
    /// Index for the 14-bit Add-Instrument controller pair.
    pub add_instrument_index: i32,
    pub fixed_rows: [FixedRowParams; FIXED_ROWS],
    pub dyn_rows: [DynamicRowParams; DYN_ROWS],
}

impl CComidiParams {
    /// Program changes, volume and pan are on, the latter two at the middle of
    /// their range, and the rest is off.
    pub open spec fn is_initial(&self) -> bool {
        &&& self.channel == 0
        &&& self.program_enabled
        &&& self.program == 0
        &&& self.add_instrument_index == 0
        &&& self.fixed_rows@ == seq![
            FixedRowParams { enabled: true, value: 64 },
            FixedRowParams { enabled: true, value: 64 },
            FixedRowParams { enabled: false, value: 0 },
            FixedRowParams { enabled: false, value: 0 },
        ]
        &&& self.dyn_rows@ == Seq::new(DYN_ROWS as nat, |i: int| DynamicRowParams::initial())
    }

    /// Every value is in the range of its parameter.
    pub open spec fn in_range(&self) -> bool {
        &&& 0 <= self.channel <= 15
        &&& is_data(self.program)
        &&& 0 <= self.add_instrument_index <= MAX_INSTRUMENT_INDEX
        &&& forall|i: int| 0 <= i < FIXED_ROWS ==> is_data((#[trigger] self.fixed_rows@[i]).value)
        &&& forall|i: int|
            0 <= i < DYN_ROWS ==> {
                let r = #[trigger] self.dyn_rows@[i];
                is_data(r.f0) && is_data(r.f1) && is_data(r.f2) && is_data(r.f3)
            }
    }
}

impl Default for CComidiParams {
    /// A new plugin is heard without further settings.
    fn default() -> (params: Self)
        ensures
            params.is_initial(),
            params.in_range(),
    {
        let params = CComidiParams {
            channel: 0,
            program_enabled: true,
            program: 0,
            add_instrument_index: 0,
            fixed_rows: [
                FixedRowParams::new(true, 64),
                FixedRowParams::new(true, 64),
                FixedRowParams::new(false, 0),
                FixedRowParams::new(false, 0),
            ],
            dyn_rows: [DynamicRowParams::new(); DYN_ROWS],
        };
        assert(params.dyn_rows@ == Seq::new(
            DYN_ROWS as nat,
            |i: int| DynamicRowParams::initial(),
        ));
        params
    }
}

/// The label of a fixed row.
pub open spec fn fixed_label(row: int) -> Seq<char> {
    if row == 0 {
        "Volume"@
    } else if row == 1 {
        "Pan"@
    } else if row == 2 {
        "Mod"@
    } else {
        "LFO Speed"@
    }
}

/// The label of a fixed row.
pub fn fixed_row_label(row: usize) -> (label: &'static str)
    requires
        row < FIXED_ROWS,
    ensures
        label@ == fixed_label(row as int),
{
    match row {
        0 => "Volume",
        1 => "Pan",
        2 => "Mod",
        _ => "LFO Speed",
    }
}

/// The name of the value parameter of a fixed row with this label.
pub fn value_param_name(label: &str) -> (name: String)
    ensures
        name@ == label@ + " Value"@,
{
    concat2(label, " Value")
}

/// The label of a dynamic row, by its index among all rows.
pub fn dynamic_row_label(row: usize) -> (label: String)
    ensures
        label@ == "Row "@ + decimal(row as nat),
{
    concat2("Row ", decimal_text(row).as_str())
}

/// The name of the command parameter of a dynamic row with this label.
pub fn cmd_param_name(label: &str) -> (name: String)
    ensures
        name@ == label@ + " Cmd"@,
{
    concat2(label, " Cmd")
}

/// The name of the parameter of field `field` of a dynamic row with this label.
pub fn field_param_name(label: &str, field: usize) -> (name: String)
    ensures
        name@ == label@ + " F"@ + decimal(field as nat),
{
    concat3(label, " F", decimal_text(field).as_str())
}

/// A dynamic row sends the command that it is assigned by name.
pub proof fn law_a_command_is_assigned_by_name()
    ensures
        assigned_command(AssignableCommand::NoCommand) == CommandType::NoCommand,
        assigned_command(AssignableCommand::BendRange) == CommandType::BendRange,
        assigned_command(AssignableCommand::ModType) == CommandType::ModType,
        assigned_command(AssignableCommand::Tune) == CommandType::Tune,
        assigned_command(AssignableCommand::LfoDelay) == CommandType::LfoDelay,
        assigned_command(AssignableCommand::Priority21) == CommandType::Priority21,
        assigned_command(AssignableCommand::Priority27) == CommandType::Priority27,
        assigned_command(AssignableCommand::XcmdIecv) == CommandType::XcmdIecv,
        assigned_command(AssignableCommand::XcmdIecl) == CommandType::XcmdIecl,
        assigned_command(AssignableCommand::MemAcc0C) == CommandType::MemAcc0C,
        assigned_command(AssignableCommand::MemAcc10) == CommandType::MemAcc10,
{
}

/// The values of new parameters: channel and program 0 with program changes on,
/// volume and pan on at 64, and every other row off, without a command and at 0.
pub proof fn law_new_parameters(p: CComidiParams, i: int)
    requires
        p.is_initial(),
    ensures
        p.channel == 0,
        p.program == 0,
        p.program_enabled,
        p.add_instrument_index == 0,
        FIXED_ROWS == 4,
        DYN_ROWS == 12,
        0 <= i < 4 ==> p.fixed_rows@[i].enabled == (i < 2),
        0 <= i < 4 ==> p.fixed_rows@[i].value == if i < 2 {
            64int
        } else {
            0
        },
        0 <= i < 12 ==> {
            let r = p.dyn_rows@[i];
            &&& !r.enabled
            &&& r.cmd == AssignableCommand::NoCommand
            &&& r.f0 == 0 && r.f1 == 0 && r.f2 == 0 && r.f3 == 0
        },
{
    if 0 <= i < 12 {
        assert(p.dyn_rows@[i] == DynamicRowParams::initial());
    }
}

/// The range of each parameter.
pub proof fn law_parameter_ranges(p: CComidiParams, i: int)
    requires
        p.in_range(),
    ensures
        0 <= p.channel <= 15,
        0 <= p.program <= 127,
        0 <= p.add_instrument_index <= 16383,
        0 <= i < 4 ==> 0 <= p.fixed_rows@[i].value <= 127,
        0 <= i < 12 ==> {
            let r = p.dyn_rows@[i];
            &&& 0 <= r.f0 <= 127 && 0 <= r.f1 <= 127 && 0 <= r.f2 <= 127 && 0 <= r.f3 <= 127
        },
{
    if 0 <= i < 4 {
        assert(is_data(p.fixed_rows@[i].value));
    }
    if 0 <= i < 12 {
        assert(is_data(p.dyn_rows@[i].f0));
    }
}

/// The labels of the fixed rows, in order.
pub proof fn law_labels_of_the_fixed_rows()
    ensures
        fixed_label(0) == "Volume"@,
        fixed_label(1) == "Pan"@,
        fixed_label(2) == "Mod"@,
        fixed_label(3) == "LFO Speed"@,
{
}

} // verus!
