//! Command kinds and row-layout constants.

use vstd::prelude::*;

verus! {

/// Total number of configurable rows.
pub const MAX_ROWS: usize = 16;

/// The first `FIXED_ROW_COUNT` rows have fixed commands (Volume, Pan, Mod,
/// LfoSpeed): only their value can be set. The remaining rows are freely
/// assignable.
pub const FIXED_ROW_COUNT: usize = 4;

/// Every row carries this many field values. A command that uses fewer ignores
/// the others.
pub const MAX_FIELDS: usize = 4;

/// Capacity of the buffer that holds the CC messages of one row.
pub const MAX_MESSAGES_PER_ROW: usize = 5;

/// What a row encodes when enabled. The variants are declared in the order of
/// their stored bytes, from 0 to 14.
#[derive(Debug, Copy, Clone, PartialEq, Eq, Hash, Structural)]
pub enum CommandType {
    /// Fixed row 0: CC 0x07, channel volume.
    Volume,
    /// Fixed row 1: CC 0x0A, pan.
    Pan,
    /// Fixed row 2: CC 0x01, modulation wheel.
    Mod,
    /// Fixed row 3: CC 0x15, LFO speed.
    LfoSpeed,
    /// No command: the row emits nothing. Default for dynamic rows.
    NoCommand,
    /// CC 0x14, pitch-bend range.
    BendRange,
    /// CC 0x16, modulation type.
    ModType,
    /// CC 0x18, fine tune.
    Tune,
    /// CC 0x1A, LFO delay.
    LfoDelay,
    /// CC 0x21, voice priority.
    Priority21,
    /// CC 0x27, alternate priority target.
    Priority27,
    /// CC 0x1E = 0x08, then CC 0x1D = field 0.
    XcmdIecv,
    /// CC 0x1E = 0x09, then CC 0x1D = field 0.
    XcmdIecl,
    /// CC 0x0D, 0x0E, 0x0F with fields 0 to 2, committed by CC 0x0C with field 3.
    MemAcc0C,
    /// CC 0x0D, 0x0E, 0x0F with fields 0 to 2, committed by CC 0x10 with field 3.
    MemAcc10,
}

impl CommandType {
    /// The byte under which the command is stored.
    pub open spec fn code(self) -> u8 {
        match self {
            CommandType::Volume => 0,
            CommandType::Pan => 1,
            CommandType::Mod => 2,
            CommandType::LfoSpeed => 3,
            CommandType::NoCommand => 4,
            CommandType::BendRange => 5,
            CommandType::ModType => 6,
            CommandType::Tune => 7,
            CommandType::LfoDelay => 8,
            CommandType::Priority21 => 9,
            CommandType::Priority27 => 10,
            CommandType::XcmdIecv => 11,
            CommandType::XcmdIecl => 12,
            CommandType::MemAcc0C => 13,
            CommandType::MemAcc10 => 14,
        }
    }

    /// The command that row `row` is bound to, if it is a fixed row.
    pub open spec fn bound_to(row: int) -> Option<CommandType> {
        if row == 0 {
            Some(CommandType::Volume)
        } else if row == 1 {
            Some(CommandType::Pan)
        } else if row == 2 {
            Some(CommandType::Mod)
        } else if row == 3 {
            Some(CommandType::LfoSpeed)
        } else {
            None
        }
    }

    /// The command of a fixed row, or `None` for a dynamic row.
    pub fn fixed_for_row(row: usize) -> (command: Option<Self>)
        ensures
            command == Self::bound_to(row as int),
            command is Some <==> row < FIXED_ROW_COUNT,
    {
        match row {
            0 => Some(CommandType::Volume),
            1 => Some(CommandType::Pan),
            2 => Some(CommandType::Mod),
            3 => Some(CommandType::LfoSpeed),
            _ => None,
        }
    }

    /// Whether this is one of the commands that a fixed row is bound to.
    pub fn is_fixed(self) -> (fixed: bool)
        ensures
            fixed == (exists|row: int| #[trigger] Self::bound_to(row) == Some(self)),
            fixed == (self.code() < FIXED_ROW_COUNT),
    {
        let fixed = matches!(
            self,
            CommandType::Volume | CommandType::Pan | CommandType::Mod | CommandType::LfoSpeed
        );
        assert(Self::bound_to(self.code() as int) == Some(self) <==> fixed);
        fixed
    }

    /// The command stored under byte `v`; `None` for a byte that no command has.
    pub fn from_u8(v: u8) -> (command: Option<Self>)
        ensures
            command is Some <==> v <= 14,
            command matches Some(c) ==> c.code() == v,
    {
        match v {
            0 => Some(CommandType::Volume),
            1 => Some(CommandType::Pan),
            2 => Some(CommandType::Mod),
            3 => Some(CommandType::LfoSpeed),
            4 => Some(CommandType::NoCommand),
            5 => Some(CommandType::BendRange),
            6 => Some(CommandType::ModType),
            7 => Some(CommandType::Tune),
            8 => Some(CommandType::LfoDelay),
            9 => Some(CommandType::Priority21),
            10 => Some(CommandType::Priority27),
            11 => Some(CommandType::XcmdIecv),
            12 => Some(CommandType::XcmdIecl),
            13 => Some(CommandType::MemAcc0C),
            14 => Some(CommandType::MemAcc10),
            _ => None,
        }
    }
}

/// No two commands share a stored byte: a byte read back names the command that
/// was written.
pub proof fn law_codes_are_distinct(a: CommandType, b: CommandType)
    ensures
        a.code() == b.code() <==> a == b,
        a.code() <= 14,
{
}

/// The byte under which each command is stored.
pub proof fn law_stored_bytes()
    ensures
        CommandType::Volume.code() == 0,
        CommandType::Pan.code() == 1,
        CommandType::Mod.code() == 2,
        CommandType::LfoSpeed.code() == 3,
        CommandType::NoCommand.code() == 4,
        CommandType::BendRange.code() == 5,
        CommandType::ModType.code() == 6,
        CommandType::Tune.code() == 7,
        CommandType::LfoDelay.code() == 8,
        CommandType::Priority21.code() == 9,
        CommandType::Priority27.code() == 10,
        CommandType::XcmdIecv.code() == 11,
        CommandType::XcmdIecl.code() == 12,
        CommandType::MemAcc0C.code() == 13,
        CommandType::MemAcc10.code() == 14,
{
}

/// A row is bound to a command exactly if it is one of the first four, and then
/// to the command that is stored under its number.
pub proof fn law_the_first_four_rows_are_bound(row: int)
    ensures
        CommandType::bound_to(row) is Some <==> 0 <= row < 4,
        CommandType::bound_to(row) matches Some(cmd) ==> cmd.code() == row,
        MAX_ROWS == 16,
        FIXED_ROW_COUNT == 4,
        MAX_FIELDS == 4,
{
}

} // verus!
