//! The state behind the plugin window, apart from the parameters.

use vstd::prelude::*;
use vstd::string::StringExecFns;
use crate::text::{concat2, decimal, decimal_text};
use crate::voicegroup::{
    load_state, loaded, StateRead, VoicegroupModel, VoicegroupState, MAX_INSTRUMENT_INDEX,
};

verus! {

/// A page of the editor.
#[derive(Debug, Copy, Clone, PartialEq, Eq, Structural)]
pub enum Tab {
    /// Output channel, program, fixed commands and voicegroup.
    Main,
    /// The freely assignable rows.
    Additional,
}

impl Tab {
    /// Whether two pages are the same.
    pub fn same(&self, other: &Self) -> (r: bool)
        ensures
            r == (*self == *other),
    {
        *self == *other
    }
}

/// What happens in the editor.
#[derive(Debug)]
pub enum AppEvent {
    /// The voicegroup has been read again, with this list of instruments that
    /// can be added.
    ReloadVoicegroup { state: VoicegroupState, available_instruments: Vec<String> },
    /// An instrument has been picked from the list.
    SelectInstrument(usize),
    /// Another page has been opened.
    SwitchTab(Tab),
}

/// The voicegroup for the editor, given the resolved path and what came of
/// reading it, if a path could be resolved.
pub fn load_voicegroup(found: Option<(&str, &StateRead)>) -> (state: VoicegroupState)
    ensures
        state@ == match found {
            Some((path, read)) => loaded(path@, *read),
            None => VoicegroupModel {
                error: Some("could not locate plugin bundle"@),
                ..VoicegroupModel::initial()
            },
        },
{
    match found {
        Some((path, read)) => load_state(path, read),
        None => {
            let mut state = VoicegroupState::default();
            state.error = Some("could not locate plugin bundle".to_owned());
            state
        },
    }
}

/// The status line for a voicegroup with `available` instruments to add.
pub open spec fn status(state: VoicegroupModel, available: nat) -> Seq<char> {
    match state.error {
        Some(error) => if available == 0 {
            "⚠ "@ + error
        } else {
            "⚠ "@ + error + "  ("@ + decimal(available) + " instruments available)"@
        },
        None => decimal(state.slots.len()) + " slots · "@ + decimal(available)
            + " instruments available"@,
    }
}

/// The status line for a voicegroup. An error takes precedence.
pub fn format_status(state: &VoicegroupState, available_instruments: &Vec<String>) -> (line: String)
    ensures
        line@ == status(state@, available_instruments@.len()),
{
    let available = available_instruments.len();
    if let Some(error) = &state.error {
        let mut line = concat2("⚠ ", error.as_str());
        if available == 0 {
            return line;
        }
        line.append("  (");
        line.append(decimal_text(available).as_str());
        line.append(" instruments available)");
        return line;
    }
    let mut line = decimal_text(state.slots.len());
    line.append(" slots · ");
    line.append(decimal_text(available).as_str());
    line.append(" instruments available");
    line
}

/// The state of the editor.
#[derive(Debug)]
pub struct EditorState {
    /// The status line of the voicegroup.
    pub vg_status: String,
    /// The names of the instruments that can be added.
    pub instruments: Vec<String>,
    /// The index of the highlighted one.
    pub selected_instrument: usize,
    pub active_tab: Tab,
}

impl EditorState {
    /// The state of a newly opened editor.
    pub fn new(state: &VoicegroupState, available_instruments: Vec<String>) -> (editor: Self)
        ensures
            editor.vg_status@ == status(state@, available_instruments@.len()),
            editor.instruments == available_instruments,
            editor.selected_instrument == 0,
            editor.active_tab == Tab::Main,
    {
        EditorState {
            vg_status: format_status(state, &available_instruments),
            instruments: available_instruments,
            selected_instrument: 0,
            active_tab: Tab::Main,
        }
    }

    /// Handle an event. The result is the index of an instrument to add, if one
    /// has been picked that the controller pair can carry.
    pub fn event(&mut self, event: AppEvent) -> (add_instrument: Option<i32>)
        ensures
            match event {
                AppEvent::ReloadVoicegroup { state, available_instruments } => {
                    &&& add_instrument is None
                    &&& final(self).vg_status@ == status(state@, available_instruments@.len())
                    &&& final(self).instruments == available_instruments
                    &&& final(self).selected_instrument == if old(self).selected_instrument
                        < available_instruments@.len() {
                        old(self).selected_instrument
                    } else {
                        0
                    }
                    &&& final(self).active_tab == old(self).active_tab
                },
                AppEvent::SelectInstrument(idx) => {
                    &&& add_instrument is Some <==> idx <= MAX_INSTRUMENT_INDEX
                    &&& add_instrument matches Some(i) ==> i == idx
                    &&& *final(self) == (EditorState { selected_instrument: idx, ..*old(self) })
                },
                AppEvent::SwitchTab(tab) => {
                    &&& add_instrument is None
                    &&& *final(self) == (EditorState { active_tab: tab, ..*old(self) })
                },
            },
    {
        match event {
            AppEvent::ReloadVoicegroup { state, available_instruments } => {
                self.vg_status = format_status(&state, &available_instruments);
                self.instruments = available_instruments;
                if self.selected_instrument >= self.instruments.len() {
                    self.selected_instrument = 0;
                }
                None
            },
            AppEvent::SelectInstrument(idx) => {
                self.selected_instrument = idx;
                if idx <= MAX_INSTRUMENT_INDEX as usize {
                    Some(idx as i32)
                } else {
                    None
                }
            },
            AppEvent::SwitchTab(tab) => {
                self.active_tab = tab;
                None
            },
        }
    }
}

/// The status line for a state without an error: how many slots it has, and how
/// many instruments can be added. With an error: a sign and the error, and how
/// many instruments can be added, if any can.
pub proof fn law_what_the_status_line_says(state: VoicegroupModel, available: nat)
    ensures
        state.error is None ==> status(state, available) == decimal(state.slots.len())
            + " slots · "@ + decimal(available) + " instruments available"@,
        state.error matches Some(error) ==> {
            &&& available == 0 ==> status(state, available) == "⚠ "@ + error
            &&& available > 0 ==> status(state, available) == "⚠ "@ + error + "  ("@ + decimal(
                available,
            ) + " instruments available)"@
        },
{
}

/// The status lines of states with different errors differ.
pub proof fn law_the_status_line_tells_errors_apart(
    a: VoicegroupModel,
    b: VoicegroupModel,
    available: nat,
)
    requires
        status(a, available) == status(b, available),
        a.error is Some,
        b.error is Some,
    ensures
        a.error == b.error,
{
    let (x, y) = (a.error->0, b.error->0);
    let head = "⚠ "@;
    let tail = if available == 0 {
        Seq::<char>::empty()
    } else {
        "  ("@ + decimal(available) + " instruments available)"@
    };
    assert(status(a, available) == head + x + tail);
    assert(status(b, available) == head + y + tail);
    assert(x.len() == y.len());
    assert forall|i: int| 0 <= i < x.len() implies x[i] == y[i] by {
        assert((head + x + tail)[head.len() + i] == x[i]);
        assert((head + y + tail)[head.len() + i] == y[i]);
    }
    assert(x == y);
}

} // verus!
