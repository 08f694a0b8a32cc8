use ccomidi::editor::{format_status, load_voicegroup, AppEvent, EditorState, Tab};
use ccomidi::voicegroup::{RawSlot, StateRead, VoiceSlot, VoicegroupState};

fn names(n: usize) -> Vec<String> {
    (0..n).map(|i| format!("i{i}")).collect()
}

fn loaded(slots: usize) -> VoicegroupState {
    VoicegroupState {
        slots: (0..slots).map(|i| VoiceSlot { program: i as u8, name: "x".into() }).collect(),
        ..VoicegroupState::default()
    }
}

fn failed(error: &str) -> VoicegroupState {
    VoicegroupState { error: Some(error.to_string()), ..VoicegroupState::default() }
}

#[test]
fn status_counts_slots_and_instruments() {
    assert_eq!(format_status(&loaded(0), &names(0)), "0 slots · 0 instruments available");
    assert_eq!(format_status(&loaded(12), &names(105)), "12 slots · 105 instruments available");
}

#[test]
fn errors_win_in_the_status() {
    assert_eq!(format_status(&failed("bad"), &names(0)), "⚠ bad");
    assert_eq!(format_status(&failed("bad"), &names(3)), "⚠ bad  (3 instruments available)");
}

#[test]
fn voicegroup_without_a_path() {
    let state = load_voicegroup(None);
    assert_eq!(state, failed("could not locate plugin bundle"));
}

#[test]
fn voicegroup_with_a_path() {
    let slots = vec![RawSlot { program: 4, name: "Organ".into() }];
    let read = StateRead::Parsed { mtime_ns: None, slots };
    let state = load_voicegroup(Some(("/p", &read)));
    assert_eq!(state.slots, vec![VoiceSlot { program: 4, name: "Organ".into() }]);
    assert_eq!(state.state_path.as_deref(), Some("/p"));
}

#[test]
fn a_new_editor_shows_the_main_page() {
    let editor = EditorState::new(&loaded(2), names(1));
    assert_eq!(editor.vg_status, "2 slots · 1 instruments available");
    assert_eq!(editor.instruments, names(1));
    assert_eq!(editor.selected_instrument, 0);
    assert!(editor.active_tab.same(&Tab::Main));
}

#[test]
fn picked_instruments_are_added_up_to_the_limit() {
    let mut editor = EditorState::new(&loaded(1), names(2));
    assert_eq!(editor.event(AppEvent::SelectInstrument(1)), Some(1));
    assert_eq!(editor.selected_instrument, 1);
    assert_eq!(editor.event(AppEvent::SelectInstrument(16383)), Some(16383));
    assert_eq!(editor.event(AppEvent::SelectInstrument(16384)), None);
    assert_eq!(editor.selected_instrument, 16384);
    assert_eq!(editor.event(AppEvent::SelectInstrument(usize::MAX)), None);
}

#[test]
fn reload_keeps_the_selection_in_range() {
    let mut editor = EditorState::new(&loaded(1), names(5));
    editor.event(AppEvent::SelectInstrument(3));
    editor.event(AppEvent::SwitchTab(Tab::Additional));
    let reload =
        |n: usize| AppEvent::ReloadVoicegroup { state: loaded(7), available_instruments: names(n) };
    assert_eq!(editor.event(reload(4)), None);
    assert_eq!(editor.selected_instrument, 3);
    assert_eq!(editor.vg_status, "7 slots · 4 instruments available");
    editor.event(reload(3));
    assert_eq!(editor.selected_instrument, 0);
    assert_eq!(editor.instruments, names(3));
    assert_eq!(editor.active_tab, Tab::Additional);
}

#[test]
fn switching_pages_changes_nothing_else() {
    let mut editor = EditorState::new(&loaded(1), names(2));
    editor.event(AppEvent::SelectInstrument(1));
    assert_eq!(editor.event(AppEvent::SwitchTab(Tab::Additional)), None);
    assert!(!editor.active_tab.same(&Tab::Main));
    assert_eq!(editor.selected_instrument, 1);
    assert_eq!(editor.instruments, names(2));
}
