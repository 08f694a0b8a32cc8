use ccomidi::voicegroup::{
    duration_to_ns, load_state, system_time_to_ns, validate_slots, RawSlot, StateRead, VoiceSlot,
    VoicegroupState,
};

const MTIME: Option<u128> = Some(1_700_000_000_000_000_005);

fn raw(program: i64, name: &str) -> RawSlot {
    RawSlot { program, name: name.to_string() }
}

/// What reading a file with these contents gives.
fn read(json: &str) -> StateRead {
    let value: serde_json::Value = match serde_json::from_str(json) {
        Ok(v) => v,
        Err(e) => return StateRead::Malformed { mtime_ns: MTIME, reason: e.to_string() },
    };
    let mut slots = Vec::new();
    for slot in value["slots"].as_array().unwrap() {
        slots.push(raw(slot["program"].as_i64().unwrap(), slot["name"].as_str().unwrap()));
    }
    StateRead::Parsed { mtime_ns: MTIME, slots }
}

#[test]
fn parses_minimal_valid_state() {
    let state = load_state(
        "/tmp/minimal.json",
        &read(r#"{"slots":[{"program":0,"name":"Organ"}]}"#),
    );
    assert!(state.error.is_none(), "error: {:?}", state.error);
    assert_eq!(state.slots, vec![VoiceSlot { program: 0, name: "Organ".into() }]);
    assert!(state.mtime_ns.is_some());
    assert_eq!(state.state_path.as_deref(), Some("/tmp/minimal.json"));
}

#[test]
fn parses_full_state() {
    let state = load_state(
        "/tmp/full.json",
        &read(
            r#"{
                "projectRoot": "/tmp",
                "voicegroup": "VG",
                "slots": [
                    {"program": 10, "name": "Piano"},
                    {"program": 20, "name": "Bass"}
                ]
            }"#,
        ),
    );
    assert!(state.error.is_none());
    assert_eq!(state.slots.len(), 2);
    assert_eq!(state.slots[0].program, 10);
    assert_eq!(state.slots[1].name, "Bass");
}

#[test]
fn drops_out_of_range_slots_silently() {
    let state = load_state(
        "/tmp/range.json",
        &read(
            r#"{"slots":[
                {"program": -1, "name": "Bogus"},
                {"program": 999, "name": "AlsoBogus"},
                {"program": 5, "name": ""},
                {"program": 7, "name": "Ok"}
            ]}"#,
        ),
    );
    assert_eq!(state.slots.len(), 1);
    assert_eq!(state.slots[0].program, 7);
    assert_eq!(state.slots[0].name, "Ok");
}

#[test]
fn missing_file_reports_friendly_error() {
    let state = load_state("/tmp/ccomidi-vg-tests/does-not-exist.json", &StateRead::Missing);
    assert!(state.error.as_deref().unwrap_or("").contains("poryaaaa"));
    assert_eq!(
        state.error.as_deref(),
        Some(
            "poryaaaa_state.json not found at /tmp/ccomidi-vg-tests/does-not-exist.json. \
             Load poryaaaa in the DAW, or set $CCOMIDI_STATE_PATH to override."
        )
    );
    assert!(state.slots.is_empty());
    assert_eq!(state.mtime_ns, None);
}

#[test]
fn malformed_json_reports_parse_error() {
    let state = load_state("/tmp/bad.json", &read("{this is not json"));
    assert!(state.error.as_deref().unwrap_or("").contains("JSON"));
    assert!(state.error.as_deref().unwrap_or("").starts_with("JSON parse error: key must be"));
    assert_eq!(state.mtime_ns, MTIME);
}

#[test]
fn empty_slots_reports_error() {
    let state = load_state("/tmp/empty.json", &read(r#"{"slots":[]}"#));
    assert!(state.error.is_some()); // "no sample-bearing slots"
    assert_eq!(state.error.as_deref(), Some("state.json has no sample-bearing slots."));
}

#[test]
fn only_unusable_slots_report_the_same_error() {
    let read = StateRead::Parsed { mtime_ns: None, slots: vec![raw(128, "x"), raw(0, "")] };
    let state = load_state("p", &read);
    assert_eq!(state.error.as_deref(), Some("state.json has no sample-bearing slots."));
    assert!(state.slots.is_empty());
}

#[test]
fn unreadable_file_reports_error() {
    let state = load_state("p", &StateRead::Unreadable { mtime_ns: MTIME });
    assert_eq!(
        state,
        VoicegroupState {
            slots: vec![],
            state_path: Some("p".to_string()),
            error: Some("Could not read poryaaaa_state.json.".to_string()),
            mtime_ns: MTIME,
        }
    );
}

#[test]
fn slots_at_the_limits_are_kept_in_order() {
    let slots = validate_slots(&vec![raw(127, "b"), raw(128, "x"), raw(0, "a"), raw(127, "b")]);
    let programs: Vec<u8> = slots.iter().map(|s| s.program).collect();
    assert_eq!(programs, vec![127, 0, 127]);
    assert_eq!(slots[1].name, "a");
    assert!(validate_slots(&vec![raw(i64::MAX, "x"), raw(i64::MIN, "y")]).is_empty());
}

#[test]
fn default_state_is_empty() {
    let state = VoicegroupState::default();
    assert!(state.slots.is_empty());
    assert_eq!((state.state_path, state.error, state.mtime_ns), (None, None, None));
}

#[test]
fn times_are_counted_in_nanoseconds() {
    assert_eq!(duration_to_ns(2, 5), 2_000_000_005);
    assert_eq!(duration_to_ns(u64::MAX, 999_999_999), 18_446_744_073_709_551_615_999_999_999);
    assert_eq!(system_time_to_ns(Some((1, 1))), Some(1_000_000_001));
    assert_eq!(system_time_to_ns(None), None);
}
