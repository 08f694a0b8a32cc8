use ccomidi::instrument::{classify_name, classify_normalized, kind_for_program, InstrumentKind};
use ccomidi::voicegroup::VoiceSlot;

#[test]
fn classifies_hardware_channel_names() {
    assert_eq!(classify_name("Square 1"), InstrumentKind::Square);
    assert_eq!(classify_name("square 2"), InstrumentKind::Square);
    assert_eq!(classify_name("Square_alt"), InstrumentKind::Square);
    assert_eq!(classify_name("SquareWave"), InstrumentKind::Square);
    assert_eq!(classify_name("Noise"), InstrumentKind::Noise);
    assert_eq!(classify_name("noise alt"), InstrumentKind::Noise);
    assert_eq!(classify_name("ProgWave 1"), InstrumentKind::ProgWave);
    assert_eq!(classify_name("prog_wave"), InstrumentKind::ProgWave);
    assert_eq!(classify_name("Programmable Wave"), InstrumentKind::ProgWave);
}

#[test]
fn classifies_directsound_and_containers_as_other() {
    assert_eq!(classify_name("16.pcm"), InstrumentKind::Other);
    assert_eq!(classify_name("sc88pro_pizzicato_strings.bin"), InstrumentKind::Other);
    assert_eq!(classify_name("voicegroup_piano_keysplit"), InstrumentKind::Other);
    assert_eq!(classify_name("voicegroup192"), InstrumentKind::Other);
    // "noise" as a suffix is not the noise channel.
    assert_eq!(classify_name("register_noise"), InstrumentKind::Other);
}

#[test]
fn kind_for_program_uses_matching_slot() {
    let slots = vec![
        VoiceSlot { program: 0, name: "Square 1".into() },
        VoiceSlot { program: 2, name: "16.pcm".into() },
        VoiceSlot { program: 7, name: "Noise".into() },
    ];
    assert_eq!(kind_for_program(&slots, 0), InstrumentKind::Square);
    assert_eq!(kind_for_program(&slots, 2), InstrumentKind::Other);
    assert_eq!(kind_for_program(&slots, 7), InstrumentKind::Noise);
    // Unknown program.
    assert_eq!(kind_for_program(&slots, 5), InstrumentKind::Other);
}

#[test]
fn the_first_slot_for_a_program_counts() {
    let slots = vec![
        VoiceSlot { program: 3, name: "pwave".into() },
        VoiceSlot { program: 3, name: "Noise".into() },
    ];
    assert_eq!(kind_for_program(&slots, 3), InstrumentKind::ProgWave);
    assert_eq!(kind_for_program(&[], 3), InstrumentKind::Other);
}

#[test]
fn case_and_padding_do_not_matter() {
    for name in ["SQUARE 1", " square 1", "Square 1", "\t\u{3000}sQuArE 1 \u{85}\n"] {
        assert_eq!(classify_name(name), InstrumentKind::Square);
    }
    assert_eq!(classify_name("\u{a0}NOISE\u{2028}"), InstrumentKind::Noise);
    // A zero-width space is not white space, and so is part of the name.
    assert_eq!(classify_name("\u{200b}noise"), InstrumentKind::Other);
}

#[test]
fn lower_case_follows_unicode() {
    // The Kelvin sign has the lower case `k`, which begins no channel name; a
    // full-width letter stays a full-width letter.
    assert_eq!(classify_name("\u{212a}noise"), InstrumentKind::Other);
    assert_eq!(classify_name("\u{ff2e}oise"), InstrumentKind::Other);
}

#[test]
fn white_space_inside_a_name_stays() {
    assert_eq!(classify_name(" SQ 1 "), InstrumentKind::Square);
    // Trimmed, this is only `sq`.
    assert_eq!(classify_name("sq "), InstrumentKind::Other);
    assert_eq!(classify_name("sq1"), InstrumentKind::Other);
    assert_eq!(classify_name("Prog Wave"), InstrumentKind::ProgWave);
    assert_eq!(classify_name("program"), InstrumentKind::Other);
    assert_eq!(classify_name(""), InstrumentKind::Other);
}

#[test]
fn normalized_names_are_taken_as_they_are() {
    assert_eq!(classify_normalized("noise"), InstrumentKind::Noise);
    assert_eq!(classify_normalized("Noise"), InstrumentKind::Other);
    assert_eq!(classify_normalized(" noise"), InstrumentKind::Other);
    assert_eq!(classify_normalized("sq "), InstrumentKind::Square);
    assert_eq!(classify_normalized("nois"), InstrumentKind::Other);
}

#[test]
fn hardware_channels_have_three_pan_positions() {
    assert!(InstrumentKind::Square.is_enum_pan());
    assert!(InstrumentKind::Noise.is_enum_pan());
    assert!(InstrumentKind::ProgWave.is_enum_pan());
    assert!(!InstrumentKind::Other.is_enum_pan());
}

#[test]
fn an_ascii_beginning_counts_before_other_characters() {
    assert_eq!(classify_name("Square \u{266a}"), InstrumentKind::Square);
    assert_eq!(classify_name("NOISE\u{3a3}"), InstrumentKind::Noise);
    assert_eq!(classify_name("Sax\u{e9}"), InstrumentKind::Other);
    // The beginning is too short to settle it.
    assert_eq!(classify_name("Squ\u{c0}re"), InstrumentKind::Other);
}
