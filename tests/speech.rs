use shaggy::speech::{speech_file_name, speech_next, spoken_text, SpeechPhase};

#[test]
fn long_text_is_cut_to_240_characters() {
    let text = "a".repeat(300);
    let spoken = spoken_text(&text).unwrap();
    assert_eq!(spoken.chars().count(), 240);
    assert_eq!(spoken, "a".repeat(240));
}

#[test]
fn cut_counts_characters_not_bytes() {
    let text = "é".repeat(250);
    let spoken = spoken_text(&text).unwrap();
    assert_eq!(spoken.chars().count(), 240);
}

#[test]
fn empty_and_command_messages_are_not_spoken() {
    assert_eq!(spoken_text(""), None);
    assert_eq!(spoken_text("   \t "), None);
    assert_eq!(spoken_text("/help"), None);
    assert_eq!(spoken_text("  /tts join"), None);
}

#[test]
fn spoken_text_is_trimmed() {
    assert_eq!(spoken_text("  hello there \n").as_deref(), Some("hello there"));
    assert_eq!(spoken_text(&"b".repeat(240)).unwrap().len(), 240);
}

#[test]
fn gate_walks_through_cleanup() {
    let mut p = SpeechPhase::Idle;
    for ok in [true, true, true, true, false] {
        p = speech_next(p, ok);
    }
    assert_eq!(p, SpeechPhase::Cleanup);
    assert_eq!(speech_next(p, false), SpeechPhase::Idle);
}

#[test]
fn gate_aborts_on_failed_checks_and_engines() {
    assert_eq!(speech_next(SpeechPhase::CheckOptIn, false), SpeechPhase::Idle);
    assert_eq!(speech_next(SpeechPhase::CheckPresence, false), SpeechPhase::Idle);
    assert_eq!(speech_next(SpeechPhase::SynthesizePrimary, false), SpeechPhase::SynthesizeSecondary);
    assert_eq!(speech_next(SpeechPhase::SynthesizeSecondary, false), SpeechPhase::Idle);
    assert_eq!(speech_next(SpeechPhase::SynthesizeSecondary, true), SpeechPhase::Play);
    assert_eq!(speech_next(SpeechPhase::Idle, false), SpeechPhase::Idle);
}

#[test]
fn artifact_name() {
    assert_eq!(speech_file_name(1700000000123), "shaggy_tts_1700000000123.wav");
}
