use zeroclaw_jarvis::voice_wake::{
    build_voice_wake_message, choose_transcription_provider, clap_voice_fallback_matches,
    decimal_string, normalize_voice_utterance_text, should_activate_clap_gated_voice_without_transcript,
    should_finish_utterance_capture, should_finish_wake_capture, wake_word_matches, wav_header,
    ClapDetector, ClapGateEvent, WakeState,
};

#[test]
fn wake_state_display() {
    assert_eq!(WakeState::Listening.to_string(), "Listening");
    assert_eq!(WakeState::Triggered.to_string(), "Triggered");
    assert_eq!(WakeState::Capturing.to_string(), "Capturing");
    assert_eq!(WakeState::Processing.to_string(), "Processing");
}

#[test]
fn wake_state_equality() {
    assert_eq!(WakeState::Listening, WakeState::Listening);
    assert_ne!(WakeState::Listening, WakeState::Triggered);
}

#[test]
fn utterance_capture_waits_for_voice_before_silence_timeout() {
    let silence_timeout = 1200;
    let max_capture = 8000;

    assert!(
        !should_finish_utterance_capture(false, 1500, 1500, silence_timeout, max_capture),
        "silence before the user starts speaking must not end capture"
    );

    assert!(should_finish_utterance_capture(true, 1500, 3000, silence_timeout, max_capture));

    assert!(should_finish_utterance_capture(false, 9000, 9000, silence_timeout, max_capture));
}

#[test]
fn wake_capture_waits_for_voice_after_clap_gate() {
    let silence_timeout = 1200;
    let max_capture = 8000;

    assert!(
        !should_finish_wake_capture(false, 1500, 1500, silence_timeout, max_capture),
        "silence after the second clap should leave time to say the wake name"
    );

    assert!(should_finish_wake_capture(true, 1500, 2500, silence_timeout, max_capture));

    assert!(should_finish_wake_capture(false, 9000, 9000, silence_timeout, max_capture));
}

#[test]
fn clap_gated_voice_can_activate_without_waiting_for_wake_transcript() {
    assert!(should_activate_clap_gated_voice_without_transcript(true, true));
    assert!(!should_activate_clap_gated_voice_without_transcript(true, false));
    assert!(!should_activate_clap_gated_voice_without_transcript(false, true));
}

#[test]
fn normalize_voice_utterance_repairs_common_price_mishearing() {
    assert_eq!(
        normalize_voice_utterance_text("최적과 소고기를 찾아줘"),
        "최저가 소고기를 찾아줘"
    );
    assert_eq!(
        normalize_voice_utterance_text(" 최적가 상품 찾아줘 "),
        "최저가 상품 찾아줘"
    );
}

#[test]
fn voice_wake_message_sets_alias_and_normalized_content() {
    let msg = build_voice_wake_message("jarvis", 7, " 최적과 소고기를 찾아줘 ", 1_780_000_000)
        .expect("non-empty voice text should dispatch");

    assert_eq!(msg.id, "voice_wake_7");
    assert_eq!(msg.sender, "voice_user");
    assert_eq!(msg.reply_target, "voice_user");
    assert_eq!(msg.content, "최저가 소고기를 찾아줘");
    assert_eq!(msg.channel, "voice_wake");
    assert_eq!(msg.channel_alias.as_deref(), Some("jarvis"));
    assert_eq!(msg.timestamp, 1_780_000_000);

    assert!(build_voice_wake_message("jarvis", 8, "   ", 1).is_none());
}

#[test]
fn jarvis_double_clap_wake_and_price_command_flow_dispatches_task() {
    let clap_count = 2;
    let clap_window_ms = 1200;
    let clap_cooldown_ms = 90;
    let silence_timeout_ms = 1200;
    let max_capture_ms = 8 * 1000;
    let wake_word = "jarvis";
    let start = 10_000;
    let mut detector = ClapDetector::new(clap_count, clap_window_ms, clap_cooldown_ms);

    assert_eq!(
        detector.observe(true, start),
        ClapGateEvent::FirstClap,
        "first clap should arm the gesture gate"
    );
    assert_eq!(
        detector.observe(true, start + 160),
        ClapGateEvent::Complete,
        "second clap inside the configured window should complete the gesture"
    );

    let wake_text = "Jarvis";
    let lower = wake_text.to_lowercase();
    assert!(wake_word_matches(&lower, wake_word));

    assert!(
        !should_finish_utterance_capture(false, 1500, 1500, silence_timeout_ms, max_capture_ms),
        "post-wake silence before the user speaks must not dispatch an empty command"
    );
    assert!(should_finish_utterance_capture(true, 1300, 3600, silence_timeout_ms, max_capture_ms));

    let msg = build_voice_wake_message("jarvis", 1, "최적과 소고기를 찾아줘", 1)
        .expect("recognized command should dispatch");
    assert_eq!(msg.channel_alias.as_deref(), Some("jarvis"));
    assert_eq!(msg.content, "최저가 소고기를 찾아줘");
}

#[test]
fn wake_word_matches_jarvis_transliterations() {
    assert!(wake_word_matches("hey jarvis", "jarvis"));
    assert!(wake_word_matches("javis", "jarvis"));
    assert!(wake_word_matches("자비스", "jarvis"));
    assert!(wake_word_matches("차비스", "jarvis"));
    assert!(wake_word_matches("자, 자, 자", "jarvis"));
    assert!(!wake_word_matches("서비스", "jarvis"));
}

#[test]
fn wake_word_aliases_only_for_jarvis() {
    assert!(!wake_word_matches("자비스", "hey zeroclaw"));
    assert!(wake_word_matches("ok hey zeroclaw now", "hey zeroclaw"));
    assert!(wake_word_matches("쟈비스야", "jarvis"));
    assert!(!wake_word_matches("자", "jarvis"));
}

#[test]
fn clap_voice_fallback_requires_jarvis_clap_gate_and_voice_text() {
    assert!(clap_voice_fallback_matches("수고하셨습니다 수고하셨습니다", "jarvis", true));
    assert!(!clap_voice_fallback_matches("수고하셨습니다", "hey zeroclaw", true));
    assert!(!clap_voice_fallback_matches("수고하셨습니다", "jarvis", false));
    assert!(!clap_voice_fallback_matches(" , ", "jarvis", true));
}

#[test]
fn clap_detector_completes_after_two_peaks_inside_window() {
    let start = 5_000;
    let mut detector = ClapDetector::new(2, 900, 120);

    assert_eq!(detector.observe(true, start), ClapGateEvent::FirstClap);
    assert_eq!(detector.observe(true, start + 200), ClapGateEvent::Complete);
}

#[test]
fn clap_detector_respects_cooldown() {
    let start = 5_000;
    let mut detector = ClapDetector::new(2, 900, 120);

    assert_eq!(detector.observe(true, start), ClapGateEvent::FirstClap);
    assert_eq!(detector.observe(true, start + 50), ClapGateEvent::NoEvent);
    assert_eq!(detector.observe(true, start + 150), ClapGateEvent::Complete);
}

#[test]
fn clap_detector_expires_old_partial_gesture() {
    let start = 5_000;
    let mut detector = ClapDetector::new(2, 900, 120);

    assert_eq!(detector.observe(true, start), ClapGateEvent::FirstClap);
    assert_eq!(detector.observe(false, start + 901), ClapGateEvent::Expired);
    assert_eq!(detector.observe(true, start + 1_000), ClapGateEvent::FirstClap);
}

#[test]
fn clap_detector_requires_at_least_one_clap() {
    let mut detector = ClapDetector::new(0, 900, 120);
    assert_eq!(detector.required_count, 1);
    assert_eq!(detector.observe(true, 0), ClapGateEvent::Complete);
    assert_eq!(detector.count, 0);
    detector.reset();
    assert_eq!(detector.first_clap_at, None);
}

#[test]
fn wav_header_is_valid() {
    let wav = wav_header(100, 16000, 1);

    assert_eq!(&wav[0..4], b"RIFF");
    assert_eq!(&wav[8..12], b"WAVE");

    assert_eq!(&wav[12..16], b"fmt ");
    let fmt_size = u32::from_le_bytes(wav[16..20].try_into().unwrap());
    assert_eq!(fmt_size, 16);

    let format = u16::from_le_bytes(wav[20..22].try_into().unwrap());
    assert_eq!(format, 1);

    let channels = u16::from_le_bytes(wav[22..24].try_into().unwrap());
    assert_eq!(channels, 1);

    let sr = u32::from_le_bytes(wav[24..28].try_into().unwrap());
    assert_eq!(sr, 16000);

    assert_eq!(&wav[36..40], b"data");
    let data_size = u32::from_le_bytes(wav[40..44].try_into().unwrap());
    assert_eq!(data_size, 200);
}

#[test]
fn wav_total_size_correct() {
    let wav = wav_header(50, 44100, 2);
    // header (44 bytes) + data (50 * 2 = 100 bytes)
    let data_size = u32::from_le_bytes(wav[40..44].try_into().unwrap()) as usize;
    assert_eq!(wav.len() + data_size, 144);
    let riff_size = u32::from_le_bytes(wav[4..8].try_into().unwrap());
    assert_eq!(riff_size, 136);
    let byte_rate = u32::from_le_bytes(wav[28..32].try_into().unwrap());
    assert_eq!(byte_rate, 44100 * 2 * 2);
    let block_align = u16::from_le_bytes(wav[32..34].try_into().unwrap());
    assert_eq!(block_align, 4);
}

#[test]
fn state_transitions_are_deterministic() {
    let states = [
        WakeState::Listening,
        WakeState::Triggered,
        WakeState::Capturing,
        WakeState::Processing,
    ];
    for (i, a) in states.iter().enumerate() {
        for (j, b) in states.iter().enumerate() {
            if i == j {
                assert_eq!(a, b);
            } else {
                assert_ne!(a, b);
            }
        }
    }
}

#[test]
fn decimal_text() {
    assert_eq!(decimal_string(0), "0");
    assert_eq!(decimal_string(7), "7");
    assert_eq!(decimal_string(1_780_000_000), "1780000000");
    assert_eq!(decimal_string(u64::MAX), u64::MAX.to_string());
}

#[test]
fn provider_choice() {
    assert_eq!(
        choose_transcription_provider("openai.jarvis", &vec![]).as_deref(),
        Some("openai.jarvis")
    );
    assert_eq!(
        choose_transcription_provider("  ", &vec!["local".to_string()]).as_deref(),
        Some("local")
    );
    assert_eq!(
        choose_transcription_provider("", &vec!["a".to_string(), "b".to_string()]),
        None
    );
}

#[test]
fn normalized_utterance_is_stable_under_a_second_pass() {
    for raw in ["  최적과 최적가 최적과가  ", "최최적과과", "\t최적가\n", "plain text", "   "] {
        let once = normalize_voice_utterance_text(raw);
        assert_eq!(normalize_voice_utterance_text(&once), once);
        assert_eq!(once.trim(), once);
        assert!(!once.contains("최적과"));
        assert!(!once.contains("최적가"));
    }
    assert_eq!(normalize_voice_utterance_text("최최적과과"), "최최저가과");
}
