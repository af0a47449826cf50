use sha2::Digest;
use zeroclaw_jarvis::segments::{char_count, split_text, MAX_SEGMENT_CHARS};
use zeroclaw_jarvis::tts::{
    cache_file_name, cache_file_name_from_digest, check_runtime_files, check_synthesis_reply,
    is_safe_cache_file, ready_wait_ms, ready_wait_result, segment_response, server_status,
    speak_response, speech_request_text, speech_segments, tts_status, usable_cached_audio,
    SynthesisCheck, TtsSpeakBody, TTS_READY_WAIT_MS, TTS_START_WAIT_MS,
};

#[test]
fn split_text_packs_one_or_two_sentences() {
    let segments = split_text("첫 문장입니다. 둘째 문장입니다. 셋째 문장입니다!");
    assert_eq!(
        segments,
        vec!["첫 문장입니다. 둘째 문장입니다.", "셋째 문장입니다!"]
    );
}

#[test]
fn split_text_splits_long_sentences() {
    let long = "가나다 ".repeat(90);
    let segments = split_text(&long);
    assert!(segments.len() > 1);
    assert!(
        segments
            .iter()
            .all(|segment| char_count(segment) <= MAX_SEGMENT_CHARS)
    );
}

#[test]
fn split_text_normalizes_whitespace_and_drops_blank_text() {
    assert!(split_text("   \n\t ").is_empty());
    assert_eq!(split_text("  a \n\n b.  c  "), vec!["a b. c"]);
}

#[test]
fn split_text_cuts_overlong_words_into_fixed_chunks() {
    let word = "x".repeat(500);
    let segments = split_text(&word);
    assert_eq!(segments.len(), 3);
    assert_eq!(char_count(&segments[0]), 220);
    assert_eq!(char_count(&segments[1]), 220);
    assert_eq!(char_count(&segments[2]), 60);
    assert_eq!(segments.concat(), word);
}

#[test]
fn split_text_starts_a_new_segment_when_two_sentences_would_overflow() {
    let a = format!("{}.", "a".repeat(150));
    let b = format!("{}.", "b".repeat(100));
    let segments = split_text(&format!("{a} {b}"));
    assert_eq!(segments, vec![a, b]);
}

#[test]
fn split_text_keeps_every_visible_character() {
    let text = "하나. 둘? 셋! 넷。 다섯 여섯 일곱. ".repeat(30);
    let segments = split_text(&text);
    let visible = |s: &str| s.chars().filter(|c| !c.is_whitespace()).collect::<String>();
    assert_eq!(visible(&segments.concat()), visible(&text));
    assert!(segments.iter().all(|s| !s.is_empty() && char_count(s) <= MAX_SEGMENT_CHARS));
}

#[test]
fn cache_file_name_is_safe_and_stable() {
    let first = cache_file_name("네 주인님 무엇을 도와드릴까요?");
    let second = cache_file_name("네 주인님 무엇을 도와드릴까요?");
    assert_eq!(first, second);
    assert!(is_safe_cache_file(&first));
}

#[test]
fn cache_file_name_rejects_traversal() {
    assert!(!is_safe_cache_file("../secret.wav"));
    assert!(!is_safe_cache_file("not-hex.wav"));
}

#[test]
fn cache_file_name_hashes_prefix_and_text() {
    let text = "안녕하세요";
    let mut hasher = sha2::Sha256::new();
    hasher.update(b"yuni-gpt-sovits-v1\0");
    hasher.update(text.as_bytes());
    let expected = format!("{}.wav", hex::encode(hasher.finalize()));
    assert_eq!(cache_file_name(text), expected);
    assert_ne!(cache_file_name("a"), cache_file_name("b"));
}

#[test]
fn cache_file_name_from_digest_is_lower_hex() {
    assert_eq!(cache_file_name_from_digest(&vec![0xab, 0x01, 0xf0]), "ab01f0.wav");
}

#[test]
fn safe_cache_file_checks_every_part() {
    let hex64 = "0123456789abcdefABCDEF0123456789abcdef0123456789abcdef0123456789";
    assert!(is_safe_cache_file(&format!("{hex64}.wav")));
    assert!(!is_safe_cache_file(&format!("{hex64}.mp3")));
    assert!(!is_safe_cache_file(&format!("{hex64}0.wav")));
    let bad = format!("g{}.wav", &hex64[1..]);
    assert!(!is_safe_cache_file(&bad));
}

#[test]
fn cached_audio_must_exceed_header() {
    assert!(!usable_cached_audio(None));
    assert!(!usable_cached_audio(Some(44)));
    assert!(usable_cached_audio(Some(45)));
}

#[test]
fn speak_request_text_is_trimmed() {
    assert_eq!(speech_request_text(&TtsSpeakBody { text: "  \n".to_string() }), None);
    assert_eq!(
        speech_request_text(&TtsSpeakBody { text: " 안녕 ".to_string() }).as_deref(),
        Some("안녕")
    );
}

#[test]
fn speech_segments_carry_cache_names_and_urls() {
    let segs = speech_segments("하나. 둘. 셋.");
    assert_eq!(segs.len(), 2);
    assert_eq!(segs[0].text, "하나. 둘.");
    assert_eq!(segs[0].file_name, cache_file_name("하나. 둘."));
    let name = segs[1].file_name.clone();
    let resp = segment_response("/zc", segs.into_iter().nth(1).unwrap(), true);
    assert_eq!(resp.text, "셋.");
    assert_eq!(resp.url, format!("/zc/api/tts/audio/{name}"));
    assert!(resp.cached);
    let speak = speak_response("/tmp/cache".to_string(), vec![resp]);
    assert_eq!(speak.status, "ready");
    assert_eq!(speak.endpoint, "http://127.0.0.1:9880/");
    assert_eq!(speak.segments.len(), 1);
}

#[test]
fn status_reply_names_the_local_server() {
    let status = tts_status("starting", "/tmp/cache".to_string());
    assert_eq!(status.status, "starting");
    assert_eq!(status.endpoint, "http://127.0.0.1:9880/");
    assert_eq!(status.bind_host, "127.0.0.1");
    assert_eq!(status.port, 9880);
    assert_eq!(status.cache_dir, "/tmp/cache");
}

#[test]
fn synthesis_reply_checks() {
    assert_eq!(check_synthesis_reply(false, 1000), SynthesisCheck::HttpError);
    assert_eq!(check_synthesis_reply(true, 43), SynthesisCheck::EmptyWav);
    assert_eq!(check_synthesis_reply(true, 44), SynthesisCheck::Audio);
}

#[test]
fn runtime_files_report_first_missing() {
    let files = vec![("/a".to_string(), true), ("/b".to_string(), false), ("/c".to_string(), false)];
    assert_eq!(
        check_runtime_files(&files, "/root", true).unwrap_err(),
        "missing GPT-SoVITS runtime file: /b"
    );
    let ok = vec![("/a".to_string(), true)];
    assert_eq!(
        check_runtime_files(&ok, "/root", false).unwrap_err(),
        "missing GPT-SoVITS runtime root: /root"
    );
    assert!(check_runtime_files(&ok, "/root", true).is_ok());
}

#[test]
fn server_readiness_decisions() {
    assert_eq!(server_status(true), "ready");
    assert_eq!(server_status(false), "starting");
    assert_eq!(ready_wait_ms("ready"), None);
    assert_eq!(ready_wait_ms("starting"), Some(TTS_READY_WAIT_MS));
    assert_eq!(TTS_READY_WAIT_MS, 90_000);
    assert_eq!(TTS_START_WAIT_MS, 2_000);
    assert_eq!(ready_wait_result(true), Ok(()));
    assert_eq!(
        ready_wait_result(false),
        Err("GPT-SoVITS server did not become ready on 127.0.0.1:9880".to_string())
    );
}
