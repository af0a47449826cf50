use zeroclaw_jarvis::audio_url::{check_tts_audio_len, validate_local_tts_url, MAX_TTS_AUDIO_BYTES};

#[test]
fn accepts_local_tts_audio_url() {
    assert!(validate_local_tts_url("http://127.0.0.1:42617/api/tts/audio/a.wav").is_ok());
    assert!(validate_local_tts_url("http://localhost:42617/api/tts/audio/a.wav").is_ok());
}

#[test]
fn rejects_external_tts_audio_url() {
    assert!(validate_local_tts_url("https://127.0.0.1:42617/api/tts/audio/a.wav").is_err());
    assert!(validate_local_tts_url("http://example.com/api/tts/audio/a.wav").is_err());
    assert!(validate_local_tts_url("http://127.0.0.1:42617/other/a.wav").is_err());
}

#[test]
fn local_url_errors_name_the_reason() {
    assert_eq!(
        validate_local_tts_url("https://127.0.0.1/api/tts/audio/a.wav").err().unwrap(),
        "TTS audio URL must use http"
    );
    assert_eq!(
        validate_local_tts_url("http://example.com/api/tts/audio/a.wav").err().unwrap(),
        "TTS audio URL must be local-only"
    );
    assert_eq!(
        validate_local_tts_url("http://localhost/other/a.wav").err().unwrap(),
        "TTS audio URL must point to /api/tts/audio/"
    );
    let err = validate_local_tts_url("not a url").err().unwrap();
    assert!(err.starts_with("invalid TTS audio URL: "), "{err}");
    assert!(err.len() > "invalid TTS audio URL: ".len());
}

#[test]
fn local_url_keeps_its_parts() {
    let parts = validate_local_tts_url("http://LOCALHOST:42617/api/tts/audio/x.wav?v=1").unwrap();
    assert_eq!(parts.scheme, "http");
    assert_eq!(parts.host.as_deref(), Some("localhost"));
    assert_eq!(parts.path, "/api/tts/audio/x.wav");
}

#[test]
fn audio_size_limit() {
    assert!(check_tts_audio_len(MAX_TTS_AUDIO_BYTES).is_ok());
    assert_eq!(
        check_tts_audio_len(MAX_TTS_AUDIO_BYTES + 1).unwrap_err(),
        "local TTS audio is too large to play safely"
    );
    assert_eq!(MAX_TTS_AUDIO_BYTES, 20 * 1024 * 1024);
}
