use zeroclaw_jarvis::voice_wake::WakeState;
use zeroclaw_jarvis::wake_machine::{
    BufferOp, ChunkInput, TranscriptionKind, WakeConfig, WakeMachine, WakeNotice,
};

fn config(clap_gate_enabled: bool) -> WakeConfig {
    WakeConfig {
        wake_word: "Jarvis".to_string(),
        alias: "jarvis".to_string(),
        silence_timeout_ms: 1200,
        max_capture_ms: 8000,
        clap_gate_enabled,
        clap_count: 2,
        clap_window_ms: 1200,
        clap_cooldown_ms: 90,
        clap_gate_timeout_ms: 5000,
        post_wake_capture_delay_ms: 3000,
    }
}

fn chunk(now_ms: u64, loud: bool, clap_peak: bool) -> ChunkInput {
    ChunkInput { now_ms, loud, clap_peak, near_clap: clap_peak }
}

#[test]
fn machine_lowercases_the_wake_word() {
    let m = WakeMachine::new(config(true), 0);
    assert_eq!(m.wake_word, "jarvis");
    assert_eq!(m.state, WakeState::Listening);
}

#[test]
fn double_clap_then_voice_activates_and_dispatches() {
    let mut m = WakeMachine::new(config(true), 0);
    let out = m.on_chunk(chunk(1000, true, true));
    assert_eq!(out.notice, Some(WakeNotice::FirstClap));
    assert!(out.energy_probe);
    let out = m.on_chunk(chunk(1160, true, true));
    assert_eq!(out.notice, Some(WakeNotice::DoubleClapDetected));
    assert!(!out.energy_probe);
    assert_eq!(out.buffer, BufferOp::Clear);
    assert_eq!(m.state, WakeState::Triggered);
    assert!(m.clap_gate_armed);

    let out = m.on_chunk(chunk(2000, false, false));
    assert_eq!(out.buffer, BufferOp::Keep);
    let out = m.on_chunk(chunk(2500, true, false));
    assert_eq!(out.notice, Some(WakeNotice::WakeNameAudioStarted));
    assert_eq!(out.buffer, BufferOp::Restart);
    let out = m.on_chunk(chunk(3000, false, false));
    assert_eq!(out.buffer, BufferOp::Append);
    assert_eq!(out.notice, None);
    let out = m.on_chunk(chunk(3700, false, false));
    assert_eq!(out.notice, Some(WakeNotice::WakeConfirmedByClapVoice));
    assert_eq!(m.state, WakeState::Capturing);
    assert_eq!(m.capture_not_before, 6700);

    let out = m.on_chunk(chunk(5000, true, false));
    assert_eq!(out.buffer, BufferOp::Keep);
    let out = m.on_chunk(chunk(7000, false, false));
    assert_eq!(out.buffer, BufferOp::Append);
    assert_eq!(out.transcribe, None);
    let out = m.on_chunk(chunk(7500, true, false));
    assert_eq!(out.transcribe, None);
    let out = m.on_chunk(chunk(8800, false, false));
    assert_eq!(out.transcribe, Some(TranscriptionKind::Utterance));
    assert_eq!(out.notice, Some(WakeNotice::UtteranceTranscribing));

    let (msg, notice) = m.on_utterance_transcript(Some("최적과 소고기를 찾아줘".to_string()), 42);
    assert_eq!(notice, WakeNotice::UtteranceReady);
    let msg = msg.unwrap();
    assert_eq!(msg.id, "voice_wake_1");
    assert_eq!(msg.content, "최저가 소고기를 찾아줘");
    assert_eq!(msg.timestamp, 42);
    assert_eq!(m.state, WakeState::Listening);
    assert_eq!(m.msg_counter, 1);
}

#[test]
fn silence_after_wake_times_out_without_dispatch() {
    let mut m = WakeMachine::new(config(true), 0);
    m.on_chunk(chunk(100, true, true));
    m.on_chunk(chunk(300, true, true));
    m.on_chunk(chunk(400, true, false));
    let out = m.on_chunk(chunk(1700, false, false));
    assert_eq!(out.notice, Some(WakeNotice::WakeConfirmedByClapVoice));
    let ready = m.capture_not_before;
    let out = m.on_chunk(chunk(ready + 1500, false, false));
    assert_eq!(out.transcribe, None);
    assert_eq!(m.state, WakeState::Capturing);
    let out = m.on_chunk(chunk(ready + 8000, false, false));
    assert_eq!(out.notice, Some(WakeNotice::UtteranceTimeoutNoVoice));
    assert_eq!(out.buffer, BufferOp::Clear);
    assert_eq!(m.state, WakeState::Listening);
}

#[test]
fn clap_gate_times_out_without_voice() {
    let mut m = WakeMachine::new(config(true), 0);
    m.on_chunk(chunk(100, true, true));
    m.on_chunk(chunk(300, true, true));
    let out = m.on_chunk(chunk(5299, false, false));
    assert_eq!(out.notice, None);
    let out = m.on_chunk(chunk(5300, false, false));
    assert_eq!(out.notice, Some(WakeNotice::WakeNameTimeout));
    assert_eq!(m.state, WakeState::Listening);
    assert!(!m.clap_gate_armed);
}

#[test]
fn energy_spike_wake_check_uses_transcript() {
    let mut m = WakeMachine::new(config(false), 0);
    let out = m.on_chunk(chunk(100, true, false));
    assert_eq!(out.notice, Some(WakeNotice::EnergySpike));
    assert_eq!(out.buffer, BufferOp::Restart);
    let out = m.on_chunk(chunk(1400, false, false));
    assert_eq!(out.transcribe, Some(TranscriptionKind::WakeCheck));
    assert_eq!(out.buffer, BufferOp::Append);
    let notice = m.on_wake_transcript(Some("Hey JARVIS".to_string()), 2000);
    assert_eq!(notice, WakeNotice::WakeConfirmedByWakeWord);
    assert_eq!(m.state, WakeState::Capturing);
    assert_eq!(m.capture_not_before, 5000);
}

#[test]
fn wake_check_without_wake_word_goes_back_to_listening() {
    let mut m = WakeMachine::new(config(false), 0);
    m.on_chunk(chunk(100, true, false));
    m.on_chunk(chunk(1400, false, false));
    let notice = m.on_wake_transcript(Some("서비스".to_string()), 2000);
    assert_eq!(notice, WakeNotice::NoWakeWord);
    assert_eq!(m.state, WakeState::Listening);

    m.on_chunk(chunk(3000, true, false));
    m.on_chunk(chunk(4300, false, false));
    let notice = m.on_wake_transcript(None, 4400);
    assert_eq!(notice, WakeNotice::WakeCheckFailed);
    assert_eq!(m.state, WakeState::Listening);
}

#[test]
fn blank_utterance_is_not_dispatched() {
    let mut m = WakeMachine::new(config(false), 0);
    m.on_chunk(chunk(100, true, false));
    m.on_chunk(chunk(1400, false, false));
    m.on_wake_transcript(Some("jarvis".to_string()), 1500);
    let ready = m.capture_not_before;
    m.on_chunk(chunk(ready, true, false));
    let out = m.on_chunk(chunk(ready + 1200, false, false));
    assert_eq!(out.transcribe, Some(TranscriptionKind::Utterance));
    let (msg, notice) = m.on_utterance_transcript(Some("   ".to_string()), 1);
    assert!(msg.is_none());
    assert_eq!(notice, WakeNotice::UtteranceEmpty);
    assert_eq!(m.msg_counter, 0);
    assert_eq!(m.state, WakeState::Listening);
}

#[test]
fn clap_mode_never_transcribes_the_wake_window() {
    let mut m = WakeMachine::new(config(true), 0);
    let mut now = 0;
    for step in 0..200u64 {
        now += 137;
        let loud = step % 3 != 0;
        let out = m.on_chunk(chunk(now, loud, step % 5 == 0));
        assert_ne!(out.transcribe, Some(TranscriptionKind::WakeCheck));
        if m.state == WakeState::Triggered {
            assert!(m.clap_gate_armed);
        }
        if out.transcribe == Some(TranscriptionKind::Utterance) {
            m.on_utterance_transcript(None, now);
        }
    }
}
