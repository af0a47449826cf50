//! The decisions of the voice wake channel's listen loop, as a state machine.
//!
//! The loop around it reads audio chunks, measures their energy against the
//! thresholds, keeps the captured audio, runs transcription and dispatches
//! messages; for each chunk and each transcription result it asks this
//! machine what to do next.

use vstd::prelude::*;
use crate::text::trim;
use crate::voice_wake::{
    build_voice_wake_message, elapsed, spec_clap_voice_fallback_matches,
    spec_normalize_voice_utterance_text, spec_should_finish_capture, spec_wake_word_matches,
    clap_voice_fallback_matches, decimal, wake_word_matches, ClapDetector, ClapGateEvent,
    VoiceMessage, WakeState,
};

verus! {

/// The interval between two energy-probe notices, in milliseconds.
pub const ENERGY_PROBE_INTERVAL_MS: u64 = 250;

/// What the machine asks to be transcribed.
#[derive(Debug, Clone, Copy, PartialEq, Eq, Structural)]
pub enum TranscriptionKind {
    /// The audio of the wake window, checked for the wake word.
    WakeCheck,
    /// The utterance captured after the wake word.
    Utterance,
}

/// What happens to the captured audio.
#[derive(Debug, Clone, Copy, PartialEq, Eq, Structural)]
pub enum BufferOp {
    /// Left as it is.
    Keep,
    /// Emptied.
    Clear,
    /// Emptied, then the chunk appended.
    Restart,
    /// The chunk appended.
    Append,
}

/// The observable events of the detector (the phases it reports).
#[derive(Debug, Clone, Copy, PartialEq, Eq, Structural)]
pub enum WakeNotice {
    FirstClap,
    DoubleClapDetected,
    ClapWindowExpired,
    EnergySpike,
    WakeNameAudioStarted,
    WakeNameTimeout,
    WakeConfirmedByClapVoice,
    WakeCheckTranscribing,
    WakeConfirmedByWakeWord,
    WakeConfirmedByClapFallback,
    NoWakeWord,
    WakeCheckFailed,
    UtteranceTimeoutNoVoice,
    UtteranceTranscribing,
    UtteranceReady,
    UtteranceEmpty,
    UtteranceFailed,
}

/// One audio chunk as the machine sees it: when it arrived, and how its
/// energy compares with the voice threshold, the clap threshold and half the
/// clap threshold.
#[derive(Debug, Clone, Copy, PartialEq, Eq, Structural)]
pub struct ChunkInput {
    pub now_ms: u64,
    pub loud: bool,
    pub clap_peak: bool,
    pub near_clap: bool,
}

/// What to do after a chunk.
#[derive(Debug, Clone, Copy, PartialEq, Eq, Structural)]
pub struct ChunkOutcome {
    pub buffer: BufferOp,
    pub energy_probe: bool,
    pub notice: Option<WakeNotice>,
    pub transcribe: Option<TranscriptionKind>,
}

/// The settings of the detector.
pub struct WakeConfig {
    pub wake_word: String,
    pub alias: String,
    pub silence_timeout_ms: u64,
    pub max_capture_ms: u64,
    pub clap_gate_enabled: bool,
    pub clap_count: u8,
    pub clap_window_ms: u64,
    pub clap_cooldown_ms: u64,
    pub clap_gate_timeout_ms: u64,
    pub post_wake_capture_delay_ms: u64,
}

/// The detector's state.
pub struct WakeMachine {
    pub wake_word: String,
    pub alias: String,
    pub silence_timeout_ms: u64,
    pub max_capture_ms: u64,
    pub clap_gate_enabled: bool,
    pub clap_gate_timeout_ms: u64,
    pub post_wake_capture_delay_ms: u64,
    pub state: WakeState,
    pub last_voice_at: u64,
    pub capture_start: u64,
    pub capture_not_before: u64,
    pub last_energy_probe_log_at: u64,
    pub capture_has_voice: bool,
    pub clap_gate_armed: bool,
    pub triggered_has_voice: bool,
    pub msg_counter: u64,
    pub clap: ClapDetector,
    pub pending: Option<TranscriptionKind>,
}

/// `a + b`, capped at `u64::MAX`.
pub open spec fn sat_add(a: u64, b: u64) -> u64 {
    if a + b <= u64::MAX {
        (a + b) as u64
    } else {
        u64::MAX
    }
}

pub open spec fn outcome(
    buffer: BufferOp,
    energy_probe: bool,
    notice: Option<WakeNotice>,
    transcribe: Option<TranscriptionKind>,
) -> ChunkOutcome {
    ChunkOutcome { buffer, energy_probe, notice, transcribe }
}

pub open spec fn quiet() -> ChunkOutcome {
    outcome(BufferOp::Keep, false, None, None)
}

/// What `str::to_lowercase` gives for `s`.
pub uninterp spec fn spec_to_lowercase(s: Seq<char>) -> Seq<char>;

/// `str::to_lowercase` of std. Its result is named by `spec_to_lowercase`.
#[verifier::external_body]
fn to_lowercase(s: &str) -> (out: String)
    ensures
        out@ == spec_to_lowercase(s@),
{
    s.to_lowercase()
}

/// A message built for the utterance `raw` under `alias` with number `counter`.
pub open spec fn is_voice_message(
    m: VoiceMessage,
    alias: Seq<char>,
    counter: u64,
    raw: Seq<char>,
    timestamp: u64,
) -> bool {
    &&& m.id@ == "voice_wake_"@ + decimal(counter as nat)
    &&& m.sender@ == "voice_user"@
    &&& m.reply_target@ == "voice_user"@
    &&& m.content@ == spec_normalize_voice_utterance_text(raw)
    &&& m.channel@ == "voice_wake"@
    &&& m.timestamp == timestamp
    &&& m.channel_alias matches Some(a) && a@ == alias
}

impl WakeMachine {
    /// The machine's invariant: the clap detector is well formed, the unused
    /// `Processing` state is never entered, the clap gate is armed only while
    /// waiting for the wake name, and a pending transcription belongs to the
    /// state that asked for it, after voice was heard.
    pub open spec fn wf(self) -> bool {
        &&& self.clap.wf()
        &&& self.state != WakeState::Processing
        &&& self.clap_gate_armed ==> self.state == WakeState::Triggered
        &&& self.pending == Some(TranscriptionKind::WakeCheck) ==> self.state
            == WakeState::Triggered && self.triggered_has_voice
        &&& self.pending == Some(TranscriptionKind::Utterance) ==> self.state
            == WakeState::Capturing && self.capture_has_voice
    }

    /// The machine after a confirmed wake: capturing the utterance, which
    /// starts `ready` (after the post-wake delay).
    pub open spec fn spec_enter_capture(self, ready: u64) -> WakeMachine {
        WakeMachine {
            state: WakeState::Capturing,
            clap_gate_armed: false,
            triggered_has_voice: false,
            capture_has_voice: false,
            capture_not_before: ready,
            last_voice_at: ready,
            capture_start: ready,
            pending: None,
            ..self
        }
    }

    /// The machine back at listening.
    pub open spec fn spec_back_to_listening(self) -> WakeMachine {
        WakeMachine {
            state: WakeState::Listening,
            clap_gate_armed: false,
            triggered_has_voice: false,
            capture_has_voice: false,
            pending: None,
            ..self
        }
    }

    /// The step for one audio chunk.
    pub open spec fn spec_on_chunk(self, i: ChunkInput) -> (WakeMachine, ChunkOutcome) {
        let m = self;
        let now = i.now_ms;
        match m.state {
            WakeState::Listening => {
                if m.clap_gate_enabled {
                    let probe = i.near_clap && elapsed(now, m.last_energy_probe_log_at)
                        >= ENERGY_PROBE_INTERVAL_MS;
                    let m1 = if probe {
                        WakeMachine { last_energy_probe_log_at: now, ..m }
                    } else {
                        m
                    };
                    let (clap, ev) = m1.clap.spec_observe(i.clap_peak, now);
                    let m2 = WakeMachine { clap, ..m1 };
                    match ev {
                        ClapGateEvent::FirstClap => (
                            m2,
                            outcome(BufferOp::Keep, probe, Some(WakeNotice::FirstClap), None),
                        ),
                        ClapGateEvent::Complete => (
                            WakeMachine {
                                state: WakeState::Triggered,
                                clap_gate_armed: true,
                                triggered_has_voice: false,
                                last_voice_at: now,
                                capture_start: now,
                                ..m2
                            },
                            outcome(
                                BufferOp::Clear,
                                probe,
                                Some(WakeNotice::DoubleClapDetected),
                                None,
                            ),
                        ),
                        ClapGateEvent::Expired => (
                            m2,
                            outcome(
                                BufferOp::Keep,
                                probe,
                                Some(WakeNotice::ClapWindowExpired),
                                None,
                            ),
                        ),
                        ClapGateEvent::NoEvent => (m2, outcome(BufferOp::Keep, probe, None, None)),
                    }
                } else if i.loud {
                    (
                        WakeMachine {
                            state: WakeState::Triggered,
                            clap_gate_armed: false,
                            triggered_has_voice: true,
                            last_voice_at: now,
                            capture_start: now,
                            ..m
                        },
                        outcome(BufferOp::Restart, false, Some(WakeNotice::EnergySpike), None),
                    )
                } else {
                    (m, quiet())
                }
            },
            WakeState::Triggered => {
                if !m.triggered_has_voice {
                    if i.loud {
                        (
                            WakeMachine {
                                triggered_has_voice: true,
                                last_voice_at: now,
                                capture_start: now,
                                ..m
                            },
                            outcome(
                                BufferOp::Restart,
                                false,
                                if m.clap_gate_armed {
                                    Some(WakeNotice::WakeNameAudioStarted)
                                } else {
                                    None
                                },
                                None,
                            ),
                        )
                    } else if m.clap_gate_armed && elapsed(now, m.capture_start)
                        >= m.clap_gate_timeout_ms {
                        (
                            WakeMachine { state: WakeState::Listening, clap_gate_armed: false, ..m },
                            outcome(BufferOp::Clear, false, Some(WakeNotice::WakeNameTimeout), None),
                        )
                    } else {
                        (m, quiet())
                    }
                } else {
                    let last_voice = if i.loud {
                        now
                    } else {
                        m.last_voice_at
                    };
                    let m1 = WakeMachine { last_voice_at: last_voice, ..m };
                    let finish = spec_should_finish_capture(
                        true,
                        elapsed(now, last_voice),
                        elapsed(now, m.capture_start),
                        m.silence_timeout_ms,
                        m.max_capture_ms,
                    );
                    if finish && m.clap_gate_armed {
                        (
                            m1.spec_enter_capture(sat_add(now, m.post_wake_capture_delay_ms)),
                            outcome(
                                BufferOp::Clear,
                                false,
                                Some(WakeNotice::WakeConfirmedByClapVoice),
                                None,
                            ),
                        )
                    } else if finish {
                        (
                            WakeMachine { pending: Some(TranscriptionKind::WakeCheck), ..m1 },
                            outcome(
                                BufferOp::Append,
                                false,
                                Some(WakeNotice::WakeCheckTranscribing),
                                Some(TranscriptionKind::WakeCheck),
                            ),
                        )
                    } else {
                        (m1, outcome(BufferOp::Append, false, None, None))
                    }
                }
            },
            WakeState::Capturing => {
                if now < m.capture_not_before {
                    (m, quiet())
                } else {
                    let has_voice = m.capture_has_voice || i.loud;
                    let last_voice = if i.loud {
                        now
                    } else {
                        m.last_voice_at
                    };
                    let m1 = WakeMachine { capture_has_voice: has_voice, last_voice_at: last_voice, ..m };
                    if spec_should_finish_capture(
                        has_voice,
                        elapsed(now, last_voice),
                        elapsed(now, m.capture_start),
                        m.silence_timeout_ms,
                        m.max_capture_ms,
                    ) {
                        if !has_voice {
                            (
                                WakeMachine {
                                    state: WakeState::Listening,
                                    clap_gate_armed: false,
                                    triggered_has_voice: false,
                                    ..m1
                                },
                                outcome(
                                    BufferOp::Clear,
                                    false,
                                    Some(WakeNotice::UtteranceTimeoutNoVoice),
                                    None,
                                ),
                            )
                        } else {
                            (
                                WakeMachine { pending: Some(TranscriptionKind::Utterance), ..m1 },
                                outcome(
                                    BufferOp::Append,
                                    false,
                                    Some(WakeNotice::UtteranceTranscribing),
                                    Some(TranscriptionKind::Utterance),
                                ),
                            )
                        }
                    } else {
                        (m1, outcome(BufferOp::Append, false, None, None))
                    }
                }
            },
            WakeState::Processing => (m, quiet()),
        }
    }

    /// The step for the transcript of the wake window (`None` when
    /// transcription failed), given lower-cased, at time `now`.
    pub open spec fn spec_on_wake_transcript(self, lower: Option<Seq<char>>, now: u64) -> (
        WakeMachine,
        WakeNotice,
    ) {
        match lower {
            None => (self.spec_back_to_listening(), WakeNotice::WakeCheckFailed),
            Some(t) => {
                if spec_wake_word_matches(t, self.wake_word@) {
                    (
                        self.spec_enter_capture(sat_add(now, self.post_wake_capture_delay_ms)),
                        WakeNotice::WakeConfirmedByWakeWord,
                    )
                } else if spec_clap_voice_fallback_matches(
                    t,
                    self.wake_word@,
                    self.clap_gate_armed,
                ) {
                    (
                        self.spec_enter_capture(sat_add(now, self.post_wake_capture_delay_ms)),
                        WakeNotice::WakeConfirmedByClapFallback,
                    )
                } else {
                    (self.spec_back_to_listening(), WakeNotice::NoWakeWord)
                }
            },
        }
    }

    /// The machine for `config` at time `now`, with the wake word given
    /// lower-cased.
    pub fn with_lowercase_wake_word(config: WakeConfig, wake_word_lower: String, now_ms: u64) -> (m:
        WakeMachine)
        ensures
            m.wf(),
            m.wake_word == wake_word_lower,
            m.alias == config.alias,
            m.silence_timeout_ms == config.silence_timeout_ms,
            m.max_capture_ms == config.max_capture_ms,
            m.clap_gate_enabled == config.clap_gate_enabled,
            m.clap_gate_timeout_ms == config.clap_gate_timeout_ms,
            m.post_wake_capture_delay_ms == config.post_wake_capture_delay_ms,
            m.state == WakeState::Listening,
            m.last_voice_at == now_ms && m.capture_start == now_ms && m.capture_not_before
                == now_ms && m.last_energy_probe_log_at == now_ms,
            !m.capture_has_voice && !m.clap_gate_armed && !m.triggered_has_voice,
            m.msg_counter == 0,
            m.pending is None,
            m.clap == ClapDetector::new_spec(
                config.clap_count,
                config.clap_window_ms,
                config.clap_cooldown_ms,
            ),
    {
        WakeMachine {
            wake_word: wake_word_lower,
            alias: config.alias,
            silence_timeout_ms: config.silence_timeout_ms,
            max_capture_ms: config.max_capture_ms,
            clap_gate_enabled: config.clap_gate_enabled,
            clap_gate_timeout_ms: config.clap_gate_timeout_ms,
            post_wake_capture_delay_ms: config.post_wake_capture_delay_ms,
            state: WakeState::Listening,
            last_voice_at: now_ms,
            capture_start: now_ms,
            capture_not_before: now_ms,
            last_energy_probe_log_at: now_ms,
            capture_has_voice: false,
            clap_gate_armed: false,
            triggered_has_voice: false,
            msg_counter: 0,
            clap: ClapDetector::new(
                config.clap_count,
                config.clap_window_ms,
                config.clap_cooldown_ms,
            ),
            pending: None,
        }
    }

    /// The machine for `config` at time `now`; the wake word is matched
    /// lower-cased.
    pub fn new(config: WakeConfig, now_ms: u64) -> (m: WakeMachine)
        ensures
            m.wf(),
            m.wake_word@ == spec_to_lowercase(config.wake_word@),
            m.alias == config.alias,
            m.silence_timeout_ms == config.silence_timeout_ms,
            m.max_capture_ms == config.max_capture_ms,
            m.clap_gate_enabled == config.clap_gate_enabled,
            m.clap_gate_timeout_ms == config.clap_gate_timeout_ms,
            m.post_wake_capture_delay_ms == config.post_wake_capture_delay_ms,
            m.state == WakeState::Listening,
            m.last_voice_at == now_ms && m.capture_start == now_ms && m.capture_not_before
                == now_ms && m.last_energy_probe_log_at == now_ms,
            !m.capture_has_voice && !m.clap_gate_armed && !m.triggered_has_voice,
            m.msg_counter == 0,
            m.pending is None,
            m.clap == ClapDetector::new_spec(
                config.clap_count,
                config.clap_window_ms,
                config.clap_cooldown_ms,
            ),
    {
        let lower = to_lowercase(config.wake_word.as_str());
        Self::with_lowercase_wake_word(config, lower, now_ms)
    }

    /// Decides what to do with one audio chunk.
    #[verifier::rlimit(30)]
    pub fn on_chunk(&mut self, input: ChunkInput) -> (out: ChunkOutcome)
        requires
            old(self).wf(),
            old(self).pending is None,
        ensures
            (*final(self), out) == old(self).spec_on_chunk(input),
            final(self).wf(),
    {
        let now = input.now_ms;
        match self.state {
            WakeState::Listening => {
                if self.clap_gate_enabled {
                    let probe = input.near_clap && now.saturating_sub(self.last_energy_probe_log_at)
                        >= ENERGY_PROBE_INTERVAL_MS;
                    if probe {
                        self.last_energy_probe_log_at = now;
                    }
                    let ev = self.clap.observe(input.clap_peak, now);
                    match ev {
                        ClapGateEvent::FirstClap => ChunkOutcome {
                            buffer: BufferOp::Keep,
                            energy_probe: probe,
                            notice: Some(WakeNotice::FirstClap),
                            transcribe: None,
                        },
                        ClapGateEvent::Complete => {
                            self.state = WakeState::Triggered;
                            self.clap_gate_armed = true;
                            self.triggered_has_voice = false;
                            self.last_voice_at = now;
                            self.capture_start = now;
                            ChunkOutcome {
                                buffer: BufferOp::Clear,
                                energy_probe: probe,
                                notice: Some(WakeNotice::DoubleClapDetected),
                                transcribe: None,
                            }
                        },
                        ClapGateEvent::Expired => ChunkOutcome {
                            buffer: BufferOp::Keep,
                            energy_probe: probe,
                            notice: Some(WakeNotice::ClapWindowExpired),
                            transcribe: None,
                        },
                        ClapGateEvent::NoEvent => ChunkOutcome {
                            buffer: BufferOp::Keep,
                            energy_probe: probe,
                            notice: None,
                            transcribe: None,
                        },
                    }
                } else if input.loud {
                    self.state = WakeState::Triggered;
                    self.clap_gate_armed = false;
                    self.triggered_has_voice = true;
                    self.last_voice_at = now;
                    self.capture_start = now;
                    ChunkOutcome {
                        buffer: BufferOp::Restart,
                        energy_probe: false,
                        notice: Some(WakeNotice::EnergySpike),
                        transcribe: None,
                    }
                } else {
                    ChunkOutcome {
                        buffer: BufferOp::Keep,
                        energy_probe: false,
                        notice: None,
                        transcribe: None,
                    }
                }
            },
            WakeState::Triggered => {
                if !self.triggered_has_voice {
                    if input.loud {
                        self.triggered_has_voice = true;
                        self.last_voice_at = now;
                        self.capture_start = now;
                        ChunkOutcome {
                            buffer: BufferOp::Restart,
                            energy_probe: false,
                            notice: if self.clap_gate_armed {
                                Some(WakeNotice::WakeNameAudioStarted)
                            } else {
                                None
                            },
                            transcribe: None,
                        }
                    } else if self.clap_gate_armed && now.saturating_sub(self.capture_start)
                        >= self.clap_gate_timeout_ms {
                        self.state = WakeState::Listening;
                        self.clap_gate_armed = false;
                        ChunkOutcome {
                            buffer: BufferOp::Clear,
                            energy_probe: false,
                            notice: Some(WakeNotice::WakeNameTimeout),
                            transcribe: None,
                        }
                    } else {
                        ChunkOutcome {
                            buffer: BufferOp::Keep,
                            energy_probe: false,
                            notice: None,
                            transcribe: None,
                        }
                    }
                } else {
                    if input.loud {
                        self.last_voice_at = now;
                    }
                    let since_voice = now.saturating_sub(self.last_voice_at);
                    let since_start = now.saturating_sub(self.capture_start);
                    let finish = since_voice >= self.silence_timeout_ms || since_start
                        >= self.max_capture_ms;
                    if finish && self.clap_gate_armed {
                        let ready = now.saturating_add(self.post_wake_capture_delay_ms);
                        self.enter_capture(ready);
                        ChunkOutcome {
                            buffer: BufferOp::Clear,
                            energy_probe: false,
                            notice: Some(WakeNotice::WakeConfirmedByClapVoice),
                            transcribe: None,
                        }
                    } else if finish {
                        self.pending = Some(TranscriptionKind::WakeCheck);
                        ChunkOutcome {
                            buffer: BufferOp::Append,
                            energy_probe: false,
                            notice: Some(WakeNotice::WakeCheckTranscribing),
                            transcribe: Some(TranscriptionKind::WakeCheck),
                        }
                    } else {
                        ChunkOutcome {
                            buffer: BufferOp::Append,
                            energy_probe: false,
                            notice: None,
                            transcribe: None,
                        }
                    }
                }
            },
            WakeState::Capturing => {
                if now < self.capture_not_before {
                    return ChunkOutcome {
                        buffer: BufferOp::Keep,
                        energy_probe: false,
                        notice: None,
                        transcribe: None,
                    };
                }
                if input.loud {
                    self.capture_has_voice = true;
                    self.last_voice_at = now;
                }
                let since_voice = now.saturating_sub(self.last_voice_at);
                let since_start = now.saturating_sub(self.capture_start);
                let finish = (self.capture_has_voice && since_voice >= self.silence_timeout_ms)
                    || since_start >= self.max_capture_ms;
                if finish {
                    if !self.capture_has_voice {
                        self.state = WakeState::Listening;
                        self.clap_gate_armed = false;
                        self.triggered_has_voice = false;
                        ChunkOutcome {
                            buffer: BufferOp::Clear,
                            energy_probe: false,
                            notice: Some(WakeNotice::UtteranceTimeoutNoVoice),
                            transcribe: None,
                        }
                    } else {
                        self.pending = Some(TranscriptionKind::Utterance);
                        ChunkOutcome {
                            buffer: BufferOp::Append,
                            energy_probe: false,
                            notice: Some(WakeNotice::UtteranceTranscribing),
                            transcribe: Some(TranscriptionKind::Utterance),
                        }
                    }
                } else {
                    ChunkOutcome {
                        buffer: BufferOp::Append,
                        energy_probe: false,
                        notice: None,
                        transcribe: None,
                    }
                }
            },
            WakeState::Processing => ChunkOutcome {
                buffer: BufferOp::Keep,
                energy_probe: false,
                notice: None,
                transcribe: None,
            },
        }
    }

    fn enter_capture(&mut self, ready: u64)
        ensures
            *final(self) == old(self).spec_enter_capture(ready),
    {
        self.state = WakeState::Capturing;
        self.clap_gate_armed = false;
        self.triggered_has_voice = false;
        self.capture_has_voice = false;
        self.capture_not_before = ready;
        self.last_voice_at = ready;
        self.capture_start = ready;
        self.pending = None;
    }

    fn back_to_listening(&mut self)
        ensures
            *final(self) == old(self).spec_back_to_listening(),
    {
        self.state = WakeState::Listening;
        self.clap_gate_armed = false;
        self.triggered_has_voice = false;
        self.capture_has_voice = false;
        self.pending = None;
    }

    /// Decides on the lower-cased transcript of the wake window (`None` when
    /// transcription failed), received at time `now`.
    pub fn on_lowercase_wake_transcript(&mut self, lower: Option<String>, now_ms: u64) -> (notice:
        WakeNotice)
        requires
            old(self).wf(),
            old(self).pending == Some(TranscriptionKind::WakeCheck),
        ensures
            (*final(self), notice) == old(self).spec_on_wake_transcript(
                match lower {
                    Some(t) => Some(t@),
                    None => None,
                },
                now_ms,
            ),
            final(self).wf(),
    {
        match lower {
            None => {
                self.back_to_listening();
                WakeNotice::WakeCheckFailed
            },
            Some(t) => {
                let by_word = wake_word_matches(t.as_str(), self.wake_word.as_str());
                let by_fallback = clap_voice_fallback_matches(
                    t.as_str(),
                    self.wake_word.as_str(),
                    self.clap_gate_armed,
                );
                if by_word {
                    let ready = now_ms.saturating_add(self.post_wake_capture_delay_ms);
                    self.enter_capture(ready);
                    WakeNotice::WakeConfirmedByWakeWord
                } else if by_fallback {
                    let ready = now_ms.saturating_add(self.post_wake_capture_delay_ms);
                    self.enter_capture(ready);
                    WakeNotice::WakeConfirmedByClapFallback
                } else {
                    self.back_to_listening();
                    WakeNotice::NoWakeWord
                }
            },
        }
    }

    /// Decides on the transcript of the wake window (`None` when transcription
    /// failed), received at time `now`; it is matched lower-cased.
    pub fn on_wake_transcript(&mut self, transcript: Option<String>, now_ms: u64) -> (notice:
        WakeNotice)
        requires
            old(self).wf(),
            old(self).pending == Some(TranscriptionKind::WakeCheck),
        ensures
            (*final(self), notice) == old(self).spec_on_wake_transcript(
                match transcript {
                    Some(t) => Some(spec_to_lowercase(t@)),
                    None => None,
                },
                now_ms,
            ),
            final(self).wf(),
    {
        let lower = match transcript {
            Some(t) => Some(to_lowercase(t.as_str())),
            None => None,
        };
        self.on_lowercase_wake_transcript(lower, now_ms)
    }

    /// Decides on the transcript of the utterance (`None` when transcription
    /// failed): a non-blank transcript becomes the next message, numbered
    /// after the last one; either way the machine goes back to listening.
    pub fn on_utterance_transcript(&mut self, transcript: Option<String>, timestamp: u64) -> (r: (
        Option<VoiceMessage>,
        WakeNotice,
    ))
        requires
            old(self).wf(),
            old(self).pending == Some(TranscriptionKind::Utterance),
        ensures
            final(self).wf(),
            final(self).state == WakeState::Listening,
            final(self).pending is None,
            ({
                let next = sat_add(old(self).msg_counter, 1);
                match transcript {
                    None => r.0 is None && r.1 == WakeNotice::UtteranceFailed
                        && *final(self) == old(self).spec_back_to_listening(),
                    Some(t) => if trim(t@).len() == 0 {
                        r.0 is None && r.1 == WakeNotice::UtteranceEmpty
                            && *final(self) == old(self).spec_back_to_listening()
                    } else {
                        &&& r.1 == WakeNotice::UtteranceReady
                        &&& r.0 matches Some(m) && is_voice_message(
                            m,
                            old(self).alias@,
                            next,
                            t@,
                            timestamp,
                        )
                        &&& *final(self) == WakeMachine {
                            msg_counter: next,
                            ..old(self).spec_back_to_listening()
                        }
                    },
                }
            }),
    {
        let result = match transcript {
            None => (None, WakeNotice::UtteranceFailed),
            Some(t) => {
                let next = self.msg_counter.saturating_add(1);
                match build_voice_wake_message(self.alias.as_str(), next, t.as_str(), timestamp) {
                    Some(m) => {
                        self.msg_counter = next;
                        (Some(m), WakeNotice::UtteranceReady)
                    },
                    None => (None, WakeNotice::UtteranceEmpty),
                }
            },
        };
        self.back_to_listening();
        result
    }
}

/// Law: every chunk step keeps the machine's invariant, and a transcription
/// is asked for exactly when one becomes pending.
#[verifier::rlimit(30)]
pub proof fn law_chunk_keeps_invariant(m: WakeMachine, i: ChunkInput)
    requires
        m.wf(),
        m.pending is None,
    ensures
        m.spec_on_chunk(i).0.wf(),
        m.spec_on_chunk(i).0.pending == m.spec_on_chunk(i).1.transcribe,
{
    if m.state == WakeState::Listening && m.clap_gate_enabled {
        let probe = i.near_clap && elapsed(i.now_ms, m.last_energy_probe_log_at)
            >= ENERGY_PROBE_INTERVAL_MS;
        let m1 = if probe {
            WakeMachine { last_energy_probe_log_at: i.now_ms, ..m }
        } else {
            m
        };
        crate::voice_wake::law_clap_gesture(m1.clap, i.clap_peak, i.now_ms);
    }
}

/// Law: audio is sent for transcription only after voice was heard: the wake
/// window only when voice followed the trigger and the clap gate is not armed
/// (an armed gate with voice activates at once), the utterance only when it
/// holds voice.
pub proof fn law_transcription_only_after_voice(m: WakeMachine, i: ChunkInput)
    requires
        m.wf(),
        m.pending is None,
    ensures
        m.spec_on_chunk(i).1.transcribe == Some(TranscriptionKind::WakeCheck) ==> m.state
            == WakeState::Triggered && m.triggered_has_voice && !m.clap_gate_armed,
        m.spec_on_chunk(i).1.transcribe == Some(TranscriptionKind::Utterance) ==> m.state
            == WakeState::Capturing && m.spec_on_chunk(i).0.capture_has_voice,
{
}

/// Law: a chunk moves the machine into capturing the utterance only when the
/// clap gate was armed and voice followed it; otherwise capturing starts only
/// from a wake transcript that matched.
#[verifier::rlimit(30)]
pub proof fn law_capture_starts_only_on_wake(m: WakeMachine, i: ChunkInput)
    requires
        m.wf(),
        m.pending is None,
        m.state != WakeState::Capturing,
        m.spec_on_chunk(i).0.state == WakeState::Capturing,
    ensures
        m.spec_on_chunk(i).1.notice == Some(WakeNotice::WakeConfirmedByClapVoice),
        m.state == WakeState::Triggered,
        m.clap_gate_armed,
        m.triggered_has_voice,
{
    if m.state == WakeState::Listening && m.clap_gate_enabled {
        let probe = i.near_clap && elapsed(i.now_ms, m.last_energy_probe_log_at)
            >= ENERGY_PROBE_INTERVAL_MS;
        let m1 = if probe {
            WakeMachine { last_energy_probe_log_at: i.now_ms, ..m }
        } else {
            m
        };
        crate::voice_wake::law_clap_gesture(m1.clap, i.clap_peak, i.now_ms);
    }
}

/// Law: a wake transcript leads to capturing only when it matched (the wake
/// word, or after the clap gate enough voiced characters), and otherwise back
/// to listening; nothing stays pending.
pub proof fn law_wake_transcript_decides(m: WakeMachine, lower: Option<Seq<char>>, now: u64)
    requires
        m.wf(),
        m.pending == Some(TranscriptionKind::WakeCheck),
    ensures
        ({
            let (m2, n) = m.spec_on_wake_transcript(lower, now);
            &&& m2.wf()
            &&& m2.pending is None
            &&& (m2.state == WakeState::Capturing <==> (lower matches Some(t) && (
            spec_wake_word_matches(t, m.wake_word@) || spec_clap_voice_fallback_matches(
                t,
                m.wake_word@,
                m.clap_gate_armed,
            ))))
            &&& (m2.state != WakeState::Capturing ==> m2.state == WakeState::Listening)
            &&& (m2.state == WakeState::Capturing ==> m2.capture_not_before == sat_add(
                now,
                m.post_wake_capture_delay_ms,
            ))
        }),
{
}

/// Law: during the post-wake delay, chunks change nothing.
pub proof fn law_post_wake_delay(m: WakeMachine, i: ChunkInput)
    requires
        m.state == WakeState::Capturing,
        i.now_ms < m.capture_not_before,
    ensures
        m.spec_on_chunk(i) == (m, quiet()),
{
}

/// Law: silence after the wake, before the user speaks, keeps the capture
/// open until its maximum length, and never produces a transcription.
pub proof fn law_silence_keeps_capture_open(m: WakeMachine, i: ChunkInput)
    requires
        m.wf(),
        m.state == WakeState::Capturing,
        !m.capture_has_voice,
        !i.loud,
        i.now_ms >= m.capture_not_before,
        elapsed(i.now_ms, m.capture_start) < m.max_capture_ms,
    ensures
        m.spec_on_chunk(i).0.state == WakeState::Capturing,
        m.spec_on_chunk(i).1.transcribe is None,
{
}

/// Law: without voice after the clap gesture, the machine returns to
/// listening once the clap-gate timeout has passed.
pub proof fn law_clap_gate_timeout(m: WakeMachine, i: ChunkInput)
    requires
        m.state == WakeState::Triggered,
        m.clap_gate_armed,
        !m.triggered_has_voice,
        !i.loud,
        elapsed(i.now_ms, m.capture_start) >= m.clap_gate_timeout_ms,
    ensures
        m.spec_on_chunk(i).0.state == WakeState::Listening,
        !m.spec_on_chunk(i).0.clap_gate_armed,
        m.spec_on_chunk(i).1.notice == Some(WakeNotice::WakeNameTimeout),
        m.spec_on_chunk(i).1.buffer == BufferOp::Clear,
{
}

/// Law: in clap-gate mode, `Triggered` implies an armed clap gate. Every chunk
/// step keeps this, and no chunk step then requests a wake-word check. The
/// transcript steps end in `Listening` or `Capturing`, where it holds as well.
#[verifier::rlimit(30)]
pub proof fn law_clap_mode_keeps_gate_armed(m: WakeMachine, i: ChunkInput)
    requires
        m.wf(),
        m.pending is None,
        m.clap_gate_enabled,
        m.state == WakeState::Triggered ==> m.clap_gate_armed,
    ensures
        m.spec_on_chunk(i).0.clap_gate_enabled,
        m.spec_on_chunk(i).0.state == WakeState::Triggered ==> m.spec_on_chunk(i).0.clap_gate_armed,
        m.spec_on_chunk(i).0.pending != Some(TranscriptionKind::WakeCheck),
        m.spec_on_chunk(i).1.transcribe != Some(TranscriptionKind::WakeCheck),
{
    if m.state == WakeState::Listening {
        let probe = i.near_clap && elapsed(i.now_ms, m.last_energy_probe_log_at)
            >= ENERGY_PROBE_INTERVAL_MS;
        let m1 = if probe {
            WakeMachine { last_energy_probe_log_at: i.now_ms, ..m }
        } else {
            m
        };
        crate::voice_wake::law_clap_gesture(m1.clap, i.clap_peak, i.now_ms);
    }
}

/// Law: while the user keeps speaking, the utterance capture goes on: after the
/// post-wake delay, a loud chunk before the capture's maximum length never
/// finishes the capture; it appends the chunk and records that voice was heard
/// at the chunk's time, so the silence timeout counts from the last loud chunk.
pub proof fn law_voice_keeps_capture_going(m: WakeMachine, i: ChunkInput)
    requires
        m.state == WakeState::Capturing,
        i.now_ms >= m.capture_not_before,
        i.loud,
        elapsed(i.now_ms, m.capture_start) < m.max_capture_ms,
        m.silence_timeout_ms > 0,
    ensures
        m.spec_on_chunk(i).0.state == WakeState::Capturing,
        m.spec_on_chunk(i).0.last_voice_at == i.now_ms,
        m.spec_on_chunk(i).0.capture_has_voice,
        m.spec_on_chunk(i).1.transcribe is None,
        m.spec_on_chunk(i).1.buffer == BufferOp::Append,
{
}

/// Law: once voice was heard in the capture, a quiet chunk before the maximum
/// length asks for the utterance to be transcribed exactly when the silence
/// timeout has passed since the last loud chunk.
pub proof fn law_silence_ends_capture(m: WakeMachine, i: ChunkInput)
    requires
        m.state == WakeState::Capturing,
        m.capture_has_voice,
        i.now_ms >= m.capture_not_before,
        !i.loud,
        elapsed(i.now_ms, m.capture_start) < m.max_capture_ms,
    ensures
        m.spec_on_chunk(i).1.transcribe == Some(TranscriptionKind::Utterance) <==> elapsed(
            i.now_ms,
            m.last_voice_at,
        ) >= m.silence_timeout_ms,
        m.spec_on_chunk(i).1.transcribe is None ==> m.spec_on_chunk(i).0.state
            == WakeState::Capturing,
{
}

} // verus!
