//! Wake-word detection: the clap gate, capture timing, transcript matching,
//! the dispatched message and the WAV header of captured audio.

use vstd::prelude::*;
use crate::text::{
    chars_of, contains, contains_chars, count_char, count_char_in, count_voiced,
    count_voiced_in, is_ws, lemma_replace_absent, lemma_replace_first_visible,
    lemma_replace_last_visible, lemma_trim_ends, lemma_trim_visible_ends, occurs_at, replace,
    replace_chars, same_text, string_of, trim, trim_chars,
};

verus! {

/// The states of the wake-word detector.
#[derive(Debug, Clone, Copy, PartialEq, Eq, Structural)]
pub enum WakeState {
    /// Passively monitoring microphone energy levels.
    Listening,
    /// Energy spike detected: capturing a short window to check for the wake word.
    Triggered,
    /// Wake word confirmed: capturing the full utterance that follows.
    Capturing,
    /// Captured audio is being transcribed.
    Processing,
}

pub open spec fn wake_state_name(s: WakeState) -> Seq<char> {
    match s {
        WakeState::Listening => "Listening"@,
        WakeState::Triggered => "Triggered"@,
        WakeState::Capturing => "Capturing"@,
        WakeState::Processing => "Processing"@,
    }
}

impl WakeState {
    /// The name of the state.
    pub fn to_string(&self) -> (s: String)
        ensures
            s@ == wake_state_name(*self),
    {
        match self {
            WakeState::Listening => String::from_str("Listening"),
            WakeState::Triggered => String::from_str("Triggered"),
            WakeState::Capturing => String::from_str("Capturing"),
            WakeState::Processing => String::from_str("Processing"),
        }
    }
}

/// Result of passing one audio chunk through the clap gate.
#[derive(Debug, Clone, Copy, PartialEq, Eq, Structural)]
pub enum ClapGateEvent {
    NoEvent,
    FirstClap,
    Complete,
    Expired,
}

/// `a - b`, or zero when `b` is later (`Instant::duration_since`).
pub open spec fn elapsed(now: u64, since: u64) -> u64 {
    if now >= since {
        (now - since) as u64
    } else {
        0
    }
}

/// Detector for a short sequence of claps. Times are in milliseconds; whether
/// a chunk is loud enough to be a clap is decided by the caller against the
/// clap threshold.
#[derive(Debug, Clone, Copy, PartialEq, Eq, Structural)]
pub struct ClapDetector {
    pub required_count: u8,
    pub window_ms: u64,
    pub cooldown_ms: u64,
    pub count: u8,
    pub first_clap_at: Option<u64>,
    pub last_clap_at: Option<u64>,
}

impl ClapDetector {
    /// The detector's invariant: at least one clap is required, fewer than
    /// that have been counted, and clap times are known exactly while a
    /// gesture is in progress.
    pub open spec fn wf(self) -> bool {
        &&& self.required_count >= 1
        &&& self.count < self.required_count
        &&& (self.count == 0 <==> self.first_clap_at is None)
        &&& (self.count == 0 <==> self.last_clap_at is None)
    }

    /// The detector with its gesture forgotten.
    pub open spec fn spec_reset(self) -> ClapDetector {
        ClapDetector { count: 0, first_clap_at: None, last_clap_at: None, ..self }
    }

    /// One observation: an old partial gesture expires once more than the
    /// window has passed since its first clap; a clap inside the cooldown of
    /// the previous one is ignored; otherwise a clap is counted, and the
    /// gesture completes (and resets) when the required count is reached.
    pub open spec fn spec_observe(self, is_clap: bool, now: u64) -> (ClapDetector, ClapGateEvent) {
        let expired = self.first_clap_at matches Some(f) && elapsed(now, f) > self.window_ms;
        let d = if expired {
            self.spec_reset()
        } else {
            self
        };
        if !is_clap {
            (d, if expired {
                ClapGateEvent::Expired
            } else {
                ClapGateEvent::NoEvent
            })
        } else if d.last_clap_at matches Some(l) && elapsed(now, l) < d.cooldown_ms {
            (d, ClapGateEvent::NoEvent)
        } else {
            let counted = ClapDetector {
                first_clap_at: if d.count == 0 {
                    Some(now)
                } else {
                    d.first_clap_at
                },
                last_clap_at: Some(now),
                count: if d.count < 255 {
                    (d.count + 1) as u8
                } else {
                    255
                },
                ..d
            };
            if counted.count >= counted.required_count {
                (counted.spec_reset(), ClapGateEvent::Complete)
            } else {
                (counted, ClapGateEvent::FirstClap)
            }
        }
    }

    /// A fresh detector: at least one clap required, nothing counted.
    pub open spec fn new_spec(required_count: u8, window_ms: u64, cooldown_ms: u64) -> ClapDetector {
        ClapDetector {
            required_count: if required_count >= 1 {
                required_count
            } else {
                1
            },
            window_ms,
            cooldown_ms,
            count: 0,
            first_clap_at: None,
            last_clap_at: None,
        }
    }

    /// A detector that completes after `required_count` claps (at least one)
    /// within `window_ms`, ignoring claps closer than `cooldown_ms`.
    pub fn new(required_count: u8, window_ms: u64, cooldown_ms: u64) -> (d: ClapDetector)
        ensures
            d == Self::new_spec(required_count, window_ms, cooldown_ms),
            d.wf(),
    {
        ClapDetector {
            required_count: if required_count >= 1 {
                required_count
            } else {
                1
            },
            window_ms,
            cooldown_ms,
            count: 0,
            first_clap_at: None,
            last_clap_at: None,
        }
    }

    /// Forgets the gesture in progress.
    pub fn reset(&mut self)
        ensures
            *final(self) == old(self).spec_reset(),
    {
        self.count = 0;
        self.first_clap_at = None;
        self.last_clap_at = None;
    }

    /// Observes one audio chunk at time `now`; `is_clap` says whether its
    /// energy reached the clap threshold.
    pub fn observe(&mut self, is_clap: bool, now: u64) -> (event: ClapGateEvent)
        requires
            old(self).wf(),
        ensures
            (*final(self), event) == old(self).spec_observe(is_clap, now),
            final(self).wf(),
    {
        let mut expired = false;
        if let Some(first) = self.first_clap_at {
            if now.saturating_sub(first) > self.window_ms {
                self.reset();
                expired = true;
            }
        }
        if !is_clap {
            return if expired {
                ClapGateEvent::Expired
            } else {
                ClapGateEvent::NoEvent
            };
        }
        if let Some(last) = self.last_clap_at {
            if now.saturating_sub(last) < self.cooldown_ms {
                return ClapGateEvent::NoEvent;
            }
        }
        if self.count == 0 {
            self.first_clap_at = Some(now);
        }
        self.last_clap_at = Some(now);
        self.count = self.count.saturating_add(1);
        if self.count >= self.required_count {
            self.reset();
            ClapGateEvent::Complete
        } else {
            ClapGateEvent::FirstClap
        }
    }
}

/// Law: a clap gesture completes exactly when an accepted clap brings the
/// count to the required number, and the completing clap falls within the
/// window of the gesture's first clap; a clap inside the cooldown changes
/// nothing.
pub proof fn law_clap_gesture(d: ClapDetector, is_clap: bool, now: u64)
    requires
        d.wf(),
    ensures
        ({
            let (d2, e) = d.spec_observe(is_clap, now);
            &&& d2.wf()
            &&& (e == ClapGateEvent::Complete ==> is_clap && d2.count == 0 && d.count + 1
                >= d.required_count)
            &&& (e == ClapGateEvent::Complete && d.count > 0 ==> elapsed(now, d.first_clap_at->0)
                <= d.window_ms)
            &&& (e == ClapGateEvent::FirstClap ==> is_clap && d2.count >= 1 && d2.last_clap_at
                == Some(now))
            &&& ((d.last_clap_at matches Some(l) && elapsed(now, l) < d.cooldown_ms && !(
            d.first_clap_at matches Some(f) && elapsed(now, f) > d.window_ms)) ==> d2 == d)
        }),
{
}

/// Law: with a fresh two-clap detector, two claps at least the cooldown and
/// at most the window apart complete the gesture: the first arms it, the
/// second completes it.
pub proof fn law_two_claps_complete(window_ms: u64, cooldown_ms: u64, t: u64, dt: u64)
    requires
        cooldown_ms <= dt <= window_ms,
        t + dt <= u64::MAX,
    ensures
        ({
            let d0 = ClapDetector::new_spec(2, window_ms, cooldown_ms);
            let (d1, e1) = d0.spec_observe(true, t);
            let (d2, e2) = d1.spec_observe(true, (t + dt) as u64);
            &&& e1 == ClapGateEvent::FirstClap
            &&& e2 == ClapGateEvent::Complete
            &&& d2.count == 0
        }),
{
}

/// Whether utterance capture ends: after the silence timeout once voice has
/// been heard, or when the capture reaches its maximum length.
pub open spec fn spec_should_finish_capture(
    has_voice: bool,
    since_voice_ms: u64,
    since_start_ms: u64,
    silence_timeout_ms: u64,
    max_capture_ms: u64,
) -> bool {
    (has_voice && since_voice_ms >= silence_timeout_ms) || since_start_ms >= max_capture_ms
}

/// Whether the capture of the utterance after the wake word ends.
pub fn should_finish_utterance_capture(
    capture_has_voice: bool,
    since_voice_ms: u64,
    since_start_ms: u64,
    silence_timeout_ms: u64,
    max_capture_ms: u64,
) -> (finish: bool)
    ensures
        finish == spec_should_finish_capture(
            capture_has_voice,
            since_voice_ms,
            since_start_ms,
            silence_timeout_ms,
            max_capture_ms,
        ),
{
    (capture_has_voice && since_voice_ms >= silence_timeout_ms) || since_start_ms >= max_capture_ms
}

/// Whether the capture of the wake-word window ends.
pub fn should_finish_wake_capture(
    triggered_has_voice: bool,
    since_voice_ms: u64,
    since_start_ms: u64,
    silence_timeout_ms: u64,
    max_capture_ms: u64,
) -> (finish: bool)
    ensures
        finish == spec_should_finish_capture(
            triggered_has_voice,
            since_voice_ms,
            since_start_ms,
            silence_timeout_ms,
            max_capture_ms,
        ),
{
    (triggered_has_voice && since_voice_ms >= silence_timeout_ms) || since_start_ms
        >= max_capture_ms
}

/// Law: silence before any voice never ends a capture before its maximum length.
pub proof fn law_silence_before_voice_keeps_capturing(
    since_voice_ms: u64,
    since_start_ms: u64,
    silence_timeout_ms: u64,
    max_capture_ms: u64,
)
    requires
        since_start_ms < max_capture_ms,
    ensures
        !spec_should_finish_capture(
            false,
            since_voice_ms,
            since_start_ms,
            silence_timeout_ms,
            max_capture_ms,
        ),
{
}

/// After the clap gate, speech is taken as the wake intent without waiting
/// for a wake-word transcript.
pub fn should_activate_clap_gated_voice_without_transcript(
    clap_gate_armed: bool,
    triggered_has_voice: bool,
) -> (activate: bool)
    ensures
        activate == (clap_gate_armed && triggered_has_voice),
{
    clap_gate_armed && triggered_has_voice
}

/// The dispatched text of an utterance: trimmed, with the common mishearings
/// of the word for "lowest price" repaired.
pub open spec fn spec_normalize_voice_utterance_text(text: Seq<char>) -> Seq<char> {
    replace(replace(trim(text), "최적과"@, "최저가"@), "최적가"@, "최저가"@)
}

pub fn normalize_voice_utterance_text(text: &str) -> (out: String)
    ensures
        out@ == spec_normalize_voice_utterance_text(text@),
{
    let chars = chars_of(text);
    let trimmed = trim_chars(&chars);
    let misheard_a = chars_of("최적과");
    let misheard_b = chars_of("최적가");
    let lowest_price = chars_of("최저가");
    proof {
        reveal_strlit("최적과");
        reveal_strlit("최적가");
    }
    let step = replace_chars(&trimmed, &misheard_a, &lowest_price);
    let done = replace_chars(&step, &misheard_b, &lowest_price);
    string_of(&done)
}

/// After replacing the three-character pattern `p` by `r`, the three-character
/// text `q` does not occur, provided `q` is `p` itself or did not occur before,
/// and `r` can neither hold `q` nor start or end part of it.
proof fn lemma_replace_avoids(s: Seq<char>, p: Seq<char>, r: Seq<char>, q: Seq<char>)
    requires
        p.len() == 3,
        r.len() == 3,
        q.len() == 3,
        q == p || !contains(s, q),
        r != q,
        r[1] != q[0],
        r[2] != q[0],
        r[0] != q[1],
        r[0] != q[2],
    ensures
        !contains(replace(s, p, r), q),
    decreases s.len(),
{
    let out = replace(s, p, r);
    if s.len() < 3 {
        if contains(out, q) {
            let i = choose|i: int| occurs_at(out, q, i);
            assert(out == s);
        }
    } else if s.take(3) == p {
        let rest = s.skip(3);
        if q != p && contains(rest, q) {
            let i = choose|i: int| occurs_at(rest, q, i);
            assert(rest.subrange(i, i + 3) == s.subrange(i + 3, i + 6));
            assert(occurs_at(s, q, i + 3));
        }
        lemma_replace_avoids(rest, p, r, q);
        let t = replace(rest, p, r);
        assert(out == r + t);
        if contains(out, q) {
            let i = choose|i: int| occurs_at(out, q, i);
            if i >= 3 {
                assert(out.subrange(i, i + 3) == t.subrange(i - 3, i));
                assert(occurs_at(t, q, i - 3));
            } else if i == 0 {
                assert(out.subrange(0, 3) == r);
            } else {
                assert(out.subrange(i, i + 3)[0] == out[i]);
            }
        }
    } else {
        let rest = s.drop_first();
        if q != p && contains(rest, q) {
            let i = choose|i: int| occurs_at(rest, q, i);
            assert(rest.subrange(i, i + 3) == s.subrange(i + 1, i + 4));
            assert(occurs_at(s, q, i + 1));
        }
        lemma_replace_avoids(rest, p, r, q);
        let t = replace(rest, p, r);
        assert(out == seq![s[0]] + t);
        if contains(out, q) {
            let i = choose|i: int| occurs_at(out, q, i);
            if i >= 1 {
                assert(out.subrange(i, i + 3) == t.subrange(i - 1, i + 2));
                assert(occurs_at(t, q, i - 1));
            } else {
                assert(out.subrange(0, 3)[0] == out[0]);
                assert(out.subrange(0, 3)[1] == out[1]);
                assert(out.subrange(0, 3)[2] == out[2]);
                assert(s[0] == q[0]);
                assert(t[0] == q[1]);
                assert(t[1] == q[2]);
                if rest.len() < 3 {
                    assert(rest[0] == q[1] && rest[1] == q[2]);
                } else if rest.take(3) == p {
                    assert(t[0] == r[0]);
                } else {
                    let rest2 = rest.drop_first();
                    let u = replace(rest2, p, r);
                    assert(t == seq![rest[0]] + u);
                    assert(u[0] == q[2]);
                    if rest2.len() < 3 {
                        assert(rest2[0] == q[2]);
                    } else if rest2.take(3) == p {
                        assert(u[0] == r[0]);
                    } else {
                        assert(u[0] == rest2[0]);
                    }
                    assert(rest[1] == q[2]);
                }
                assert(s.subrange(0, 3) == q);
                assert(s.take(3) == s.subrange(0, 3));
                assert(occurs_at(s, q, 0));
            }
        }
    }
}

/// Law: a normalised utterance is already trimmed, holds neither mishearing of
/// "최저가", and normalising it again leaves it unchanged.
pub proof fn law_normalized_utterance_is_stable(text: Seq<char>)
    ensures
        trim(spec_normalize_voice_utterance_text(text)) == spec_normalize_voice_utterance_text(
            text,
        ),
        !contains(spec_normalize_voice_utterance_text(text), "최적과"@),
        !contains(spec_normalize_voice_utterance_text(text), "최적가"@),
        spec_normalize_voice_utterance_text(spec_normalize_voice_utterance_text(text))
            == spec_normalize_voice_utterance_text(text),
{
    reveal_strlit("최적과");
    reveal_strlit("최적가");
    reveal_strlit("최저가");
    let misheard_a = "최적과"@;
    let misheard_b = "최적가"@;
    let lowest = "최저가"@;
    assert(lowest.last() == lowest[2]);
    let t = trim(text);
    lemma_trim_ends(text);
    let a = replace(t, misheard_a, lowest);
    lemma_replace_first_visible(t, misheard_a, lowest);
    lemma_replace_last_visible(t, misheard_a, lowest);
    lemma_replace_avoids(t, misheard_a, lowest, misheard_a);
    let out = replace(a, misheard_b, lowest);
    assert(out == spec_normalize_voice_utterance_text(text));
    lemma_replace_first_visible(a, misheard_b, lowest);
    lemma_replace_last_visible(a, misheard_b, lowest);
    lemma_replace_avoids(a, misheard_b, lowest, misheard_b);
    lemma_replace_avoids(a, misheard_b, lowest, misheard_a);
    lemma_trim_visible_ends(out);
    lemma_replace_absent(out, misheard_a, lowest);
    lemma_replace_absent(out, misheard_b, lowest);
}

/// Law: a clap that is not inside the cooldown of the previous clap of a live
/// gesture is always counted. After an old gesture expired, a clap starts a new
/// gesture (its first clap, or the whole gesture when one clap suffices).
pub proof fn law_clap_outside_cooldown_counts(d: ClapDetector, now: u64)
    requires
        d.wf(),
        (d.first_clap_at matches Some(f) && elapsed(now, f) > d.window_ms) || !(
        d.last_clap_at matches Some(l) && elapsed(now, l) < d.cooldown_ms),
    ensures
        ({
            let (d2, e) = d.spec_observe(true, now);
            &&& (e == ClapGateEvent::FirstClap || e == ClapGateEvent::Complete)
            &&& (e == ClapGateEvent::FirstClap ==> d2.last_clap_at == Some(now))
            &&& (d.first_clap_at matches Some(f) && elapsed(now, f) > d.window_ms) ==> {
                &&& (e == ClapGateEvent::Complete <==> d.required_count == 1)
                &&& (e == ClapGateEvent::FirstClap ==> d2.count == 1 && d2.first_clap_at == Some(
                    now,
                ))
            }
        }),
{
}

/// The decimal text of `n`.
pub open spec fn decimal(n: nat) -> Seq<char>
    decreases n,
{
    if n < 10 {
        seq![(n + 48) as char]
    } else {
        decimal(n / 10) + seq![((n % 10) + 48) as char]
    }
}

/// The decimal text of `n`.
pub fn decimal_string(n: u64) -> (s: String)
    ensures
        s@ == decimal(n as nat),
{
    let mut digits: Vec<char> = Vec::new();
    let mut m = n;
    let ghost mut rest: Seq<char> = Seq::empty();
    loop
        invariant_except_break
            decimal(n as nat) == decimal(m as nat) + rest,
        invariant
            digits@.reverse() == rest,
        ensures
            digits@.reverse() == decimal(n as nat),
        decreases m,
    {
        let d = (m % 10) as u32;
        let c = if d == 0 {
            '0'
        } else if d == 1 {
            '1'
        } else if d == 2 {
            '2'
        } else if d == 3 {
            '3'
        } else if d == 4 {
            '4'
        } else if d == 5 {
            '5'
        } else if d == 6 {
            '6'
        } else if d == 7 {
            '7'
        } else if d == 8 {
            '8'
        } else {
            '9'
        };
        assert(c == ((m % 10) + 48) as char);
        let ghost old_digits = digits@;
        digits.push(c);
        proof {
            assert(digits@.reverse() == seq![c] + old_digits.reverse()) by {
                assert forall|i: int| 0 <= i < digits@.len() implies digits@.reverse()[i] == (
                seq![c] + old_digits.reverse())[i] by {
                    if i > 0 {
                        assert(digits@.reverse()[i] == digits@[digits@.len() - 1 - i]);
                        assert(old_digits.reverse()[i - 1] == old_digits[old_digits.len() - 1 - (i
                            - 1)]);
                    }
                }
            }
            rest = seq![c] + rest;
        }
        if m < 10 {
            assert(decimal(m as nat) == seq![c]);
            break;
        }
        assert(decimal(m as nat) == decimal((m / 10) as nat) + seq![c]);
        m = m / 10;
    }
    let mut out = String::new();
    let mut i = digits.len();
    while i > 0
        invariant
            i <= digits.len(),
            out@ == digits@.reverse().take(digits.len() - i),
        decreases i,
    {
        i -= 1;
        out.push(digits[i]);
        assert(out@ == digits@.reverse().take(digits.len() - i));
    }
    assert(digits@.reverse().take(digits@.len() as int) == digits@.reverse());
    out
}

/// A message handed to the agent runtime.
#[derive(Debug)]
pub struct VoiceMessage {
    pub id: String,
    pub sender: String,
    pub reply_target: String,
    pub content: String,
    pub channel: String,
    pub timestamp: u64,
    pub channel_alias: Option<String>,
}

/// The message for a transcribed utterance, or `None` when it is blank.
pub fn build_voice_wake_message(
    channel_alias: &str,
    msg_counter: u64,
    raw_text: &str,
    timestamp: u64,
) -> (msg: Option<VoiceMessage>)
    ensures
        msg is None <==> trim(raw_text@).len() == 0,
        msg matches Some(m) ==> {
            &&& m.id@ == "voice_wake_"@ + decimal(msg_counter as nat)
            &&& m.sender@ == "voice_user"@
            &&& m.reply_target@ == "voice_user"@
            &&& m.content@ == spec_normalize_voice_utterance_text(raw_text@)
            &&& m.channel@ == "voice_wake"@
            &&& m.timestamp == timestamp
            &&& m.channel_alias matches Some(a) && a@ == channel_alias@
        },
{
    let chars = chars_of(raw_text);
    let trimmed = trim_chars(&chars);
    if trimmed.len() == 0 {
        return None;
    }
    let mut id = String::from_str("voice_wake_");
    let n = decimal_string(msg_counter);
    id.append(n.as_str());
    let content = normalize_voice_utterance_text(raw_text);
    Some(
        VoiceMessage {
            id,
            sender: String::from_str("voice_user"),
            reply_target: String::from_str("voice_user"),
            content,
            channel: String::from_str("voice_wake"),
            timestamp,
            channel_alias: Some(String::from_str(channel_alias)),
        },
    )
}

/// The spellings of the Jarvis wake name that transcription produces.
pub open spec fn jarvis_aliases() -> Seq<Seq<char>> {
    seq!["javis"@, "자비스"@, "쟈비스"@, "차비스"@]
}

/// Whether a lower-cased transcript holds the lower-cased wake word; for
/// `jarvis` also two or more `자` syllables or a known transliteration.
pub open spec fn spec_wake_word_matches(transcript: Seq<char>, wake_word: Seq<char>) -> bool {
    ||| contains(transcript, wake_word)
    ||| (wake_word == "jarvis"@ && (count_char(transcript, '자') >= 2 || exists|i: int|
        0 <= i < jarvis_aliases().len() && contains(transcript, #[trigger] jarvis_aliases()[i])))
}

pub fn wake_word_matches(transcript_lower: &str, wake_word_lower: &str) -> (matched: bool)
    ensures
        matched == spec_wake_word_matches(transcript_lower@, wake_word_lower@),
{
    let t = chars_of(transcript_lower);
    let w = chars_of(wake_word_lower);
    if contains_chars(&t, &w) {
        return true;
    }
    if same_text(wake_word_lower, "jarvis") {
        if count_char_in(&t, '자') >= 2 {
            return true;
        }
        let aliases = vec!["javis", "자비스", "쟈비스", "차비스"];
        assert(aliases@.map_values(|s: &str| s@) == jarvis_aliases());
        let mut i: usize = 0;
        while i < aliases.len()
            invariant
                aliases@.map_values(|s: &str| s@) == jarvis_aliases(),
                t@ == transcript_lower@,
                wake_word_lower@ == "jarvis"@,
                i <= aliases.len(),
                forall|j: int| 0 <= j < i ==> !contains(t@, #[trigger] jarvis_aliases()[j]),
            decreases aliases.len() - i,
        {
            let a = chars_of(aliases[i]);
            assert(a@ == jarvis_aliases()[i as int]);
            if contains_chars(&t, &a) {
                assert(contains(transcript_lower@, jarvis_aliases()[i as int]));
                assert(wake_word_lower@ == "jarvis"@);
                return true;
            }
            i += 1;
        }
        return false;
    }
    false
}

/// `count_char` adds up over concatenation.
proof fn lemma_count_char_concat(p: Seq<char>, t: Seq<char>, c: char)
    ensures
        count_char(p + t, c) == count_char(p, c) + count_char(t, c),
    decreases t.len(),
{
    if t.len() == 0 {
        assert(p + t == p);
    } else {
        assert((p + t).drop_last() == p + t.drop_last());
        assert((p + t).last() == t.last());
        lemma_count_char_concat(p, t.drop_last(), c);
    }
}

/// Law: for the wake word `jarvis`, a transcript that holds any of the
/// transliterations javis, 자비스, 쟈비스, 차비스 anywhere matches, as does one
/// that holds the wake word itself; and text in front of a matching transcript
/// never undoes the match.
pub proof fn law_wake_word_found_anywhere(pre: Seq<char>, t: Seq<char>, w: Seq<char>)
    ensures
        contains(t, w) ==> spec_wake_word_matches(t, w),
        contains(t, "javis"@) || contains(t, "자비스"@) || contains(t, "쟈비스"@) || contains(
            t,
            "차비스"@,
        ) ==> spec_wake_word_matches(t, "jarvis"@),
        spec_wake_word_matches(t, w) ==> spec_wake_word_matches(pre + t, w),
{
    reveal_strlit("javis");
    reveal_strlit("자비스");
    reveal_strlit("쟈비스");
    reveal_strlit("차비스");
    assert(jarvis_aliases()[0] == "javis"@);
    assert(jarvis_aliases()[1] == "자비스"@);
    assert(jarvis_aliases()[2] == "쟈비스"@);
    assert(jarvis_aliases()[3] == "차비스"@);
    assert forall|q: Seq<char>| contains(t, q) implies contains(pre + t, q) by {
        let i = choose|i: int| occurs_at(t, q, i);
        assert((pre + t).subrange(i + pre.len(), i + pre.len() + q.len()) == t.subrange(
            i,
            i + q.len(),
        ));
        assert(occurs_at(pre + t, q, i + pre.len()));
    }
    lemma_count_char_concat(pre, t, '자');
    if spec_wake_word_matches(t, w) && !contains(t, w) && count_char(t, '자') < 2 {
        let i = choose|i: int|
            0 <= i < jarvis_aliases().len() && contains(t, #[trigger] jarvis_aliases()[i]);
        assert(contains(pre + t, jarvis_aliases()[i]));
    }
}

/// Whether, after the clap gate, a transcript counts as the wake intent: only
/// for the `jarvis` wake word, when it has two or more characters that are
/// neither whitespace nor ASCII punctuation.
pub open spec fn spec_clap_voice_fallback_matches(
    transcript: Seq<char>,
    wake_word: Seq<char>,
    clap_gate_armed: bool,
) -> bool {
    clap_gate_armed && wake_word == "jarvis"@ && count_voiced(transcript) >= 2
}

pub fn clap_voice_fallback_matches(
    transcript_lower: &str,
    wake_word_lower: &str,
    clap_gate_armed: bool,
) -> (matched: bool)
    ensures
        matched == spec_clap_voice_fallback_matches(
            transcript_lower@,
            wake_word_lower@,
            clap_gate_armed,
        ),
{
    if !clap_gate_armed || !same_text(wake_word_lower, "jarvis") {
        return false;
    }
    let t = chars_of(transcript_lower);
    count_voiced_in(&t) >= 2
}

/// The transcription provider to select: the resolved one when it is not
/// blank, else the only available provider when there is exactly one.
pub fn choose_transcription_provider(resolved: &str, available: &Vec<String>) -> (choice: Option<
    String,
>)
    ensures
        trim(resolved@).len() != 0 ==> (choice matches Some(p) && p@ == resolved@),
        trim(resolved@).len() == 0 && available@.len() == 1 ==> (choice matches Some(p) && p@
            == available@[0]@),
        trim(resolved@).len() == 0 && available@.len() != 1 ==> choice is None,
{
    let chars = chars_of(resolved);
    let trimmed = trim_chars(&chars);
    if trimmed.len() == 0 {
        if available.len() == 1 {
            Some(available[0].clone())
        } else {
            None
        }
    } else {
        Some(String::from_str(resolved))
    }
}

/// Little-endian bytes of a 32-bit value.
pub open spec fn le32(x: u32) -> Seq<u8> {
    seq![
        (x % 256) as u8,
        ((x / 256) % 256) as u8,
        ((x / 65536) % 256) as u8,
        ((x / 16777216) % 256) as u8,
    ]
}

/// Little-endian bytes of a 16-bit value.
pub open spec fn le16(x: u16) -> Seq<u8> {
    seq![(x % 256) as u8, ((x / 256) % 256) as u8]
}

/// The length in bytes of the 16-bit PCM data of `samples` samples, as the
/// 32-bit header field holds it.
pub open spec fn wav_data_len(samples: nat) -> u32 {
    ((samples * 2) % 0x1_0000_0000) as u32
}

/// The 44-byte header of a 16-bit PCM WAV file holding `samples` samples.
pub open spec fn spec_wav_header(samples: nat, sample_rate: u32, channels: u16) -> Seq<u8> {
    let data_len = wav_data_len(samples);
    seq![82u8, 73, 70, 70] + le32((36 + data_len) as u32) + seq![87u8, 65, 86, 69] + seq![
        102u8,
        109,
        116,
        32,
    ] + le32(16) + le16(1) + le16(channels) + le32(sample_rate) + le32(
        (channels * sample_rate * 16 / 8) as u32,
    ) + le16((channels * 16 / 8) as u16) + le16(16) + seq![100u8, 97, 116, 97] + le32(data_len)
}

fn push_le32(buf: &mut Vec<u8>, x: u32)
    ensures
        final(buf)@ == old(buf)@ + le32(x),
{
    buf.push((x % 256) as u8);
    buf.push(((x / 256) % 256) as u8);
    buf.push(((x / 65536) % 256) as u8);
    buf.push(((x / 16777216) % 256) as u8);
}

fn push_le16(buf: &mut Vec<u8>, x: u16)
    ensures
        final(buf)@ == old(buf)@ + le16(x),
{
    buf.push((x % 256) as u8);
    buf.push(((x / 256) % 256) as u8);
}

/// The header of a 16-bit PCM WAV file holding `samples` samples of
/// `channels` interleaved channels at `sample_rate`.
#[verifier::rlimit(40)]
pub fn wav_header(samples: usize, sample_rate: u32, channels: u16) -> (header: Vec<u8>)
    requires
        samples * 2 <= usize::MAX,
        channels * sample_rate * 16 <= u32::MAX,
        channels * 16 <= u16::MAX,
        36 + wav_data_len(samples as nat) <= u32::MAX,
    ensures
        header@ == spec_wav_header(samples as nat, sample_rate, channels),
        header@.len() == 44,
{
    let bits_per_sample: u16 = 16;
    let ch32: u32 = channels as u32;
    assert(ch32 * sample_rate <= u32::MAX) by (nonlinear_arith)
        requires
            ch32 * sample_rate * 16 <= u32::MAX,
    ;
    let rate_channels: u32 = ch32 * sample_rate;
    let byte_rate: u32 = rate_channels * 16 / 8;
    assert(byte_rate == (channels * sample_rate * 16 / 8) as u32);
    let block_align: u16 = channels * bits_per_sample / 8;
    let doubled: usize = samples * 2;
    let data_len: u32 = (doubled as u64 % 0x1_0000_0000) as u32;
    assert(data_len == wav_data_len(samples as nat));
    let file_len: u32 = 36 + data_len;
    let mut buf: Vec<u8> = Vec::new();
    buf.push(82u8);
    buf.push(73u8);
    buf.push(70u8);
    buf.push(70u8);
    push_le32(&mut buf, file_len);
    buf.push(87u8);
    buf.push(65u8);
    buf.push(86u8);
    buf.push(69u8);
    let ghost riff = buf@;
    assert(riff == seq![82u8, 73, 70, 70] + le32((36 + data_len) as u32) + seq![
        87u8,
        65,
        86,
        69,
    ]);
    buf.push(102u8);
    buf.push(109u8);
    buf.push(116u8);
    buf.push(32u8);
    push_le32(&mut buf, 16);
    push_le16(&mut buf, 1);
    push_le16(&mut buf, channels);
    push_le32(&mut buf, sample_rate);
    push_le32(&mut buf, byte_rate);
    push_le16(&mut buf, block_align);
    push_le16(&mut buf, bits_per_sample);
    let ghost fmt = buf@;
    assert(fmt == riff + seq![102u8, 109, 116, 32] + le32(16) + le16(1) + le16(channels) + le32(
        sample_rate,
    ) + le32(byte_rate) + le16(block_align) + le16(16));
    buf.push(100u8);
    buf.push(97u8);
    buf.push(116u8);
    buf.push(97u8);
    push_le32(&mut buf, data_len);
    assert(buf@ == fmt + seq![100u8, 97, 116, 97] + le32(data_len));
    assert(buf@ == spec_wav_header(samples as nat, sample_rate, channels));
    buf
}

} // verus!
