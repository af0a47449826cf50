//! The desktop side of voice activation: which logged detector events show
//! the activation window, remembering the events already seen, and the
//! scripts the window runs.

use vstd::prelude::*;
use crate::text::{chars_eq, chars_of, same_text};

verus! {

/// How many event identifiers are remembered.
pub const SEEN_LIMIT: usize = 200;

/// The acknowledgement shown when an event carries none.
pub open spec fn default_ack_text() -> Seq<char> {
    "네 주인님 무엇을 도와드릴까요?"@
}

/// A logged detector event, as far as the desktop reads it: its `id`, its
/// `@timestamp`, and the `phase` and `ack_text` attributes (each present when
/// it is a string).
#[derive(Debug)]
pub struct VoiceEvent {
    pub id: Option<String>,
    pub timestamp: Option<String>,
    pub phase: Option<String>,
    pub ack_text: Option<String>,
}

/// What the activation window is given for an event.
#[derive(Debug)]
pub struct VoiceSignal {
    pub phase: String,
    pub ack_text: String,
    pub created_at: String,
}

pub open spec fn opt_view(o: Option<String>) -> Option<Seq<char>> {
    match o {
        Some(s) => Some(s@),
        None => None,
    }
}

/// The identifier of an event: its id and phase (`unknown` when it has none).
pub open spec fn spec_event_id(e: VoiceEvent) -> Option<Seq<char>> {
    match e.id {
        None => None,
        Some(id) => Some(id@ + ":"@ + match e.phase {
            Some(p) => p@,
            None => "unknown"@,
        }),
    }
}

/// The phases that show the activation window.
pub open spec fn spec_should_show(e: VoiceEvent) -> bool {
    e.phase matches Some(p) && (p@ == "double_clap_detected"@ || p@ == "wake_name_audio_started"@
        || p@ == "wake_confirmed"@)
}

/// The signal of an event with a phase: the phase, the acknowledgement text
/// (the default when absent) and the timestamp (empty when absent).
pub open spec fn spec_signal(e: VoiceEvent) -> Option<(Seq<char>, Seq<char>, Seq<char>)> {
    match e.phase {
        None => None,
        Some(p) => Some(
            (p@, match e.ack_text {
                Some(a) => a@,
                None => default_ack_text(),
            }, match e.timestamp {
                Some(t) => t@,
                None => Seq::empty(),
            }),
        ),
    }
}

pub open spec fn signal_view(s: VoiceSignal) -> (Seq<char>, Seq<char>, Seq<char>) {
    (s.phase@, s.ack_text@, s.created_at@)
}

pub fn event_id(event: &VoiceEvent) -> (id: Option<String>)
    ensures
        opt_view(id) == spec_event_id(*event),
{
    match &event.id {
        None => None,
        Some(id) => {
            let mut out = id.clone();
            out.append(":");
            match &event.phase {
                Some(p) => out.append(p.as_str()),
                None => out.append("unknown"),
            }
            Some(out)
        },
    }
}

pub fn should_show_voice_activation(event: &VoiceEvent) -> (show: bool)
    ensures
        show == spec_should_show(*event),
{
    match &event.phase {
        None => false,
        Some(p) => same_text(p.as_str(), "double_clap_detected") || same_text(
            p.as_str(),
            "wake_name_audio_started",
        ) || same_text(p.as_str(), "wake_confirmed"),
    }
}

pub fn signal_from_event(event: &VoiceEvent) -> (signal: Option<VoiceSignal>)
    ensures
        match signal {
            Some(s) => spec_signal(*event) == Some(signal_view(s)),
            None => spec_signal(*event) is None,
        },
{
    match &event.phase {
        None => None,
        Some(p) => {
            let ack_text = match &event.ack_text {
                Some(a) => a.clone(),
                None => String::from_str("네 주인님 무엇을 도와드릴까요?"),
            };
            let created_at = match &event.timestamp {
                Some(t) => t.clone(),
                None => String::new(),
            };
            Some(VoiceSignal { phase: p.clone(), ack_text, created_at })
        },
    }
}

/// The most recently seen event identifiers, oldest first.
#[derive(Debug)]
pub struct RecentEventIds {
    pub order: Vec<String>,
}

pub open spec fn ids_view(v: Seq<String>) -> Seq<Seq<char>> {
    v.map_values(|s: String| s@)
}

/// No identifier occurs twice and at most `SEEN_LIMIT` are kept.
pub open spec fn seen_wf(seen: Seq<Seq<char>>) -> bool {
    &&& seen.len() <= SEEN_LIMIT
    &&& seen.no_duplicates()
}

/// Inserting an identifier: a known one changes nothing and answers `false`;
/// a new one is appended, the oldest dropped beyond `SEEN_LIMIT`, and the
/// answer is `true`.
pub open spec fn spec_insert(seen: Seq<Seq<char>>, id: Seq<char>) -> (Seq<Seq<char>>, bool) {
    if seen.contains(id) {
        (seen, false)
    } else {
        let s = seen.push(id);
        (if s.len() > SEEN_LIMIT {
            s.skip(s.len() - SEEN_LIMIT)
        } else {
            s
        }, true)
    }
}

impl RecentEventIds {
    pub open spec fn view_ids(self) -> Seq<Seq<char>> {
        ids_view(self.order@)
    }

    pub fn new() -> (r: RecentEventIds)
        ensures
            r.view_ids() == Seq::<Seq<char>>::empty(),
            seen_wf(r.view_ids()),
    {
        RecentEventIds { order: Vec::new() }
    }

    /// Whether `id` has been seen.
    pub fn contains(&self, id: &String) -> (r: bool)
        ensures
            r == self.view_ids().contains(id@),
    {
        let want = chars_of(id.as_str());
        let mut i: usize = 0;
        while i < self.order.len()
            invariant
                want@ == id@,
                i <= self.order.len(),
                forall|j: int| 0 <= j < i ==> self.view_ids()[j] != id@,
            decreases self.order.len() - i,
        {
            let have = chars_of(self.order[i].as_str());
            assert(self.view_ids()[i as int] == self.order@[i as int]@);
            if chars_eq(&have, &want) {
                return true;
            }
            i += 1;
        }
        false
    }

    /// Records `id`; answers whether it was new.
    #[verifier::rlimit(30)]
    pub fn insert(&mut self, id: String) -> (fresh: bool)
        requires
            seen_wf(old(self).view_ids()),
        ensures
            (final(self).view_ids(), fresh) == spec_insert(old(self).view_ids(), id@),
            seen_wf(final(self).view_ids()),
    {
        if self.contains(&id) {
            return false;
        }
        let ghost before = self.view_ids();
        self.order.push(id);
        assert(self.view_ids() == before.push(id@));
        while self.order.len() > SEEN_LIMIT
            invariant
                self.order.len() <= SEEN_LIMIT + 1,
                self.view_ids() == (if before.push(id@).len() > SEEN_LIMIT && self.order.len()
                    <= SEEN_LIMIT {
                    before.push(id@).skip(before.push(id@).len() - SEEN_LIMIT)
                } else {
                    before.push(id@)
                }),
                before.len() <= SEEN_LIMIT,
            decreases self.order.len(),
        {
            let ghost cur = self.view_ids();
            self.order.remove(0);
            assert(self.view_ids() == cur.drop_first());
            assert(cur.drop_first() == before.push(id@).skip(1));
        }
        proof {
            let s = before.push(id@);
            assert(s.no_duplicates()) by {
                assert forall|a: int, b: int| 0 <= a < s.len() && 0 <= b < s.len() && a != b implies s[a]
                    != s[b] by {
                    if a < before.len() && b < before.len() {
                    } else if a == before.len() {
                        assert(before[b] == s[b]);
                    } else {
                        assert(before[a] == s[a]);
                    }
                }
            }
            if s.len() > SEEN_LIMIT {
                let t = s.skip(1);
                assert(t.no_duplicates()) by {
                    assert forall|a: int, b: int| 0 <= a < t.len() && 0 <= b < t.len() && a != b implies t[a]
                        != t[b] by {
                        assert(t[a] == s[a + 1]);
                        assert(t[b] == s[b + 1]);
                    }
                }
            }
        }
        true
    }
}

/// Law: after an insertion the identifier is known, and an insertion answers
/// `true` exactly for an identifier not seen before.
pub proof fn law_insert_remembers(seen: Seq<Seq<char>>, id: Seq<char>)
    requires
        seen_wf(seen),
    ensures
        spec_insert(seen, id).0.contains(id),
        spec_insert(seen, id).1 == !seen.contains(id),
        seen_wf(spec_insert(seen, id).0),
{
    let s = seen.push(id);
    assert(s[s.len() - 1] == id);
    if !seen.contains(id) && s.len() > SEEN_LIMIT {
        assert(s.skip(s.len() - SEEN_LIMIT)[SEEN_LIMIT - 1] == id);
    }
    if !seen.contains(id) {
        assert(s.no_duplicates()) by {
            assert forall|a: int, b: int| 0 <= a < s.len() && 0 <= b < s.len() && a != b implies s[a]
                != s[b] by {
                if a < seen.len() && b < seen.len() {
                } else if a == seen.len() {
                    assert(seen[b] == s[b]);
                } else {
                    assert(seen[a] == s[a]);
                }
            }
        }
        if s.len() > SEEN_LIMIT {
            let t = s.skip(s.len() - SEEN_LIMIT);
            assert(t.no_duplicates()) by {
                assert forall|a: int, b: int| 0 <= a < t.len() && 0 <= b < t.len() && a != b implies t[a]
                    != t[b] by {
                    assert(t[a] == s[a + (s.len() - SEEN_LIMIT)]);
                    assert(t[b] == s[b + (s.len() - SEEN_LIMIT)]);
                }
            }
        }
    }
}

/// The signals shown for a batch of events taken oldest first, with the
/// seen identifiers before it and whether an earlier batch was seen.
pub open spec fn spec_batch(seen: Seq<Seq<char>>, seeded: bool, evs: Seq<VoiceEvent>) -> (
    Seq<Seq<char>>,
    Seq<(Seq<char>, Seq<char>, Seq<char>)>,
)
    decreases evs.len(),
{
    if evs.len() == 0 {
        (seen, Seq::empty())
    } else {
        let e = evs[0];
        match spec_event_id(e) {
            None => spec_batch(seen, seeded, evs.drop_first()),
            Some(id) => {
                let (seen2, fresh) = spec_insert(seen, id);
                let (seen3, rest) = spec_batch(seen2, seeded, evs.drop_first());
                if fresh && seeded && spec_should_show(e) && spec_signal(e) is Some {
                    (seen3, seq![spec_signal(e)->0] + rest)
                } else {
                    (seen3, rest)
                }
            },
        }
    }
}

/// The desktop poller's memory: the identifiers seen, and whether a first
/// batch has been read (the first batch only marks events as seen).
pub struct VoiceActivationPoller {
    pub seen: RecentEventIds,
    pub seeded: bool,
}

pub open spec fn signals_view(v: Seq<(usize, VoiceSignal)>) -> Seq<(Seq<char>, Seq<char>, Seq<char>)> {
    v.map_values(|s: (usize, VoiceSignal)| signal_view(s.1))
}

impl VoiceActivationPoller {
    pub fn new() -> (p: VoiceActivationPoller)
        ensures
            p.seen.view_ids() == Seq::<Seq<char>>::empty(),
            !p.seeded,
    {
        VoiceActivationPoller { seen: RecentEventIds::new(), seeded: false }
    }

    /// Takes one batch of logged events, newest first as the gateway gives
    /// them, and answers the signals to show, oldest first, each with the
    /// position of its event in `events`.
    #[verifier::rlimit(30)]
    pub fn on_events(&mut self, events: &Vec<VoiceEvent>) -> (signals: Vec<(usize, VoiceSignal)>)
        requires
            seen_wf(old(self).seen.view_ids()),
        ensures
            (final(self).seen.view_ids(), signals_view(signals@)) == spec_batch(
                old(self).seen.view_ids(),
                old(self).seeded,
                events@.reverse(),
            ),
            final(self).seeded,
            seen_wf(final(self).seen.view_ids()),
            forall|j: int|
                0 <= j < signals@.len() ==> #[trigger] signals@[j].0 < events@.len() && spec_signal(
                    events@[signals@[j].0 as int],
                ) == Some(signal_view(signals@[j].1)),
    {
        let ghost evs = events@.reverse();
        let ghost target = spec_batch(self.seen.view_ids(), self.seeded, evs);
        let mut out: Vec<(usize, VoiceSignal)> = Vec::new();
        let mut k: usize = events.len();
        assert(evs.skip(0) == evs);
        while k > 0
            invariant
                k <= events.len(),
                evs == events@.reverse(),
                seen_wf(self.seen.view_ids()),
                self.seeded == old(self).seeded,
                target == spec_batch(old(self).seen.view_ids(), old(self).seeded, evs),
                ({
                    let (s, r) = spec_batch(
                        self.seen.view_ids(),
                        self.seeded,
                        evs.skip(events.len() - k),
                    );
                    s == target.0 && signals_view(out@) + r == target.1
                }),
                forall|j: int|
                    0 <= j < out@.len() ==> #[trigger] out@[j].0 < events@.len() && spec_signal(
                        events@[out@[j].0 as int],
                    ) == Some(signal_view(out@[j].1)),
            decreases k,
        {
            k -= 1;
            let ghost idx = events.len() - 1 - k;
            let ghost rest = evs.skip(idx as int);
            assert(rest[0] == events@[k as int]);
            assert(rest.drop_first() == evs.skip(idx + 1));
            let event = &events[k];
            match event_id(event) {
                None => {},
                Some(id) => {
                    let fresh = self.seen.insert(id);
                    if fresh && self.seeded && should_show_voice_activation(event) {
                        match signal_from_event(event) {
                            Some(sig) => {
                                let ghost before = signals_view(out@);
                                let ghost old_out = out@;
                                out.push((k, sig));
                                assert(signals_view(out@) == before.push(signal_view(sig)));
                                assert(forall|j: int| 0 <= j < old_out.len() ==> out@[j] == old_out[j]);
                            },
                            None => {},
                        }
                    }
                },
            }
        }
        assert(evs.skip(events.len() as int).len() == 0);
        self.seeded = true;
        out
    }
}

/// Law: the first batch read only marks its events as seen and shows nothing.
pub proof fn law_first_batch_shows_nothing(seen: Seq<Seq<char>>, evs: Seq<VoiceEvent>)
    ensures
        spec_batch(seen, false, evs).1.len() == 0,
    decreases evs.len(),
{
    if evs.len() > 0 {
        match spec_event_id(evs[0]) {
            None => law_first_batch_shows_nothing(seen, evs.drop_first()),
            Some(id) => law_first_batch_shows_nothing(spec_insert(seen, id).0, evs.drop_first()),
        }
    }
}

/// Law: an event whose identifier has already been seen shows nothing.
pub proof fn law_seen_event_not_shown(seen: Seq<Seq<char>>, seeded: bool, e: VoiceEvent)
    requires
        spec_event_id(e) matches Some(id) && seen.contains(id),
    ensures
        spec_batch(seen, seeded, seq![e]).1.len() == 0,
{
    let evs = seq![e];
    assert(evs[0] == e);
    assert(evs.drop_first() == Seq::<VoiceEvent>::empty());
    let id = spec_event_id(e)->0;
    assert(spec_insert(seen, id) == (seen, false));
    assert(spec_batch(seen, seeded, Seq::<VoiceEvent>::empty()).1.len() == 0);
}

/// Law: only the phases `double_clap_detected`, `wake_name_audio_started` and
/// `wake_confirmed` show the activation window: an event shows it exactly when
/// its phase is one of them, and every signal of a batch carries one of them.
pub proof fn law_only_activation_phases_shown(
    e: VoiceEvent,
    seen: Seq<Seq<char>>,
    seeded: bool,
    evs: Seq<VoiceEvent>,
)
    ensures
        spec_should_show(e) <==> (e.phase matches Some(p) && (p@ == "double_clap_detected"@
            || p@ == "wake_name_audio_started"@ || p@ == "wake_confirmed"@)),
        forall|k: int|
            0 <= k < spec_batch(seen, seeded, evs).1.len() ==> {
                let ph = (#[trigger] spec_batch(seen, seeded, evs).1[k]).0;
                ph == "double_clap_detected"@ || ph == "wake_name_audio_started"@ || ph
                    == "wake_confirmed"@
            },
    decreases evs.len(),
{
    if evs.len() > 0 {
        let f = evs[0];
        match spec_event_id(f) {
            None => {
                law_only_activation_phases_shown(e, seen, seeded, evs.drop_first());
                assert(spec_batch(seen, seeded, evs) == spec_batch(seen, seeded, evs.drop_first()));
            },
            Some(id) => {
                let (seen2, fresh) = spec_insert(seen, id);
                law_only_activation_phases_shown(e, seen2, seeded, evs.drop_first());
                let rest = spec_batch(seen2, seeded, evs.drop_first()).1;
                if fresh && seeded && spec_should_show(f) && spec_signal(f) is Some {
                    let out = spec_batch(seen, seeded, evs).1;
                    assert(out == seq![spec_signal(f)->0] + rest);
                    assert(out[0] == spec_signal(f)->0);
                    assert(out[0].0 == f.phase->0@);
                    assert forall|k: int| 0 <= k < out.len() implies {
                        let ph = (#[trigger] out[k]).0;
                        ph == "double_clap_detected"@ || ph == "wake_name_audio_started"@ || ph
                            == "wake_confirmed"@
                    } by {
                        if k > 0 {
                            assert(out[k] == rest[k - 1]);
                        }
                    }
                } else {
                    assert(spec_batch(seen, seeded, evs).1 == rest);
                }
            },
        }
    }
}

/// What a tray menu item does.
#[derive(Debug, Clone, Copy, PartialEq, Eq)]
pub enum MenuAction {
    /// Show and focus the main window, navigating to the route when given.
    ShowMainWindow(Option<&'static str>),
    /// Hide every window.
    HideAllWindows,
    /// Stop the background services and exit.
    Quit,
    /// Nothing.
    Ignore,
}

pub open spec fn spec_menu_action(id: Seq<char>) -> MenuAction {
    if id == "show"@ {
        MenuAction::ShowMainWindow(None)
    } else if id == "chat"@ {
        MenuAction::ShowMainWindow(Some("/agent"))
    } else if id == "jarvis"@ {
        MenuAction::ShowMainWindow(Some("/jarvis"))
    } else if id == "hide"@ {
        MenuAction::HideAllWindows
    } else if id == "quit"@ {
        MenuAction::Quit
    } else {
        MenuAction::Ignore
    }
}

/// The action of the tray menu item `id`.
pub fn handle_menu_event(id: &str) -> (action: MenuAction)
    ensures
        action == spec_menu_action(id@),
{
    if same_text(id, "show") {
        MenuAction::ShowMainWindow(None)
    } else if same_text(id, "chat") {
        MenuAction::ShowMainWindow(Some("/agent"))
    } else if same_text(id, "jarvis") {
        MenuAction::ShowMainWindow(Some("/jarvis"))
    } else if same_text(id, "hide") {
        MenuAction::HideAllWindows
    } else if same_text(id, "quit") {
        MenuAction::Quit
    } else {
        MenuAction::Ignore
    }
}

/// The script that navigates the main window to `path`.
pub fn navigation_script(path: &str) -> (script: String)
    ensures
        script@ == "window.history.pushState(null, '', '"@ + path@
            + "');window.dispatchEvent(new PopStateEvent('popstate'));"@,
{
    let mut s = String::from_str("window.history.pushState(null, '', '");
    s.append(path);
    s.append("');window.dispatchEvent(new PopStateEvent('popstate'));");
    s
}

/// The script that hands a serialized signal to the page.
pub open spec fn spec_signal_script(serialized: Seq<char>) -> Seq<char> {
    "const signal = "@ + serialized
        + ";if (typeof signal.createdAt === 'string') {const parsed = Date.parse(signal.createdAt);signal.createdAt = Number.isFinite(parsed) ? parsed : Date.now();} else if (typeof signal.createdAt !== 'number') {signal.createdAt = Date.now();}sessionStorage.setItem('zeroclaw_voice_activation_signal', JSON.stringify(signal));if (signal.ackText) sessionStorage.setItem('zeroclaw_voice_ack', signal.ackText);window.dispatchEvent(new CustomEvent('zeroclaw-voice-activation', { detail: signal }));"@
}

/// The script that opens the voice-activation route.
pub open spec fn show_route_script() -> Seq<char> {
    "window.history.pushState(null, '', '/voice-activation');window.dispatchEvent(new PopStateEvent('popstate'));window.dispatchEvent(new CustomEvent('zeroclaw-voice-activation-show'));"@
}

/// The script run in the main window to show voice activation, with no signal.
pub fn show_voice_activation() -> (script: String)
    ensures
        script@ == show_route_script(),
{
    let s = show_voice_activation_window(None);
    assert(Seq::<char>::empty() + show_route_script() == show_route_script());
    s
}

/// The script run in the main window to show voice activation, with the
/// serialized signal when there is one.
pub fn show_voice_activation_window(serialized_signal: Option<&str>) -> (script: String)
    ensures
        script@ == match serialized_signal {
            Some(s) => spec_signal_script(s@),
            None => Seq::empty(),
        } + show_route_script(),
{
    let mut s = String::new();
    match serialized_signal {
        Some(sig) => {
            s.append("const signal = ");
            s.append(sig);
            s.append(
                ";if (typeof signal.createdAt === 'string') {const parsed = Date.parse(signal.createdAt);signal.createdAt = Number.isFinite(parsed) ? parsed : Date.now();} else if (typeof signal.createdAt !== 'number') {signal.createdAt = Date.now();}sessionStorage.setItem('zeroclaw_voice_activation_signal', JSON.stringify(signal));if (signal.ackText) sessionStorage.setItem('zeroclaw_voice_ack', signal.ackText);window.dispatchEvent(new CustomEvent('zeroclaw-voice-activation', { detail: signal }));",
            );
        },
        None => {},
    }
    s.append(
        "window.history.pushState(null, '', '/voice-activation');window.dispatchEvent(new PopStateEvent('popstate'));window.dispatchEvent(new CustomEvent('zeroclaw-voice-activation-show'));",
    );
    s
}

} // verus!
