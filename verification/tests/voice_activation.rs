use zeroclaw_jarvis::activation::{
    event_id, handle_menu_event, navigation_script, should_show_voice_activation,
    signal_from_event, show_voice_activation, show_voice_activation_window, MenuAction, RecentEventIds, VoiceActivationPoller,
    VoiceEvent, SEEN_LIMIT,
};

fn event(id: Option<&str>, phase: Option<&str>, timestamp: Option<&str>) -> VoiceEvent {
    VoiceEvent {
        id: id.map(String::from),
        timestamp: timestamp.map(String::from),
        phase: phase.map(String::from),
        ack_text: None,
    }
}

#[test]
fn double_clap_event_shows_voice_activation() {
    let event = event(Some("1"), Some("double_clap_detected"), Some("2026-06-02T00:01:30.124Z"));

    assert!(should_show_voice_activation(&event));
    let signal = signal_from_event(&event).unwrap();
    assert_eq!(signal.phase, "double_clap_detected");
    assert_eq!(signal.ack_text, "네 주인님 무엇을 도와드릴까요?");
}

#[test]
fn no_wake_word_does_not_show_voice_activation() {
    let event = event(Some("2"), Some("no_wake_word"), None);

    assert!(!should_show_voice_activation(&event));
}

#[test]
fn event_ids_join_id_and_phase() {
    assert_eq!(event_id(&event(Some("7"), Some("wake_confirmed"), None)).as_deref(), Some("7:wake_confirmed"));
    assert_eq!(event_id(&event(Some("7"), None, None)).as_deref(), Some("7:unknown"));
    assert_eq!(event_id(&event(None, Some("wake_confirmed"), None)), None);
}

#[test]
fn signal_keeps_ack_text_and_timestamp() {
    let mut e = event(Some("1"), Some("wake_confirmed"), None);
    e.ack_text = Some("yes?".to_string());
    let s = signal_from_event(&e).unwrap();
    assert_eq!(s.ack_text, "yes?");
    assert_eq!(s.created_at, "");
    assert!(signal_from_event(&event(Some("1"), None, None)).is_none());
}

#[test]
fn recent_ids_forget_the_oldest_beyond_the_limit() {
    let mut ids = RecentEventIds::new();
    assert!(ids.insert("a".to_string()));
    assert!(!ids.insert("a".to_string()));
    for i in 0..SEEN_LIMIT {
        assert!(ids.insert(format!("id{i}")));
    }
    assert_eq!(ids.order.len(), SEEN_LIMIT);
    assert!(!ids.contains(&"a".to_string()));
    assert!(ids.contains(&"id0".to_string()));
    assert!(ids.insert("a".to_string()));
    assert!(!ids.contains(&"id0".to_string()));
}

#[test]
fn poller_shows_new_events_after_the_first_batch() {
    let mut poller = VoiceActivationPoller::new();
    let first = vec![event(Some("1"), Some("double_clap_detected"), None)];
    assert!(poller.on_events(&first).is_empty());
    // Newest first, as the gateway returns them.
    let second = vec![
        event(Some("3"), Some("wake_confirmed"), Some("t3")),
        event(Some("2"), Some("no_wake_word"), None),
        event(Some("1"), Some("double_clap_detected"), None),
        event(Some("2"), Some("wake_name_audio_started"), Some("t2")),
    ];
    let shown = poller.on_events(&second);
    let phases: Vec<&str> = shown.iter().map(|s| s.1.phase.as_str()).collect();
    assert_eq!(phases, vec!["wake_name_audio_started", "wake_confirmed"]);
    let positions: Vec<usize> = shown.iter().map(|s| s.0).collect();
    assert_eq!(positions, vec![3, 0]);
    assert!(poller.on_events(&second).is_empty());
}

#[test]
fn menu_events() {
    assert_eq!(handle_menu_event("show"), MenuAction::ShowMainWindow(None));
    assert_eq!(handle_menu_event("chat"), MenuAction::ShowMainWindow(Some("/agent")));
    assert_eq!(handle_menu_event("jarvis"), MenuAction::ShowMainWindow(Some("/jarvis")));
    assert_eq!(handle_menu_event("hide"), MenuAction::HideAllWindows);
    assert_eq!(handle_menu_event("quit"), MenuAction::Quit);
    assert_eq!(handle_menu_event("other"), MenuAction::Ignore);
}

#[test]
fn window_scripts() {
    assert_eq!(
        navigation_script("/agent"),
        "window.history.pushState(null, '', '/agent');window.dispatchEvent(new PopStateEvent('popstate'));"
    );
    let show = show_voice_activation();
    assert_eq!(
        show,
        "window.history.pushState(null, '', '/voice-activation');window.dispatchEvent(new PopStateEvent('popstate'));window.dispatchEvent(new CustomEvent('zeroclaw-voice-activation-show'));"
    );
    let with_signal = show_voice_activation_window(Some("{\"phase\":\"x\"}"));
    assert!(with_signal.starts_with("const signal = {\"phase\":\"x\"};if (typeof signal.createdAt === 'string') {"));
    assert!(with_signal.ends_with(&show));
    assert!(with_signal.contains("{ detail: signal }"));
}
