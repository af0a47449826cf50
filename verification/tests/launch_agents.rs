use zeroclaw_jarvis::launch_plan::{
    start_background_services, quit_completely, AgentStarter, LaunchAction, QuitAction,
};
use zeroclaw_jarvis::launchctl::{
    launch_agent_plist_path, launchctl_domain, launchctl_target, parse_launchctl_running,
};

#[test]
fn builds_launchctl_domain_and_target() {
    assert_eq!(launchctl_domain("501"), "gui/501");
    assert_eq!(
        launchctl_target("501", "ai.zeroclaw.jarvis-daemon"),
        "gui/501/ai.zeroclaw.jarvis-daemon"
    );
}

#[test]
fn builds_launch_agent_plist_path() {
    assert_eq!(
        launch_agent_plist_path("/Users/test", "ai.zeroclaw.local-whisper"),
        "/Users/test/Library/LaunchAgents/ai.zeroclaw.local-whisper.plist"
    );
}

#[test]
fn plist_path_joins_like_path_join() {
    assert_eq!(
        launch_agent_plist_path("/Users/test/", "x"),
        "/Users/test/Library/LaunchAgents/x.plist"
    );
    assert_eq!(launch_agent_plist_path("", "x"), "Library/LaunchAgents/x.plist");
    assert_eq!(launch_agent_plist_path("/Users/test", "/abs"), "/abs.plist");
}

#[test]
fn parses_running_launch_agent() {
    let raw = "50597\t0\tai.zeroclaw.jarvis-daemon\n\
               -\t-15\tai.zeroclaw.desktop-dev\n";
    assert!(parse_launchctl_running(raw, "ai.zeroclaw.jarvis-daemon"));
    assert!(!parse_launchctl_running(raw, "ai.zeroclaw.desktop-dev"));
    assert!(!parse_launchctl_running(raw, "ai.zeroclaw.local-whisper"));
}

#[test]
fn running_check_needs_a_status_field() {
    assert!(!parse_launchctl_running("50597 ai.zeroclaw.jarvis-daemon\n", "ai.zeroclaw.jarvis-daemon"));
    assert!(!parse_launchctl_running("0 0 ai.zeroclaw.jarvis-daemon\n", "ai.zeroclaw.jarvis-daemon"));
}

fn run(starter: &mut AgentStarter, answers: &[bool]) -> Vec<LaunchAction> {
    let mut actions = vec![starter.next(false)];
    for &answer in answers {
        actions.push(starter.next(answer));
    }
    actions
}

#[test]
fn start_leaves_a_running_agent_alone() {
    let mut starter = AgentStarter::new("501", "/Users/test", "ai.zeroclaw.jarvis-daemon");
    let actions = run(&mut starter, &[true]);
    assert_eq!(
        actions,
        vec![
            LaunchAction::IsRunning { label: "ai.zeroclaw.jarvis-daemon".to_string() },
            LaunchAction::Done,
        ]
    );
}

#[test]
fn start_stops_without_a_property_list() {
    let mut starter = AgentStarter::new("501", "/Users/test", "ai.zeroclaw.jarvis-daemon");
    let actions = run(&mut starter, &[false, false]);
    assert_eq!(
        actions[1],
        LaunchAction::IsFile {
            path: "/Users/test/Library/LaunchAgents/ai.zeroclaw.jarvis-daemon.plist".to_string()
        }
    );
    assert_eq!(actions[2], LaunchAction::Done);
}

#[test]
fn start_bootstraps_then_kickstarts_when_still_stopped() {
    let mut starter = AgentStarter::new("501", "/Users/test", "ai.zeroclaw.local-whisper");
    let actions = run(&mut starter, &[false, true, true, false, true]);
    assert_eq!(
        actions[2],
        LaunchAction::RunLaunchctl {
            args: vec![
                "bootstrap".to_string(),
                "gui/501".to_string(),
                "/Users/test/Library/LaunchAgents/ai.zeroclaw.local-whisper.plist".to_string(),
            ]
        }
    );
    assert_eq!(
        actions[3],
        LaunchAction::IsRunning { label: "ai.zeroclaw.local-whisper".to_string() }
    );
    assert_eq!(
        actions[4],
        LaunchAction::RunLaunchctl {
            args: vec!["kickstart".to_string(), "gui/501/ai.zeroclaw.local-whisper".to_string()]
        }
    );
    assert_eq!(actions[5], LaunchAction::Done);
    assert_eq!(starter.next(false), LaunchAction::Done);
}

#[test]
fn background_services_need_uid_and_home() {
    assert!(start_background_services(None, Some("/Users/test")).is_empty());
    assert!(start_background_services(Some("501"), None).is_empty());
    let starters = start_background_services(Some("501"), Some("/Users/test"));
    let labels: Vec<&str> = starters.iter().map(|s| s.label.as_str()).collect();
    assert_eq!(labels, vec!["ai.zeroclaw.jarvis-daemon", "ai.zeroclaw.local-whisper"]);
}

#[test]
fn quit_completely_without_uid_only_stops_tts() {
    assert_eq!(quit_completely(None), vec![QuitAction::KillLocalTts]);
}

#[test]
fn quit_completely_boots_out_everything() {
    assert_eq!(
        quit_completely(Some("501")),
        vec![
            QuitAction::Bootout { target: "gui/501/ai.zeroclaw.jarvis-daemon".to_string() },
            QuitAction::Bootout { target: "gui/501/ai.zeroclaw.local-whisper".to_string() },
            QuitAction::KillLocalTts,
            QuitAction::ScheduleDesktopBootout {
                script: "sleep 0.35; /bin/launchctl bootout gui/501/ai.zeroclaw.desktop-dev >/dev/null 2>&1"
                    .to_string()
            },
        ]
    );
}
