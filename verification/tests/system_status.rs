use zeroclaw_jarvis::launchctl::{
    jarvis_launch_agents, parse_current_uid, parse_launchctl_line, parse_launchctl_list,
    parse_output_volume,
};

#[test]
fn parses_output_volume() {
    assert_eq!(parse_output_volume("37\n").unwrap(), Some(37));
    assert_eq!(parse_output_volume("125\n").unwrap(), Some(100));
}

#[test]
fn parses_launchctl_statuses() {
    let parsed = parse_launchctl_list(
        "80242\t0\tai.zeroclaw.jarvis-daemon\n\
         10115\t0\tai.zeroclaw.local-whisper\n\
         -\t-15\tai.zeroclaw.desktop-dev\n",
    );

    assert!(parsed[0].running);
    assert_eq!(parsed[0].pid, Some(80242));
    assert!(parsed[1].running);
    assert!(!parsed[2].running);
    assert_eq!(parsed[2].last_exit_status, Some(-15));
}

#[test]
fn output_volume_blank_is_none() {
    assert_eq!(parse_output_volume("  \n").unwrap(), None);
    assert_eq!(parse_output_volume("").unwrap(), None);
}

#[test]
fn output_volume_rejects_non_numbers() {
    assert_eq!(
        parse_output_volume(" loud \n").unwrap_err(),
        "invalid output volume: loud"
    );
    assert_eq!(
        parse_output_volume("256").unwrap_err(),
        "invalid output volume: 256"
    );
    assert_eq!(
        parse_output_volume("-1").unwrap_err(),
        "invalid output volume: -1"
    );
    assert_eq!(parse_output_volume("+100").unwrap(), Some(100));
    assert_eq!(parse_output_volume("0").unwrap(), Some(0));
}

#[test]
fn launchctl_list_reports_missing_agents_as_stopped() {
    let parsed = parse_launchctl_list("123\t0\tcom.apple.other\n");
    assert_eq!(parsed.len(), 3);
    for (info, label) in parsed.iter().zip(jarvis_launch_agents()) {
        assert_eq!(info.label, label);
        assert_eq!(info.pid, None);
        assert_eq!(info.last_exit_status, None);
        assert!(!info.running);
    }
}

#[test]
fn launchctl_list_takes_first_matching_line() {
    let parsed = parse_launchctl_list(
        "-\t1\tai.zeroclaw.local-whisper\r\n\
         77\t0\tai.zeroclaw.local-whisper\n",
    );
    assert_eq!(parsed[1].pid, None);
    assert_eq!(parsed[1].last_exit_status, Some(1));
    assert!(!parsed[1].running);
}

#[test]
fn launchctl_line_needs_three_fields_and_a_jarvis_label() {
    assert!(parse_launchctl_line("80242\t0").is_none());
    assert!(parse_launchctl_line("80242 0 com.apple.Finder").is_none());
    let info = parse_launchctl_line("  0  2147483647  ai.zeroclaw.desktop-dev extra").unwrap();
    assert_eq!(info.pid, Some(0));
    assert!(!info.running);
    assert_eq!(info.last_exit_status, Some(2147483647));
    let info = parse_launchctl_line("-2147483648 2147483648 ai.zeroclaw.desktop-dev").unwrap();
    assert_eq!(info.pid, Some(-2147483648));
    assert_eq!(info.last_exit_status, None);
}

#[test]
fn current_uid_is_trimmed() {
    assert_eq!(parse_current_uid("501\n").as_deref(), Some("501"));
    assert_eq!(parse_current_uid(" \n"), None);
}
