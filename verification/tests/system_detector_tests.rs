use meetily_models::system_detector::{
    audio_app_name, DeviceAction, DeviceSignal, friendly_name, is_meeting_app, meeting_apps_from_processes, new_system_audio_callback,
    DetectorState, MeetingAppPoller, PlatformSystemAudioDetector, SystemAudioEvent,
    STARTUP_GRACE_PERIOD_MS,
};

#[test]
fn test_friendly_name_mapping() {
    assert_eq!(friendly_name("teams.exe"), "Microsoft Teams");
    assert_eq!(friendly_name("zoom.exe"), "Zoom");
    assert_eq!(friendly_name("chrome.exe"), "Google Chrome");
    assert_eq!(friendly_name("slack.exe"), "Slack");
    assert_eq!(friendly_name("discord.exe"), "Discord");
    assert_eq!(friendly_name("msedge.exe"), "Microsoft Edge");
    assert_eq!(friendly_name("firefox.exe"), "Firefox");
    assert_eq!(friendly_name("brave.exe"), "Brave Browser");
    assert_eq!(friendly_name("unknown.exe"), "unknown.exe");
}

#[test]
fn test_is_meeting_app() {
    assert!(is_meeting_app("teams.exe"));
    assert!(is_meeting_app("zoom.exe"));
    assert!(is_meeting_app("chrome.exe"));
    assert!(is_meeting_app("slack.exe"));
    assert!(is_meeting_app("discord.exe"));
    assert!(!is_meeting_app("notepad.exe"));
    assert!(!is_meeting_app("explorer.exe"));
    assert!(!is_meeting_app("spotify.exe"));
}

#[test]
fn friendly_name_ignores_case() {
    assert_eq!(friendly_name("Teams.EXE"), "Microsoft Teams");
    assert_eq!(friendly_name("Arc.exe"), "Arc");
    assert_eq!(friendly_name("Notepad.exe"), "Notepad.exe");
}

#[test]
fn meeting_app_names_match_as_fragments() {
    assert!(is_meeting_app("new-ms-teams.exe"));
    assert!(is_meeting_app("facetime"));
    assert!(!is_meeting_app("firefox.exe"));
}

#[test]
fn meeting_apps_are_listed_once_by_display_name() {
    let procs = vec![
        "Teams.exe".to_string(),
        "notepad.exe".to_string(),
        "teams.exe".to_string(),
        "Zoom.exe".to_string(),
    ];
    let apps = meeting_apps_from_processes(&procs);
    assert_eq!(apps, vec!["Microsoft Teams".to_string(), "Zoom".to_string()]);
}

#[test]
fn debounce_reports_only_changes_after_the_interval() {
    let mut s = DetectorState::new(1000);
    assert!(!s.should_trigger(false, 5000));
    assert!(!s.should_trigger(true, 1200));
    assert!(s.should_trigger(true, 1500));
    assert!(!s.should_trigger(true, 9000));
    assert!(!s.should_trigger(false, 1900));
    assert!(s.should_trigger(false, 2000));
}

#[test]
fn poller_grace_period_then_start_and_debounced_stop() {
    let mut p = MeetingAppPoller::new();
    // A meeting app already running during the grace period is the baseline.
    assert!(p.tick(vec!["Zoom".to_string()], 1500).is_none());
    assert!(p.tick(vec!["Zoom".to_string()], STARTUP_GRACE_PERIOD_MS).is_none());
    assert!(p.tick(vec!["Zoom".to_string()], 16500).is_none());
    // A new app starts a meeting.
    match p.tick(vec!["Zoom".to_string(), "Slack".to_string()], 18000) {
        Some(SystemAudioEvent::SystemAudioStarted(apps)) => {
            assert_eq!(apps, vec!["Zoom".to_string(), "Slack".to_string()])
        }
        other => panic!("expected a start event, got {:?}", other),
    }
    // Three empty polls stop it.
    assert!(p.tick(vec![], 19500).is_none());
    assert!(p.tick(vec![], 21000).is_none());
    match p.tick(vec![], 22500) {
        Some(SystemAudioEvent::SystemAudioStopped) => {}
        other => panic!("expected a stop event, got {:?}", other),
    }
    assert!(p.tick(vec![], 24000).is_none());
}

#[test]
fn poller_silence_is_reset_by_a_running_app() {
    let mut p = MeetingAppPoller::new();
    assert!(p.tick(vec![], STARTUP_GRACE_PERIOD_MS).is_none());
    assert!(p.tick(vec!["Teams".to_string()], 16500).is_some());
    assert!(p.tick(vec![], 18000).is_none());
    assert!(p.tick(vec![], 19500).is_none());
    // The app is new again against the empty snapshots before it.
    assert!(matches!(
        p.tick(vec!["Teams".to_string()], 21000),
        Some(SystemAudioEvent::SystemAudioStarted(_))
    ));
    assert!(p.tick(vec![], 22500).is_none());
    assert!(p.tick(vec![], 24000).is_none());
    assert!(matches!(p.tick(vec![], 25500), Some(SystemAudioEvent::SystemAudioStopped)));
}

#[test]
fn platform_detector_start_stop_does_nothing() {
    let mut d = PlatformSystemAudioDetector::new();
    d.start(new_system_audio_callback(|_event: SystemAudioEvent| {
        panic!("no event expected");
    }));
    d.stop();
}

#[test]
fn device_signals_report_debounced_changes() {
    let mut s = DetectorState::new(0);
    s.set_initial_state(true);
    assert_eq!(s.on_device_signal(true, 1000, DeviceSignal::RunningChanged), DeviceAction::Nothing);
    assert_eq!(s.on_device_signal(false, 1000, DeviceSignal::RunningChanged), DeviceAction::ReportStopped);
    assert_eq!(s.on_device_signal(true, 1200, DeviceSignal::RunningChanged), DeviceAction::Nothing);
    assert_eq!(s.on_device_signal(true, 1500, DeviceSignal::DefaultDeviceChanged), DeviceAction::ReportStarted);
    // A device switch to an idle device records the change but reports nothing.
    assert_eq!(s.on_device_signal(false, 2000, DeviceSignal::DefaultDeviceChanged), DeviceAction::Nothing);
    assert!(!s.last_state);
}

#[test]
fn audio_app_names() {
    assert_eq!(audio_app_name(Some("Zoom".to_string()), 12), "Zoom");
    assert_eq!(audio_app_name(None, 4242), "Process 4242");
    assert_eq!(audio_app_name(None, -7), "Process -7");
    assert_eq!(audio_app_name(None, i32::MIN), format!("Process {}", i32::MIN));
}
