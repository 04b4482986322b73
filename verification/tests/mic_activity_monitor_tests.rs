use meetily_models::mic_activity_monitor::{
    choose_input_device, dismiss_mic_activity_detection, is_mic_activity_monitoring,
    monitored_device_name, monitoring_preference,
    preference_action, push_mono_samples, stop_mic_activity_monitoring, MeetingDetector,
    InputDeviceChoice, MicMonitorState, MicTickAction, PreferenceAction, DETECTION_COOLDOWN_MS, MAX_BUFFER_SAMPLES,
    MEETING_DETECTION_THRESHOLD, MEETING_ENDED_THRESHOLD, STARTUP_GRACE_PERIOD_MS,
};

#[test]
fn test_is_monitoring_default() {
    let state = MicMonitorState::new();
    assert!(!is_mic_activity_monitoring(&state) || is_mic_activity_monitoring(&state));
    assert!(!is_mic_activity_monitoring(&state));
}

#[test]
fn test_stream_handle_accessible() {
    let state = MicMonitorState::new();
    assert!(!state.stream_open, "no stream should be held by default");
}

#[test]
fn test_push_samples_mono_trimming() {
    let mut buf: Vec<f32> = Vec::new();
    let big_data = vec![0.1f32; MAX_BUFFER_SAMPLES + 500];
    push_mono_samples(&mut buf, &big_data);
    assert_eq!(buf.len(), MAX_BUFFER_SAMPLES);
}

#[test]
fn test_push_samples_incremental_trimming() {
    let mut buf: Vec<f32> = Vec::new();
    let initial = vec![0.1f32; MAX_BUFFER_SAMPLES];
    push_mono_samples(&mut buf, &initial);
    assert_eq!(buf.len(), MAX_BUFFER_SAMPLES);

    let extra = vec![0.9f32; 100];
    push_mono_samples(&mut buf, &extra);
    assert_eq!(buf.len(), MAX_BUFFER_SAMPLES);
    assert!((buf[MAX_BUFFER_SAMPLES - 1] - 0.9).abs() < 1e-6);
    assert!((buf[MAX_BUFFER_SAMPLES - 101] - 0.1).abs() < 1e-6);
}

#[test]
fn push_keeps_everything_below_the_limit() {
    let mut buf: Vec<i32> = vec![1, 2];
    push_mono_samples(&mut buf, &[3, 4]);
    assert_eq!(buf, vec![1, 2, 3, 4]);
}

#[test]
fn stop_reports_whether_monitoring_ran() {
    let mut state = MicMonitorState::new();
    assert!(!stop_mic_activity_monitoring(&mut state));
    state.begin_monitoring();
    state.record_stream("Built-in Microphone".to_string());
    assert!(stop_mic_activity_monitoring(&mut state));
    assert!(!state.monitoring);
    assert!(!state.stream_open);
}

#[test]
fn preference_defaults_to_enabled() {
    assert!(monitoring_preference(None));
    assert!(!monitoring_preference(Some(false)));
    assert_eq!(preference_action(true, false), PreferenceAction::StartMonitoring);
    assert_eq!(preference_action(false, true), PreferenceAction::StopMonitoring);
    assert_eq!(preference_action(true, true), PreferenceAction::Nothing);
}

fn run(det: &mut MeetingDetector, state: &mut MicMonitorState, active: bool, n: u32, t: &mut u64) -> Vec<MicTickAction> {
    let mut out = Vec::new();
    for _ in 0..n {
        out.push(det.tick(state, active, *t));
        *t += 150;
    }
    out
}

#[test]
fn sustained_activity_detects_and_silence_ends_the_meeting() {
    let mut state = MicMonitorState::new();
    let mut det = MeetingDetector::new(0);
    let mut t: u64 = 0;
    // Grace period: nothing, whatever the microphone does.
    let grace = run(&mut det, &mut state, true, ((STARTUP_GRACE_PERIOD_MS + 149) / 150) as u32, &mut t);
    assert!(grace.iter().all(|a| *a == MicTickAction::Nothing));
    let acts = run(&mut det, &mut state, true, MEETING_DETECTION_THRESHOLD, &mut t);
    assert_eq!(acts.last(), Some(&MicTickAction::MeetingDetected));
    assert!(acts[..acts.len() - 1].iter().all(|a| *a == MicTickAction::Nothing));
    assert!(state.meeting_detected);
    let quiet = run(&mut det, &mut state, false, MEETING_ENDED_THRESHOLD, &mut t);
    assert_eq!(quiet.last(), Some(&MicTickAction::MeetingStopped));
    assert!(!state.meeting_detected);
}

#[test]
fn dismissal_blocks_detection_during_the_cooldown() {
    let mut state = MicMonitorState::new();
    let mut det = MeetingDetector::new(0);
    let mut t: u64 = STARTUP_GRACE_PERIOD_MS;
    dismiss_mic_activity_detection(&mut state, t);
    assert!(state.detection_dismissed);
    let acts = run(&mut det, &mut state, true, MEETING_DETECTION_THRESHOLD + 10, &mut t);
    assert!(acts.iter().all(|a| *a == MicTickAction::Nothing));
    assert!(t < STARTUP_GRACE_PERIOD_MS + DETECTION_COOLDOWN_MS);
}

#[test]
fn detection_fires_again_after_the_cooldown() {
    let mut state = MicMonitorState::new();
    let mut det = MeetingDetector::new(0);
    let mut t: u64 = STARTUP_GRACE_PERIOD_MS;
    let first = run(&mut det, &mut state, true, MEETING_DETECTION_THRESHOLD, &mut t);
    assert_eq!(first.last(), Some(&MicTickAction::MeetingDetected));
    let dismissed_at = t;
    dismiss_mic_activity_detection(&mut state, dismissed_at);
    // Sustained activity through the cooldown reports nothing.
    let ticks_in_cooldown = (DETECTION_COOLDOWN_MS / 150) as u32;
    let during = run(&mut det, &mut state, true, ticks_in_cooldown, &mut t);
    assert!(during.iter().all(|a| *a == MicTickAction::Nothing));
    assert!(t >= dismissed_at + DETECTION_COOLDOWN_MS);
    // Once the cooldown is over, the next active tick (the run is long past
    // the threshold) reports the meeting again.
    let after = run(&mut det, &mut state, true, 1, &mut t);
    assert_eq!(after, vec![MicTickAction::MeetingDetected]);
    assert!(state.meeting_detected);
    assert!(!state.detection_dismissed);
}

#[test]
fn input_device_defaults_to_the_host_default() {
    let names = vec![Some("USB Mic".to_string())];
    assert_eq!(choose_input_device(None, &names, true), Ok(InputDeviceChoice::Default));
    assert_eq!(
        choose_input_device(None, &names, false),
        Err("No default input device available".to_string())
    );
}

#[test]
fn input_device_is_found_by_name() {
    let names = vec![
        None,
        Some("Built-in Microphone".to_string()),
        Some("USB Mic".to_string()),
        Some("USB Mic".to_string()),
    ];
    assert_eq!(
        choose_input_device(Some("USB Mic"), &names, false),
        Ok(InputDeviceChoice::Listed(2))
    );
    assert_eq!(
        choose_input_device(Some("Built-in Microphone"), &names, true),
        Ok(InputDeviceChoice::Listed(1))
    );
}

#[test]
fn input_device_not_found_names_the_request() {
    let names = vec![None, Some("USB Mic".to_string())];
    assert_eq!(
        choose_input_device(Some("Headset"), &names, true),
        Err("Input device not found: Headset".to_string())
    );
}

#[test]
fn monitored_device_name_falls_back_to_unknown() {
    assert_eq!(monitored_device_name(Some("USB Mic".to_string())), "USB Mic");
    assert_eq!(monitored_device_name(None), "unknown");
}
