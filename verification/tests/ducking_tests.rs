use meetily_models::windows_audio_session::ducking;
use meetily_models::windows_audio_session::ducking::DuckingGuard;

#[test]
fn test_ducking_module_compiles() {
    let _ = ducking::is_ducking_disabled();
}

#[test]
fn test_restore_does_not_panic() {
    let _result = ducking::restore_communication_ducking();
}

#[test]
fn test_public_api_surface() {
    let _: Result<(), String> = ducking::disable_communication_ducking();
    let _: bool = ducking::is_ducking_disabled();
    let _: Result<(), String> = ducking::restore_communication_ducking();
}

#[test]
fn test_restore_does_not_panic_multiple_calls() {
    let _r1 = ducking::restore_communication_ducking();
    let _r2 = ducking::restore_communication_ducking();
    let _r3 = ducking::restore_communication_ducking();
}

#[test]
fn test_non_windows_disable_is_noop() {
    assert!(ducking::disable_communication_ducking().is_ok());
    assert!(!ducking::is_ducking_disabled());
}

#[test]
fn test_non_windows_restore_is_noop() {
    assert!(ducking::restore_communication_ducking().is_ok());
}

#[test]
fn test_non_windows_full_lifecycle() {
    assert!(ducking::disable_communication_ducking().is_ok());
    assert!(!ducking::is_ducking_disabled());
    assert!(ducking::restore_communication_ducking().is_ok());
    assert!(!ducking::is_ducking_disabled());
}

#[test]
fn test_windows_disable_sets_flag() {
    let mut guard = DuckingGuard::new();
    let result = guard.disable(|| Ok(()));
    if result.is_ok() {
        assert!(guard.is_ducking_disabled());
        let _ = guard.restore(|| Ok(()));
    }
    assert!(!guard.is_ducking_disabled());
}

#[test]
fn test_windows_idempotent_disable() {
    let mut guard = DuckingGuard::new();
    let first = guard.disable(|| Ok(()));
    let second = guard.disable(|| -> Result<(), String> { panic!("no session call on a second disable") });
    if first.is_ok() {
        assert!(second.is_ok());
        assert!(guard.is_ducking_disabled());
        let _ = guard.restore(|| Ok(()));
    }
}

#[test]
fn failed_disable_leaves_ducking_enabled() {
    let mut guard = DuckingGuard::new();
    assert_eq!(guard.disable(|| Err("no audio device".to_string())), Err("no audio device".to_string()));
    assert!(!guard.is_ducking_disabled());
}

#[test]
fn failed_restore_keeps_the_flag() {
    let mut guard = DuckingGuard::new();
    assert!(guard.disable(|| Ok(())).is_ok());
    assert!(guard.restore(|| Err("gone".to_string())).is_err());
    assert!(guard.is_ducking_disabled());
    assert!(guard.restore(|| Ok(())).is_ok());
    assert!(!guard.is_ducking_disabled());
    assert!(guard.restore(|| -> Result<(), String> { panic!("no session call when nothing is disabled") }).is_ok());
}

#[test]
fn com_initialization_failures_name_the_result() {
    assert_eq!(ducking::com_init_failure(0), None);
    assert_eq!(ducking::com_init_failure(1), None);
    assert_eq!(
        ducking::com_init_failure(0x8001_0106u32 as i32),
        Some("COM initialization failed: HRESULT 0x80010106".to_string())
    );
    assert_eq!(
        ducking::com_init_failure(-1),
        Some(format!("COM initialization failed: HRESULT 0x{:08X}", -1i32 as u32))
    );
}
