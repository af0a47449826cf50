use zeroclaw_jarvis::tuning::{tuning_error_message, validate_jarvis_tuning, TuningError};

#[test]
fn tuning_checks_in_order() {
    assert_eq!(validate_jarvis_tuning(false, false, 0, 0), Err(TuningError::EnergyThreshold));
    assert_eq!(validate_jarvis_tuning(true, false, 0, 0), Err(TuningError::ClapEnergyThreshold));
    assert_eq!(validate_jarvis_tuning(true, true, 199, 20), Err(TuningError::ClapWindow));
    assert_eq!(validate_jarvis_tuning(true, true, 5001, 20), Err(TuningError::ClapWindow));
    assert_eq!(validate_jarvis_tuning(true, true, 200, 19), Err(TuningError::ClapCooldown));
    assert_eq!(validate_jarvis_tuning(true, true, 5000, 1001), Err(TuningError::ClapCooldown));
    assert_eq!(validate_jarvis_tuning(true, true, 900, 120), Ok(()));
}

#[test]
fn tuning_messages() {
    assert_eq!(
        tuning_error_message(TuningError::ClapWindow),
        "clap_window_ms must be between 200 and 5000"
    );
    assert_eq!(
        tuning_error_message(TuningError::EnergyThreshold),
        "energy_threshold must be between 0.0001 and 0.1"
    );
}
