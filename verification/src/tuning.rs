//! Checks on the Jarvis detector tuning that the control endpoint accepts.

use vstd::prelude::*;

verus! {

/// Why a tuning is refused.
#[derive(Debug, Clone, Copy, PartialEq, Eq, Structural)]
pub enum TuningError {
    EnergyThreshold,
    ClapEnergyThreshold,
    ClapWindow,
    ClapCooldown,
}

/// The first reason a tuning is refused, in the order the endpoint checks:
/// the energy threshold must lie in `[0.0001, 0.1]` and the clap energy
/// threshold in `[0.001, 0.2]` (both compared by the caller), the clap window
/// in `200..=5000` ms and the clap cooldown in `20..=1000` ms.
pub open spec fn spec_check_tuning(
    energy_threshold_in_range: bool,
    clap_energy_threshold_in_range: bool,
    clap_window_ms: u32,
    clap_cooldown_ms: u32,
) -> Option<TuningError> {
    if !energy_threshold_in_range {
        Some(TuningError::EnergyThreshold)
    } else if !clap_energy_threshold_in_range {
        Some(TuningError::ClapEnergyThreshold)
    } else if !(200 <= clap_window_ms <= 5000) {
        Some(TuningError::ClapWindow)
    } else if !(20 <= clap_cooldown_ms <= 1000) {
        Some(TuningError::ClapCooldown)
    } else {
        None
    }
}

pub fn validate_jarvis_tuning(
    energy_threshold_in_range: bool,
    clap_energy_threshold_in_range: bool,
    clap_window_ms: u32,
    clap_cooldown_ms: u32,
) -> (r: Result<(), TuningError>)
    ensures
        match r {
            Ok(()) => spec_check_tuning(
                energy_threshold_in_range,
                clap_energy_threshold_in_range,
                clap_window_ms,
                clap_cooldown_ms,
            ) is None,
            Err(e) => spec_check_tuning(
                energy_threshold_in_range,
                clap_energy_threshold_in_range,
                clap_window_ms,
                clap_cooldown_ms,
            ) == Some(e),
        },
{
    if !energy_threshold_in_range {
        Err(TuningError::EnergyThreshold)
    } else if !clap_energy_threshold_in_range {
        Err(TuningError::ClapEnergyThreshold)
    } else if !(200 <= clap_window_ms && clap_window_ms <= 5000) {
        Err(TuningError::ClapWindow)
    } else if !(20 <= clap_cooldown_ms && clap_cooldown_ms <= 1000) {
        Err(TuningError::ClapCooldown)
    } else {
        Ok(())
    }
}

/// The message the endpoint answers for a refused tuning.
pub fn tuning_error_message(e: TuningError) -> (msg: String)
    ensures
        msg@ == match e {
            TuningError::EnergyThreshold => "energy_threshold must be between 0.0001 and 0.1"@,
            TuningError::ClapEnergyThreshold =>
                "clap_energy_threshold must be between 0.001 and 0.2"@,
            TuningError::ClapWindow => "clap_window_ms must be between 200 and 5000"@,
            TuningError::ClapCooldown => "clap_cooldown_ms must be between 20 and 1000"@,
        },
{
    match e {
        TuningError::EnergyThreshold => String::from_str(
            "energy_threshold must be between 0.0001 and 0.1",
        ),
        TuningError::ClapEnergyThreshold => String::from_str(
            "clap_energy_threshold must be between 0.001 and 0.2",
        ),
        TuningError::ClapWindow => String::from_str("clap_window_ms must be between 200 and 5000"),
        TuningError::ClapCooldown => String::from_str(
            "clap_cooldown_ms must be between 20 and 1000",
        ),
    }
}

} // verus!
