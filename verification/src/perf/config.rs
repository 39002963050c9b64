//! Performance profiling configuration: the checks on the scenario and the
//! duration of a profiling run, and the errors they report.

use vstd::prelude::*;

use crate::text::{concat, decimal, owned, str_eq, u64_to_decimal};

verus! {

/// Configuration validation errors
#[derive(Debug, Clone)]
pub enum ConfigError {
    /// Invalid scenario name
    InvalidScenario(String),
    /// Duration too short (minimum 10 seconds)
    DurationTooShort(u32),
    /// Invalid budget configuration
    InvalidBudget(&'static str),
}

/// The scenario names a profiling run accepts.
pub open spec fn valid_scenario_name(s: Seq<char>) -> bool {
    s == "idle"@ || s == "world_churn"@ || s == "net_stress"@
}

/// The shortest profiling run, in seconds.
pub const MIN_DURATION_SECS: u32 = 10;

impl ConfigError {
    /// The message describing the error.
    pub open spec fn spec_message(&self) -> Seq<char> {
        match self {
            ConfigError::InvalidScenario(s) => "Invalid scenario '"@ + s@
                + "'. Valid: idle, world_churn, net_stress"@,
            ConfigError::DurationTooShort(d) => "Duration "@ + decimal(*d as nat)
                + " too short (minimum 10 seconds)"@,
            ConfigError::InvalidBudget(msg) => "Invalid budget: "@ + msg@,
        }
    }

    /// The message describing the error.
    pub fn message(&self) -> (s: String)
        ensures
            s@ == self.spec_message(),
    {
        match self {
            ConfigError::InvalidScenario(s) => {
                let a = concat("Invalid scenario '", s.as_str());
                concat(a.as_str(), "'. Valid: idle, world_churn, net_stress")
            },
            ConfigError::DurationTooShort(d) => {
                let n = u64_to_decimal(*d as u64);
                let a = concat("Duration ", n.as_str());
                concat(a.as_str(), " too short (minimum 10 seconds)")
            },
            ConfigError::InvalidBudget(msg) => concat("Invalid budget: ", msg),
        }
    }
}

/// Validate the scenario and duration of a profiling run: the scenario must
/// be one of the known names and the run must last at least ten seconds. The
/// scenario is checked first.
pub fn validate_run(scenario: &str, duration_secs: u32) -> (r: Result<(), ConfigError>)
    ensures
        !valid_scenario_name(scenario@) ==> (r matches Err(ConfigError::InvalidScenario(s)) && s@
            == scenario@),
        valid_scenario_name(scenario@) && duration_secs < MIN_DURATION_SECS ==> (r matches Err(
            ConfigError::DurationTooShort(d),
        ) && d == duration_secs),
        valid_scenario_name(scenario@) && duration_secs >= MIN_DURATION_SECS ==> r is Ok,
{
    if !(str_eq(scenario, "idle") || str_eq(scenario, "world_churn") || str_eq(scenario, "net_stress")) {
        return Err(ConfigError::InvalidScenario(owned(scenario)));
    }
    if duration_secs < MIN_DURATION_SECS {
        return Err(ConfigError::DurationTooShort(duration_secs));
    }
    Ok(())
}

} // verus!
