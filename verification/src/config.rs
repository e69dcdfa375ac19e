//! The service's configuration, as the values that the rest is made from.

use crate::amount::parse_balance;
use crate::amount::parsed_balance;
use crate::clients::near::NearConfig;
use vstd::prelude::*;

verus! {

/// The length of a quota window where none is set: one day, in milliseconds.
pub const DEFAULT_RESET_INTERVAL: u64 = 60000 * 60 * 24;

/// The port the service listens on where none is set.
pub const DEFAULT_PORT: u16 = 80;

/// The nanoseconds of one millisecond.
pub const NANOS_PER_MILLI: u128 = 1_000_000;

/// The configuration of one backend.
#[derive(Debug, Clone)]
pub enum BackendConfig {
    /// The NEAR backend.
    Near(NearConfig),
}

/// The configuration of the service.
#[derive(Debug, Clone)]
pub struct Config {
    /// The port the service listens on.
    pub port: u16,
    /// Full limit reset interval, in milliseconds.
    pub reset_interval: u64,
    /// The backends, one per ledger.
    pub backends: Vec<BackendConfig>,
}

/// Which setting is no number in its range.
#[derive(Clone, Copy, Debug, PartialEq, Eq, Structural)]
pub enum ConfigError {
    /// The port is no number of 16 bits in decimal digits.
    InvalidPort,
    /// The reset interval is no number of 64 bits in decimal digits.
    InvalidResetInterval,
}

/// The number that a setting stands for: `default` where it is not set, the number
/// its text writes where that is at most `max`, and none otherwise.
pub open spec fn setting_value(text: Option<Seq<char>>, default: u128, max: u128) -> Option<u128> {
    match text {
        None => Some(default),
        Some(text) => match parsed_balance(text) {
            Some(value) => if value <= max {
                Some(value)
            } else {
                None
            },
            None => None,
        },
    }
}

/// The view of a setting's text.
pub open spec fn setting_text(text: Option<&str>) -> Option<Seq<char>> {
    match text {
        None => None,
        Some(text) => Some(text@),
    }
}

/// Reads a setting as a number of at most `max`.
fn read_setting(text: Option<&str>, default: u128, max: u128) -> (value: Option<u128>)
    ensures
        value == setting_value(setting_text(text), default, max),
{
    match text {
        None => Some(default),
        Some(text) => match parse_balance(text) {
            Some(value) => if value <= max {
                Some(value)
            } else {
                None
            },
            None => None,
        },
    }
}

/// Whether the service has a backend for the ledger named `name`.
pub fn is_supported_network(name: &str) -> (supported: bool)
    ensures
        supported == (name@ == "near"@),
{
    name.to_owned() == "near".to_owned()
}

impl Config {
    /// What `from_settings` answers.
    pub open spec fn settings_check(
        port: Option<Seq<char>>,
        reset_interval: Option<Seq<char>>,
    ) -> Result<(u16, u64), ConfigError> {
        match setting_value(port, DEFAULT_PORT as u128, u16::MAX as u128) {
            None => Err(ConfigError::InvalidPort),
            Some(port) => match setting_value(
                reset_interval,
                DEFAULT_RESET_INTERVAL as u128,
                u64::MAX as u128,
            ) {
                None => Err(ConfigError::InvalidResetInterval),
                Some(reset_interval) => Ok((port as u16, reset_interval as u64)),
            },
        }
    }

    /// Makes the configuration from the texts of the settings, as far as they are set,
    /// and the backends. A port that is not set is 80, a reset interval that is not
    /// set one day.
    pub fn from_settings(
        port: Option<&str>,
        reset_interval: Option<&str>,
        backends: Vec<BackendConfig>,
    ) -> (made: Result<Config, ConfigError>)
        ensures
            match made {
                Ok(config) => Self::settings_check(setting_text(port), setting_text(reset_interval))
                    == Ok::<(u16, u64), ConfigError>((config.port, config.reset_interval))
                    && config.backends == backends,
                Err(error) => Self::settings_check(setting_text(port), setting_text(reset_interval))
                    == Err::<(u16, u64), ConfigError>(error),
            },
    {
        let port = match read_setting(port, DEFAULT_PORT as u128, u16::MAX as u128) {
            Some(port) => port as u16,
            None => {
                return Err(ConfigError::InvalidPort);
            },
        };
        let reset_interval = match read_setting(
            reset_interval,
            DEFAULT_RESET_INTERVAL as u128,
            u64::MAX as u128,
        ) {
            Some(reset_interval) => reset_interval as u64,
            None => {
                return Err(ConfigError::InvalidResetInterval);
            },
        };
        Ok(Config { port, reset_interval, backends })
    }

    /// The length of a quota window in nanoseconds.
    pub fn reset_interval_nanos(&self) -> (nanos: u128)
        ensures
            nanos == self.reset_interval * NANOS_PER_MILLI,
    {
        self.reset_interval as u128 * NANOS_PER_MILLI
    }
}

} // verus!
