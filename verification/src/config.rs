//! The daemon's configuration: which keyboard backlight device to use, how often
//! to read the battery, and settings applied once at start.
use vstd::prelude::*;

verus! {

/// Settings applied once at start.
#[derive(Debug, Clone, Copy, PartialEq, Eq, Structural)]
pub struct StaticConfig {
    pub intel_turbo: Option<bool>,
}

impl StaticConfig {
    /// The value to write to the `no_turbo` switch: 0 to allow turbo, 1 to forbid
    /// it, nothing when the setting is absent.
    pub fn no_turbo_value(&self) -> (v: Option<u8>)
        ensures
            v == (match self.intel_turbo {
                Some(t) => Some(if t {
                    0u8
                } else {
                    1u8
                }),
                None => None,
            }),
    {
        match self.intel_turbo {
            Some(intel_turbo) => Some(if intel_turbo {
                0
            } else {
                1
            }),
            None => None,
        }
    }
}

/// Why a configuration was rejected.
#[derive(Debug, Clone, Copy, PartialEq, Eq, Structural)]
pub enum ConfigError {
    InvalidBatteryPollingInterval(u8),
}

impl ConfigError {
    pub fn as_str(&self) -> (s: &'static str)
        ensures
            s@ == "Valid battery_polling_interval values are: [5, 10, 15, 20, 30, 60]; using default"@,
    {
        "Valid battery_polling_interval values are: [5, 10, 15, 20, 30, 60]; using default"
    }
}

/// The accepted battery polling intervals, in seconds.
pub open spec fn valid_polling_interval(v: u8) -> bool {
    v == 5 || v == 10 || v == 15 || v == 20 || v == 30 || v == 60
}

/// The battery polling interval used when none is configured.
pub const DEFAULT_BATTERY_POLLING_INTERVAL: u8 = 10;

/// Accepts 5, 10, 15, 20, 30 or 60 seconds.
pub fn validate_battery_polling_interval(value: u8) -> (r: Result<u8, ConfigError>)
    ensures
        valid_polling_interval(value) ==> r == Ok::<u8, ConfigError>(value),
        !valid_polling_interval(value) ==> r == Err::<u8, ConfigError>(
            ConfigError::InvalidBatteryPollingInterval(value),
        ),
{
    let options: [u8; 6] = [5, 10, 15, 20, 30, 60];
    let mut i: usize = 0;
    while i < 6
        invariant
            i <= 6,
            options@ == seq![5u8, 10, 15, 20, 30, 60],
            forall|j: int| 0 <= j < i ==> options@[j] != value,
        decreases 6 - i,
    {
        if options[i] == value {
            return Ok(value);
        }
        i += 1;
    }
    Err(ConfigError::InvalidBatteryPollingInterval(value))
}

/// The configuration as values.
pub struct ConfigView {
    pub keyboard_backlight: Option<Seq<char>>,
    pub battery_polling_interval: u8,
    pub static_config: Option<StaticConfig>,
}

pub struct Config {
    keyboard_backlight: Option<String>,
    battery_polling_interval: u8,
    static_config: Option<StaticConfig>,
}

impl View for Config {
    type V = ConfigView;

    closed spec fn view(&self) -> ConfigView {
        ConfigView {
            keyboard_backlight: match self.keyboard_backlight {
                Some(s) => Some(s@),
                None => None,
            },
            battery_polling_interval: self.battery_polling_interval,
            static_config: self.static_config,
        }
    }
}

impl Default for Config {
    /// No keyboard backlight device named, the battery read every 10 seconds, no
    /// static settings.
    fn default() -> (c: Self)
        ensures
            c@.keyboard_backlight is None,
            c@.battery_polling_interval == DEFAULT_BATTERY_POLLING_INTERVAL,
            c@.static_config is None,
    {
        Config {
            keyboard_backlight: None,
            battery_polling_interval: DEFAULT_BATTERY_POLLING_INTERVAL,
            static_config: None,
        }
    }
}

impl Config {
    /// A configuration from the settings found in the file; an absent polling
    /// interval is the default, an invalid one rejects the whole file.
    pub fn from_settings(
        keyboard_backlight: Option<String>,
        battery_polling_interval: Option<u8>,
        static_config: Option<StaticConfig>,
    ) -> (r: Result<Config, ConfigError>)
        ensures
            r matches Ok(c) ==> valid_polling_interval(c@.battery_polling_interval),
            match battery_polling_interval {
                Some(v) if !valid_polling_interval(v) => r == Err::<Config, ConfigError>(
                    ConfigError::InvalidBatteryPollingInterval(v),
                ),
                _ => r matches Ok(c) && c@.battery_polling_interval == (match battery_polling_interval {
                    Some(v) => v,
                    None => DEFAULT_BATTERY_POLLING_INTERVAL,
                }) && c@.static_config == static_config && c@.keyboard_backlight == (
                match keyboard_backlight {
                    Some(s) => Some(s@),
                    None => None,
                }),
            },
    {
        let interval = match battery_polling_interval {
            Some(v) => match validate_battery_polling_interval(v) {
                Ok(v) => v,
                Err(e) => {
                    return Err(e);
                },
            },
            None => DEFAULT_BATTERY_POLLING_INTERVAL,
        };
        Ok(Config { keyboard_backlight, battery_polling_interval: interval, static_config })
    }

    pub fn get_keyboard_backlight(&self) -> (r: Option<&String>)
        ensures
            match r {
                Some(s) => self@.keyboard_backlight == Some(s@),
                None => self@.keyboard_backlight is None,
            },
    {
        match &self.keyboard_backlight {
            Some(s) => Some(s),
            None => None,
        }
    }

    pub fn get_battery_polling_interval(&self) -> (v: u8)
        ensures
            v == self@.battery_polling_interval,
    {
        self.battery_polling_interval
    }

    pub fn get_static_config(&self) -> (r: Option<&StaticConfig>)
        ensures
            match r {
                Some(s) => self@.static_config == Some(*s),
                None => self@.static_config is None,
            },
    {
        match &self.static_config {
            Some(s) => Some(s),
            None => None,
        }
    }
}

} // verus!
