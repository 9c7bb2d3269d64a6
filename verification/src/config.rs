//! The controller's configuration and the rules it must satisfy.

use vstd::prelude::*;
use crate::text::{decimal_digits, push_decimal, push_str, string_from_chars};
use crate::decimal::Decimal;
use crate::clock::{local_date_text, is_date_text};

verus! {

/// How to reach and drive the inverter.
pub struct InverterConfig {
    pub host: String,
    pub port: u16,
    pub right: String,
    pub password: String,
    /// Maximum rated output of the inverter in watts (used when restoring full
    /// power); 180000 W for the SMA 180-21.
    pub max_power_watts: u32,
}

/// When and how far to limit.
pub struct ControlConfig {
    /// Directory that holds the daily price files.
    pub csv_dir: String,
    pub price_threshold_eur_mwh: Decimal,
    pub limit_power_watts: u32,
    pub poll_interval_secs: u64,
}

/// The whole configuration.
pub struct Config {
    pub inverter: InverterConfig,
    pub control: ControlConfig,
}

/// The port used where the configuration names none.
pub fn default_port() -> (r: u16)
    ensures
        r == 18443,
{
    18443
}

/// The polling interval used where the configuration names none.
pub fn default_poll_interval() -> (r: u64)
    ensures
        r == 60,
{
    60
}

/// A rule of the configuration that does not hold.
#[derive(Clone, Copy, Debug, PartialEq, Eq, Structural)]
pub enum ConfigError {
    /// `inverter.host` must not be empty.
    EmptyHost,
    /// `inverter.max_power_watts` must be > 0.
    ZeroMaxPower,
    /// `control.limit_power_watts` must be > 0.
    ZeroLimitPower,
    /// `control.limit_power_watts` must be less than `inverter.max_power_watts`.
    LimitNotBelowMax { limit: u32, max: u32 },
    /// `control.price_threshold_eur_mwh` must be > 0.
    NonPositiveThreshold,
    /// `control.poll_interval_secs` must be > 0.
    ZeroPollInterval,
}

impl Config {
    /// The first rule that the configuration breaks, checked in this order.
    pub open spec fn check(self) -> Result<(), ConfigError> {
        if self.inverter.host@.len() == 0 {
            Err(ConfigError::EmptyHost)
        } else if self.inverter.max_power_watts == 0 {
            Err(ConfigError::ZeroMaxPower)
        } else if self.control.limit_power_watts == 0 {
            Err(ConfigError::ZeroLimitPower)
        } else if self.control.limit_power_watts >= self.inverter.max_power_watts {
            Err(
                ConfigError::LimitNotBelowMax {
                    limit: self.control.limit_power_watts,
                    max: self.inverter.max_power_watts,
                },
            )
        } else if !self.control.price_threshold_eur_mwh.spec_positive() {
            Err(ConfigError::NonPositiveThreshold)
        } else if self.control.poll_interval_secs == 0 {
            Err(ConfigError::ZeroPollInterval)
        } else {
            Ok(())
        }
    }

    /// Checks the configuration's rules.
    pub fn validate(&self) -> (r: Result<(), ConfigError>)
        ensures
            r == self.check(),
    {
        if self.inverter.host.as_str().is_empty() {
            return Err(ConfigError::EmptyHost);
        }
        if self.inverter.max_power_watts == 0 {
            return Err(ConfigError::ZeroMaxPower);
        }
        if self.control.limit_power_watts == 0 {
            return Err(ConfigError::ZeroLimitPower);
        }
        if self.control.limit_power_watts >= self.inverter.max_power_watts {
            return Err(
                ConfigError::LimitNotBelowMax {
                    limit: self.control.limit_power_watts,
                    max: self.inverter.max_power_watts,
                },
            );
        }
        if !self.control.price_threshold_eur_mwh.is_positive() {
            return Err(ConfigError::NonPositiveThreshold);
        }
        if self.control.poll_interval_secs == 0 {
            return Err(ConfigError::ZeroPollInterval);
        }
        Ok(())
    }

    /// `https://<host>:<port>`.
    pub open spec fn base_url(self) -> Seq<char> {
        "https://"@ + self.inverter.host@ + ":"@ + decimal_digits(self.inverter.port as nat)
    }

    /// The base URL of the inverter's WebConnect interface.
    pub fn inverter_base_url(&self) -> (r: String)
        ensures
            r@ == self.base_url(),
    {
        let mut out: Vec<char> = Vec::new();
        push_str(&mut out, "https://");
        push_str(&mut out, self.inverter.host.as_str());
        push_str(&mut out, ":");
        push_decimal(&mut out, self.inverter.port as u64);
        assert(out@ =~= self.base_url());
        string_from_chars(out.as_slice())
    }
}

/// `name` appended to the directory `dir` as `Path::join` appends a relative
/// name: with a `/` between them unless `dir` is empty or already ends in one.
pub open spec fn path_join(dir: Seq<char>, name: Seq<char>) -> Seq<char> {
    if dir.len() > 0 && dir.last() != '/' {
        dir + seq!['/'] + name
    } else {
        dir + name
    }
}

/// The file name of the price file for a date written `YYYY-MM-DD`.
pub open spec fn csv_file_name(date: Seq<char>) -> Seq<char> {
    "dam_data_"@ + date + ".csv"@
}

impl ControlConfig {
    /// The path of the price file for the date `date` (written `YYYY-MM-DD`).
    pub fn csv_path_for_date(&self, date: &str) -> (r: String)
        ensures
            r@ == path_join(self.csv_dir@, csv_file_name(date@)),
    {
        let mut out: Vec<char> = Vec::new();
        push_str(&mut out, self.csv_dir.as_str());
        let n = out.len();
        if n > 0 && out[n - 1] != '/' {
            out.push('/');
        }
        push_str(&mut out, "dam_data_");
        push_str(&mut out, date);
        push_str(&mut out, ".csv");
        assert(out@ =~= path_join(self.csv_dir@, csv_file_name(date@)));
        string_from_chars(out.as_slice())
    }

    /// The path of today's price file, today being the local date.
    pub fn csv_path_for_today(&self) -> (r: String)
        ensures
            exists|date: Seq<char>|
                is_date_text(date) && r@ == path_join(self.csv_dir@, #[trigger] csv_file_name(date)),
    {
        let today = local_date_text();
        self.csv_path_for_date(today.as_str())
    }
}

} // verus!
