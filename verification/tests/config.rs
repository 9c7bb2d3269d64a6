use sma_controller::config::{
    default_poll_interval, default_port, Config, ConfigError, ControlConfig, InverterConfig,
};
use sma_controller::decimal::Decimal;

fn config() -> Config {
    Config {
        inverter: InverterConfig {
            host: "192.168.1.100".to_string(),
            port: default_port(),
            right: "istl".to_string(),
            password: "secret".to_string(),
            max_power_watts: 180000,
        },
        control: ControlConfig {
            csv_dir: "/tmp/day_ahead_price".to_string(),
            price_threshold_eur_mwh: Decimal { negative: false, magnitude: 800, scale: 1 },
            limit_power_watts: 500,
            poll_interval_secs: default_poll_interval(),
        },
    }
}

#[test]
fn defaults() {
    assert_eq!(default_port(), 18443);
    assert_eq!(default_poll_interval(), 60);
}

#[test]
fn valid_config_passes() {
    assert_eq!(config().validate(), Ok(()));
}

#[test]
fn each_rule_is_checked() {
    let mut c = config();
    c.inverter.host = String::new();
    assert_eq!(c.validate(), Err(ConfigError::EmptyHost));

    let mut c = config();
    c.inverter.max_power_watts = 0;
    assert_eq!(c.validate(), Err(ConfigError::ZeroMaxPower));

    let mut c = config();
    c.control.limit_power_watts = 0;
    assert_eq!(c.validate(), Err(ConfigError::ZeroLimitPower));

    let mut c = config();
    c.control.limit_power_watts = 180000;
    assert_eq!(c.validate(), Err(ConfigError::LimitNotBelowMax { limit: 180000, max: 180000 }));

    let mut c = config();
    c.control.price_threshold_eur_mwh = Decimal { negative: false, magnitude: 0, scale: 3 };
    assert_eq!(c.validate(), Err(ConfigError::NonPositiveThreshold));

    let mut c = config();
    c.control.price_threshold_eur_mwh = Decimal { negative: true, magnitude: 5, scale: 0 };
    assert_eq!(c.validate(), Err(ConfigError::NonPositiveThreshold));

    let mut c = config();
    c.control.poll_interval_secs = 0;
    assert_eq!(c.validate(), Err(ConfigError::ZeroPollInterval));
}

#[test]
fn rules_checked_in_order() {
    let mut c = config();
    c.inverter.host = String::new();
    c.inverter.max_power_watts = 0;
    c.control.poll_interval_secs = 0;
    assert_eq!(c.validate(), Err(ConfigError::EmptyHost));
    let mut c = config();
    c.control.limit_power_watts = 0;
    c.inverter.max_power_watts = 0;
    assert_eq!(c.validate(), Err(ConfigError::ZeroMaxPower));
}

#[test]
fn base_url() {
    assert_eq!(config().inverter_base_url(), "https://192.168.1.100:18443");
    let mut c = config();
    c.inverter.port = 0;
    c.inverter.host = "inverter.local".to_string();
    assert_eq!(c.inverter_base_url(), "https://inverter.local:0");
    c.inverter.port = 65535;
    assert_eq!(c.inverter_base_url(), "https://inverter.local:65535");
}

#[test]
fn csv_path_for_a_date() {
    let c = config();
    assert_eq!(
        c.control.csv_path_for_date("2024-05-01"),
        "/tmp/day_ahead_price/dam_data_2024-05-01.csv"
    );
    let mut c = config();
    c.control.csv_dir = "/data/".to_string();
    assert_eq!(c.control.csv_path_for_date("2024-12-31"), "/data/dam_data_2024-12-31.csv");
    c.control.csv_dir = String::new();
    assert_eq!(c.control.csv_path_for_date("2024-12-31"), "dam_data_2024-12-31.csv");
    c.control.csv_dir = "prices".to_string();
    assert_eq!(c.control.csv_path_for_date("2025-01-02"), "prices/dam_data_2025-01-02.csv");
}

#[test]
fn csv_path_for_today_has_the_date_shape() {
    let c = config();
    let p = c.control.csv_path_for_today();
    let prefix = "/tmp/day_ahead_price/dam_data_";
    assert!(p.starts_with(prefix), "{}", p);
    assert!(p.ends_with(".csv"), "{}", p);
    let date = &p[prefix.len()..p.len() - 4];
    assert_eq!(date.len(), 10, "{}", p);
    let b = date.as_bytes();
    assert_eq!(b[4], b'-');
    assert_eq!(b[7], b'-');
    assert!(date.chars().filter(|c| *c != '-').all(|c| c.is_ascii_digit()));
}
