use sma_controller::cli::{parse_args, CliCommand, CliError};

fn args(v: &[&str]) -> Vec<String> {
    v.iter().map(|s| s.to_string()).collect()
}

#[test]
fn config_path_is_read() {
    assert_eq!(
        parse_args(&args(&["prog", "--config", "/etc/c.toml"])),
        Ok(CliCommand::Run { config_path: "/etc/c.toml".to_string() })
    );
    assert_eq!(
        parse_args(&args(&["prog", "-c", "a.toml"])),
        Ok(CliCommand::Run { config_path: "a.toml".to_string() })
    );
}

#[test]
fn later_config_wins() {
    assert_eq!(
        parse_args(&args(&["prog", "-c", "a", "--config", "b"])),
        Ok(CliCommand::Run { config_path: "b".to_string() })
    );
}

#[test]
fn help_stops_reading() {
    assert_eq!(parse_args(&args(&["prog", "--help"])), Ok(CliCommand::Help));
    assert_eq!(parse_args(&args(&["prog", "-c", "a", "-h", "--bogus"])), Ok(CliCommand::Help));
}

#[test]
fn errors() {
    assert_eq!(parse_args(&args(&["prog"])), Err(CliError::MissingConfig));
    assert_eq!(parse_args(&args(&[])), Err(CliError::MissingConfig));
    assert_eq!(parse_args(&args(&["prog", "--config"])), Err(CliError::MissingConfigValue));
    assert_eq!(
        parse_args(&args(&["prog", "--verbose", "--help"])),
        Err(CliError::UnknownArgument("--verbose".to_string()))
    );
    assert_eq!(
        parse_args(&args(&["prog", "-c", "x", "extra"])),
        Err(CliError::UnknownArgument("extra".to_string()))
    );
}
