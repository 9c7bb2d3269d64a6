//! Automatic power limiter for an SMA inverter: verified core logic.
//!
//! The library parses the daily spot-price CSV, validates the configuration,
//! decides the desired power limit for the current quarter hour, interprets the
//! inverter's WebConnect replies and drives one control run as a state machine.
//! All network, file and clock access happens in the application around it.

pub mod text;
pub mod decimal;
pub mod clock;
pub mod csv_parser;
pub mod config;
pub mod json;
pub mod inverter;
pub mod controller;
pub mod daemon;
pub mod cli;
