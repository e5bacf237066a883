//! The decisions of the command-line tools: `bandit`, `bandit-baseline`
//! and `bandit-config-generator`.

pub mod main;
pub mod baseline;
pub mod config_generator;
pub mod ini;
