//! The scanning engine: issues, metrics, tests, configuration and the
//! decisions of a run.

pub mod context;
pub mod issue;
pub mod json;
pub mod metrics;
pub mod blacklist;
pub mod registry;
pub mod docs_utils;
pub mod utils;
pub mod discover;
pub mod config;
pub mod config_debug;
pub mod plugin_config;
pub mod test_set;
pub mod nosec;
pub mod tester;
pub mod scan;
pub mod manager;
