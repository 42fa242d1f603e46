//! Daily check-in client for the ZW forum: configuration model, log-level
//! selection, cron-hour conversion to UTC, the b2_token cookie lookup and the
//! check-in state machine.

pub mod b2_token;
pub mod b2_token_by_headless_chrome;
pub mod clock;
pub mod config;
pub mod cron;
pub mod log;
pub mod sign;
pub mod text;

pub use cron::local_cron_to_utc;
