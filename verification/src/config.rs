//! Settings of the program, as the environment gives them.

use crate::number::{parse_unsigned, unsigned_value};
use vstd::prelude::*;

verus! {

/// The port that the webhook server listens on by default.
pub const DEFAULT_WEBHOOK_PORT: u16 = 8443;

/// How long a replica drains by default, in seconds.
pub const DEFAULT_DRAIN_SECONDS: u64 = 120;

/// How often expired aggregations are removed, in seconds.
pub const CACHE_CLEANUP_SECONDS: u64 = 60;

/// The contents of a setting.
pub open spec fn setting_view(setting: Option<&str>) -> Option<Seq<char>> {
    match setting {
        Some(text) => Some(text@),
        None => None,
    }
}

/// The port that the webhook server listens on: as it is set, else the default.
pub fn webhook_port(setting: Option<&str>) -> (r: u16)
    ensures
        r == (match setting_view(setting) {
            Some(text) => match unsigned_value(text, u16::MAX as nat) {
                Some(port) => port,
                None => DEFAULT_WEBHOOK_PORT as nat,
            },
            None => DEFAULT_WEBHOOK_PORT as nat,
        }),
{
    match setting {
        Some(text) => match parse_unsigned(text, u16::MAX as u64) {
            Some(port) => port as u16,
            None => DEFAULT_WEBHOOK_PORT,
        },
        None => DEFAULT_WEBHOOK_PORT,
    }
}

/// How long a replica drains, in seconds: as it is set, else the default. A setting
/// that is no such number is an error.
pub fn drain_seconds(setting: Option<&str>) -> (r: Result<u64, String>)
    ensures
        match setting_view(setting) {
            Some(text) => match unsigned_value(text, u64::MAX as nat) {
                Some(n) => r matches Ok(seconds) && seconds == n,
                None => r matches Err(m) && m@ == "DRAIN_DURATION must be a non-negative integer"@,
            },
            None => r matches Ok(seconds) && seconds == DEFAULT_DRAIN_SECONDS,
        },
{
    match setting {
        Some(text) => match parse_unsigned(text, u64::MAX) {
            Some(seconds) => Ok(seconds),
            None => Err("DRAIN_DURATION must be a non-negative integer".to_owned()),
        },
        None => Ok(DEFAULT_DRAIN_SECONDS),
    }
}

} // verus!
