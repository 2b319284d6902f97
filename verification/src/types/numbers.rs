//! Types for temporary SMS numbers (`numbers` API).
use vstd::prelude::*;

use crate::config::DEFAULT_COUNTRY;

verus! {

/// Result of ordering a number with `number=true`: the operation id and
/// the phone number.
#[derive(Debug, Clone, PartialEq)]
pub struct NumberWithTz {
    /// Operation id.
    pub tzid: i64,
    /// Phone number.
    pub number: String,
    /// Country code.
    pub country: i64,
    /// Remaining time when provided by API.
    pub time: Option<i64>,
    /// Service slug when provided.
    pub service: Option<String>,
    /// Service title when provided.
    pub title: Option<String>,
    /// Status text when provided.
    pub response_text: Option<String>,
    /// Guard interval seconds when provided.
    pub guard_interval_remaining_seconds: Option<i64>,
}

/// Options for waiting for an SMS code.
///
/// Concurrent waits on one client share a single batch `getState` poller.
#[derive(Debug, Clone, Copy)]
pub struct WaitCodeOptions {
    /// Poll interval in **seconds** (default: `3`).
    ///
    /// When several waits share a poller, the **minimum** interval wins.
    pub interval_secs: u64,
    /// Maximum number of poll attempts (default: `10`).
    pub max_attempts: u32,
    /// If true, call `next` instead of `close` when a code arrives.
    pub not_end: bool,
    /// If true, request full message text (`message_to_code = 0`).
    ///
    /// If any shared waiter sets this, the batch poll uses full messages.
    pub full_message: bool,
}

impl WaitCodeOptions {
    /// The defaults: every 3 seconds, at most 10 attempts, close the
    /// operation when the code arrives, code only.
    pub fn new_default() -> (r: Self)
        ensures
            r.interval_secs == 3,
            r.max_attempts == 10,
            !r.not_end,
            !r.full_message,
    {
        WaitCodeOptions { interval_secs: 3, max_attempts: 10, not_end: false, full_message: false }
    }
}

impl Default for WaitCodeOptions {
    fn default() -> (r: Self)
        ensures
            r.interval_secs == 3,
            r.max_attempts == 10,
            !r.not_end,
            !r.full_message,
    {
        WaitCodeOptions::new_default()
    }
}

/// Parameters for ordering a number.
#[derive(Debug, Clone)]
pub struct GetNumberParams<'a> {
    /// Service slug (required).
    pub service: &'a str,
    /// Country dial code (default [`DEFAULT_COUNTRY`]).
    pub country: i64,
    /// Rejected number ids.
    pub reject: &'a [i64],
    /// Request number extension capability.
    pub extension: bool,
}

impl<'a> GetNumberParams<'a> {
    /// Create params with defaults (`country` = [`DEFAULT_COUNTRY`], empty
    /// reject, `extension=false`).
    pub fn new(service: &'a str) -> (r: Self)
        ensures
            r.service == service,
            r.country == DEFAULT_COUNTRY,
            r.reject@.len() == 0,
            !r.extension,
    {
        let none: &'a [i64] = &[];
        GetNumberParams { service, country: DEFAULT_COUNTRY, reject: none, extension: false }
    }

    /// Set country.
    pub fn country(self, country: i64) -> (r: Self)
        ensures
            r == (GetNumberParams { country, ..self }),
    {
        GetNumberParams { country, ..self }
    }

    /// Set reject list.
    pub fn reject(self, reject: &'a [i64]) -> (r: Self)
        ensures
            r == (GetNumberParams { reject, ..self }),
    {
        GetNumberParams { reject, ..self }
    }

    /// Set extension flag.
    pub fn extension(self, extension: bool) -> (r: Self)
        ensures
            r == (GetNumberParams { extension, ..self }),
    {
        GetNumberParams { extension, ..self }
    }
}

} // verus!
