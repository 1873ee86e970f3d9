//! Cached values with the time they were cached.

use vstd::prelude::*;
use crate::text::joined;
use crate::system::{io_error_text, json_error_text};
use std::time::{Duration, SystemTime};

verus! {

broadcast use vstd::string::group_string_axioms;

/// `std::time::SystemTime`, carried through opaquely.
#[verifier::external_type_specification]
#[verifier::external_body]
pub struct ExSystemTime(std::time::SystemTime);

/// `SystemTime::now()`. The clock's reading is not stated.
#[verifier::external_body]
fn system_time_now() -> (t: SystemTime) {
    SystemTime::now()
}

/// `SystemTime::now().duration_since(since)`, with the error's text where the clock is
/// before `since`. The clock's reading is not stated.
#[verifier::external_body]
fn time_since(since: &SystemTime) -> (r: Result<Duration, String>) {
    match SystemTime::now().duration_since(*since) {
        Ok(d) => Ok(d),
        Err(e) => Err(e.to_string()),
    }
}

/// `duration.as_secs()`: the whole seconds of a duration. The duration is opaque here, so
/// nothing is stated of the number.
#[verifier::external_body]
fn whole_seconds(duration: &Duration) -> (s: u64) {
    duration.as_secs()
}

/// The cache could not be read, written or dated.
#[derive(Debug)]
pub enum CacheError {
    IoError(std::io::Error),
    SerdeError(serde_json::Error),
    DirectoryError(String),
    TimeError(String),
}

impl CacheError {
    /// The message of the error: a prefix for its kind, then the cause.
    pub fn to_string(&self) -> (s: String)
        ensures
            (match self {
                CacheError::IoError(_) => exists|m: Seq<char>| s@ == "IO error: "@ + m,
                CacheError::SerdeError(_) => exists|m: Seq<char>| s@ == "Serialization error: "@ + m,
                CacheError::DirectoryError(e) => s@ == "Directory error: "@ + e@,
                CacheError::TimeError(e) => s@ == "Time error: "@ + e@,
            }),
    {
        match self {
            CacheError::IoError(e) => joined("IO error: ", io_error_text(e).as_str()),
            CacheError::SerdeError(e) => joined("Serialization error: ", json_error_text(e).as_str()),
            CacheError::DirectoryError(e) => joined("Directory error: ", e.as_str()),
            CacheError::TimeError(e) => joined("Time error: ", e.as_str()),
        }
    }
}

/// A cached value and when it was cached.
pub struct CacheEntry<T: Clone> {
    pub data: T,
    pub cached_at: SystemTime,
}

impl<T: Clone> CacheEntry<T> {
    /// The value, cached now.
    pub fn new(data: T) -> (e: Self)
        ensures
            e.data == data,
    {
        CacheEntry { data, cached_at: system_time_now() }
    }

    /// How long ago the value was cached; an error where the clock is now before that.
    pub fn age(&self) -> (r: Result<Duration, CacheError>)
        ensures
            r matches Err(e) ==> e matches CacheError::TimeError(m) && exists|c: Seq<char>| m@
                == "Time went backwards: "@ + c,
    {
        match time_since(&self.cached_at) {
            Ok(d) => Ok(d),
            Err(m) => Err(CacheError::TimeError(joined("Time went backwards: ", m.as_str()))),
        }
    }

    /// The value where it was cached less than `cache_duration` seconds ago (`None` where
    /// it is older, or where the clock is now before the caching time; see `within_limit`).
    /// The age depends on the clock, so which of the two comes back is not stated.
    pub fn fresh_data(&self, cache_duration: u64) -> (r: Option<&T>)
        ensures
            r matches Some(d) ==> d == &self.data,
    {
        let age = match self.age() {
            Ok(age) => Some(whole_seconds(&age)),
            Err(_) => None,
        };
        if within_limit(age, cache_duration) {
            Some(&self.data)
        } else {
            None
        }
    }
}

/// Whether an entry of the given age (whole seconds; `None` where the clock is before the
/// caching time) is still fresh: younger than `cache_duration` seconds. A duration is
/// below a whole number of seconds exactly when its whole seconds are.
pub fn within_limit(age_secs: Option<u64>, cache_duration: u64) -> (b: bool)
    ensures
        b == (age_secs matches Some(a) && a < cache_duration),
{
    match age_secs {
        Some(a) => a < cache_duration,
        None => false,
    }
}

} // verus!
