//! The power section's configuration.

use vstd::prelude::*;
use crate::text::{chars_of, string_from, joined, owned};
use crate::system::{io_error_text, json_error_text};

verus! {

broadcast use vstd::string::group_string_axioms;

/// A `[[power]]` section: a variable name, the format of the battery text, and whether it
/// is read in the background.
pub struct Config {
    pub name: Option<String>,
    pub format: String,
    pub deferred: bool,
}

impl Default for Config {
    fn default() -> (c: Self)
        ensures
            c.name is None,
            c.format@ == "{percentage}% ({status})"@,
            !c.deferred,
    {
        Config { name: None, format: string_from(&chars_of("{percentage}% ({status})")), deferred: false }
    }
}


/// The battery could not be read.
#[derive(Debug)]
pub enum PowerError {
    IoError(std::io::Error),
    JsonError(serde_json::Error),
    NoBattery,
}

impl PowerError {
    /// The message of the error: a prefix for its kind, then the cause.
    pub fn to_string(&self) -> (s: String)
        ensures
            (match self {
                PowerError::IoError(_) => exists|m: Seq<char>| s@ == "IO error: "@ + m,
                PowerError::JsonError(_) => exists|m: Seq<char>| s@ == "JSON error: "@ + m,
                PowerError::NoBattery => s@ == "No battery found"@,
            }),
    {
        match self {
            PowerError::IoError(e) => joined("IO error: ", io_error_text(e).as_str()),
            PowerError::JsonError(e) => joined("JSON error: ", json_error_text(e).as_str()),
            PowerError::NoBattery => owned("No battery found"),
        }
    }
}

} // verus!
