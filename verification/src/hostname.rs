//! The host name section.

use vstd::prelude::*;
use crate::text::{chars_of, extend, string_from};
use crate::system::{lookup_hostname, io_error_text};

verus! {

broadcast use vstd::string::group_string_axioms;

/// The host name could not be read.
#[derive(Debug)]
pub enum HostnameError {
    Lookup(std::io::Error),
}

impl HostnameError {
    /// The message of the error: `Failed to get hostname: ` and the system's message.
    pub fn to_string(&self) -> (s: String)
        ensures
            exists|m: Seq<char>| s@ == "Failed to get hostname: "@ + m,
    {
        match self {
            HostnameError::Lookup(e) => {
                let mut v = chars_of("Failed to get hostname: ");
                let m = io_error_text(e);
                extend(&mut v, &chars_of(m.as_str()));
                string_from(&v)
            },
        }
    }
}

/// The `[[hostname]]` section: a variable name, and whether it is read in the background.
pub struct Config {
    pub name: Option<String>,
    pub deferred: bool,
}

impl Default for Config {
    fn default() -> (c: Self)
        ensures
            c.name is None,
            !c.deferred,
    {
        Config { name: None, deferred: false }
    }
}

/// The host name of the machine (read lossily as UTF-8), or the error of the lookup.
pub fn get_hostname(config: &Config) -> (r: Result<String, HostnameError>) {
    match lookup_hostname() {
        Ok(name) => Ok(name),
        Err(e) => Err(HostnameError::Lookup(e)),
    }
}

} // verus!
