//! The host section: the host name and the local address.

use vstd::prelude::*;
use crate::text::{chars_of, contains, contains_exec, extend, string_from};
use crate::system::{io_error_text, lookup_hostname};

verus! {

broadcast use vstd::string::group_string_axioms;

/// `std::string::FromUtf8Error`, carried through opaquely.
#[verifier::external_type_specification]
#[verifier::external_body]
pub struct ExFromUtf8Error(std::string::FromUtf8Error);

/// `FromUtf8Error`'s `Display` text. Nothing is stated of it: the error is opaque here.
#[verifier::external_body]
fn utf8_error_text(e: &std::string::FromUtf8Error) -> (s: String) {
    e.to_string()
}

/// The host name or the address could not be had.
#[derive(Debug)]
pub enum HostError {
    HostnameLookup(std::io::Error),
    HostnameInvalid(std::string::FromUtf8Error),
    IpLookup(String),
}

impl HostError {
    /// The message of the error: a prefix for its kind, then the cause.
    pub fn to_string(&self) -> (s: String)
        ensures
            (match self {
                HostError::HostnameLookup(_) => exists|m: Seq<char>| s@ == "Failed to get hostname: "@ + m,
                HostError::HostnameInvalid(_) => exists|m: Seq<char>| s@ == "Invalid hostname: "@ + m,
                HostError::IpLookup(e) => s@ == "Failed to get IP address: "@ + e@,
            }),
    {
        match self {
            HostError::HostnameLookup(e) => {
                let mut v = chars_of("Failed to get hostname: ");
                extend(&mut v, &chars_of(io_error_text(e).as_str()));
                string_from(&v)
            },
            HostError::HostnameInvalid(e) => {
                let mut v = chars_of("Invalid hostname: ");
                extend(&mut v, &chars_of(utf8_error_text(e).as_str()));
                string_from(&v)
            },
            HostError::IpLookup(e) => {
                let mut v = chars_of("Failed to get IP address: ");
                extend(&mut v, &chars_of(e.as_str()));
                string_from(&v)
            },
        }
    }
}

/// The host name part of a `[host]` section (no settings yet).
pub struct HostnameConfig {}

/// The address part of a `[host]` section (no settings yet).
pub struct IpConfig {}

/// The `[host]` section.
pub struct HostConfig {
    pub hostname: HostnameConfig,
    pub ip: IpConfig,
}

impl Default for HostConfig {
    fn default() -> (c: Self) {
        HostConfig { hostname: HostnameConfig {}, ip: IpConfig {} }
    }
}


/// `local_ip_address::local_ip()`: the machine's local address written as text, or the
/// error's text. The address depends on the machine and its network, so nothing is stated
/// of it.
#[verifier::external_body]
fn local_ip_text() -> (r: Result<String, String>) {
    match local_ip_address::local_ip() {
        Ok(ip) => Ok(ip.to_string()),
        Err(e) => Err(e.to_string()),
    }
}

/// The host name and the local address, each where the template asked for it. The address
/// is kept as its text.
pub struct HostInfo {
    pub hostname: Option<String>,
    pub ip: Option<String>,
}

/// Looks up what a template asks for: the host name where it holds `{hostname}`, the local
/// address where it holds `{ip}`; the first lookup that fails gives the error. The values
/// depend on the machine and are not stated.
pub fn get_host_info(template: &str) -> (r: Result<HostInfo, HostError>)
    ensures
        match r {
            Ok(info) => (info.hostname is Some <==> contains(template@, "{hostname}"@)) && (info.ip is Some
                <==> contains(template@, "{ip}"@)),
            Err(HostError::HostnameLookup(_)) => contains(template@, "{hostname}"@),
            Err(HostError::IpLookup(_)) => contains(template@, "{ip}"@),
            Err(HostError::HostnameInvalid(_)) => false,
        },
{
    let t = chars_of(template);
    let hostname = if contains_exec(&t, &chars_of("{hostname}")) {
        match lookup_hostname() {
            Ok(name) => Some(name),
            Err(e) => {
                return Err(HostError::HostnameLookup(e));
            },
        }
    } else {
        None
    };
    let ip = if contains_exec(&t, &chars_of("{ip}")) {
        match local_ip_text() {
            Ok(addr) => Some(addr),
            Err(e) => {
                return Err(HostError::IpLookup(e));
            },
        }
    } else {
        None
    };
    Ok(HostInfo { hostname, ip })
}

} // verus!
