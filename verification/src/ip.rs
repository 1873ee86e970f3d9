//! The IP section: the address of a named interface, or the default local address.

use vstd::prelude::*;
use crate::text::{chars_of, extend, string_from, eq_chars};

verus! {

broadcast use vstd::string::group_string_axioms;

/// The address could not be had.
#[derive(Debug)]
pub enum IpConfigError {
    Lookup(String),
    InterfaceNotFound(String),
}

impl IpConfigError {
    /// The message of the error.
    pub fn to_string(&self) -> (s: String)
        ensures
            (match self {
                IpConfigError::Lookup(e) => s@ == "Failed to get IP address: "@ + e@,
                IpConfigError::InterfaceNotFound(i) => s@ == "Interface not found: "@ + i@,
            }),
    {
        let (prefix, rest) = match self {
            IpConfigError::Lookup(e) => ("Failed to get IP address: ", e),
            IpConfigError::InterfaceNotFound(i) => ("Interface not found: ", i),
        };
        let mut v = chars_of(prefix);
        extend(&mut v, &chars_of(rest.as_str()));
        string_from(&v)
    }
}

/// An `[[ip]]` section: a variable name and the interface to show.
pub struct Config {
    pub name: Option<String>,
    pub interface: Option<String>,
}

impl Default for Config {
    fn default() -> (c: Self)
        ensures
            c.name is None,
            c.interface is None,
    {
        Config { name: None, interface: None }
    }
}

/// The address of the first listed interface with the given name.
pub open spec fn address_of_interface(list: Seq<(String, String)>, name: Seq<char>) -> Option<Seq<char>>
    decreases list.len(),
{
    if list.len() == 0 {
        None
    } else if list[0].0@ == name {
        Some(list[0].1@)
    } else {
        address_of_interface(list.drop_first(), name)
    }
}

/// The address of the named interface among `(name, address)` pairs as the system lists
/// them, or `InterfaceNotFound` with that name.
pub fn find_interface_address(interfaces: &Vec<(String, String)>, name: &str) -> (r: Result<String, IpConfigError>)
    ensures
        match address_of_interface(interfaces@, name@) {
            Some(a) => r matches Ok(s) && s@ == a,
            None => r matches Err(IpConfigError::InterfaceNotFound(n)) && n@ == name@,
        },
{
    let want = chars_of(name);
    let mut k: usize = 0;
    assert(interfaces@.skip(0) =~= interfaces@);
    while k < interfaces.len()
        invariant
            k <= interfaces@.len(),
            want@ == name@,
            address_of_interface(interfaces@, name@) == address_of_interface(interfaces@.skip(k as int), name@),
        decreases interfaces@.len() - k,
    {
        proof {
            assert(interfaces@.skip(k as int)[0] == interfaces@[k as int]);
            assert(interfaces@.skip(k as int).drop_first() =~= interfaces@.skip(k + 1 as int));
        }
        if eq_chars(&chars_of(interfaces[k].0.as_str()), &want) {
            return Ok(string_from(&chars_of(interfaces[k].1.as_str())));
        }
        k = k + 1;
    }
    Err(IpConfigError::InterfaceNotFound(string_from(&want)))
}

} // verus!
