//! The IP provider: the address of the configured network interface, or of the first one
//! that is neither loopback nor IPv6 link-local.

use vstd::prelude::*;
use super::{Provider, ProviderError, ProviderResult, defaults_views};
use crate::config::{Config, SectionDefaults};
use crate::text::{chars_of, string_from, str_views, eq_chars, owned};
use crate::vars::Vars;

verus! {

broadcast use vstd::string::group_string_axioms;

/// The provider of `ip_interface`, `ip_address` and `ip_version`.
pub struct IpProvider;

/// The address of an interface, as text, with the first 16-bit group of an IPv6 one.
pub enum IfAddress {
    V4 { text: String },
    V6 { text: String, first_segment: u16 },
}

/// A network interface as the system lists it.
pub struct Interface {
    pub name: String,
    pub is_loopback: bool,
    pub addr: IfAddress,
}

/// An interface worth showing: not loopback, and not an IPv6 link-local one (`fe80::/16`).
pub open spec fn shown(i: Interface) -> bool {
    !i.is_loopback && !(i.addr matches IfAddress::V6 { first_segment, .. } && first_segment == 0xfe80)
}

/// The interfaces worth showing, in order.
pub open spec fn shown_interfaces(s: Seq<Interface>) -> Seq<Interface>
    decreases s.len(),
{
    if s.len() == 0 {
        Seq::empty()
    } else {
        shown_interfaces(s.drop_last()) + (if shown(s.last()) {
            seq![s.last()]
        } else {
            Seq::empty()
        })
    }
}

/// The first interface with the given name.
pub open spec fn first_named(s: Seq<Interface>, name: Seq<char>) -> Option<Interface>
    decreases s.len(),
{
    if s.len() == 0 {
        None
    } else if s[0].name@ == name {
        Some(s[0])
    } else {
        first_named(s.drop_first(), name)
    }
}

/// The interface to show: the named one where a name is configured, else the first.
pub open spec fn selected(s: Seq<Interface>, name: Option<Seq<char>>) -> Option<Interface> {
    match name {
        Some(n) => first_named(s, n),
        None => if s.len() > 0 {
            Some(s[0])
        } else {
            None
        },
    }
}

/// The text of an address and its IP version (4 or 6).
pub open spec fn address_of(a: IfAddress) -> (Seq<char>, u8) {
    match a {
        IfAddress::V4 { text } => (text@, 4),
        IfAddress::V6 { text, .. } => (text@, 6),
    }
}

/// The interface name configured in the `[ip]` section.
pub open spec fn configured_interface(config: Config) -> Option<Seq<char>> {
    match config.ip {
        Some(c) => match c.interface {
            Some(i) => Some(i@),
            None => None,
        },
        None => None,
    }
}

/// The IP variables for the listed interfaces: name, address and version of the selected
/// one, or none.
pub open spec fn ip_entries(interfaces: Seq<Interface>, config: Config) -> Seq<(Seq<char>, Seq<char>)> {
    match selected(shown_interfaces(interfaces), configured_interface(config)) {
        Some(i) => seq![
            ("ip_interface"@, i.name@),
            ("ip_address"@, address_of(i.addr).0),
            ("ip_version"@, if address_of(i.addr).1 == 4 {
                "4"@
            } else {
                "6"@
            }),
        ],
        None => Seq::empty(),
    }
}

impl IpProvider {
    pub fn new() -> (p: Self) {
        IpProvider
    }

    /// The interfaces worth showing: loopback and IPv6 link-local ones left out.
    pub fn filter_interfaces(&self, interfaces: Vec<Interface>) -> (v: Vec<Interface>)
        ensures
            v@ == shown_interfaces(interfaces@),
    {
        let ghost all = interfaces@;
        let mut rest = interfaces;
        let mut out: Vec<Interface> = Vec::new();
        let mut k: usize = 0;
        assert(all.len() == rest.len());
        while rest.len() > 0
            invariant
                k + rest@.len() == all.len(),
                all.len() <= usize::MAX,
                rest@ == all.skip(k as int),
                out@ == shown_interfaces(all.take(k as int)),
            decreases rest@.len(),
        {
            let i = rest.remove(0);
            proof {
                assert(all.take(k + 1 as int).drop_last() =~= all.take(k as int));
                assert(all.take(k + 1 as int).last() == all[k as int]);
                assert(rest@ =~= all.skip(k + 1 as int));
            }
            let keep = !i.is_loopback && match &i.addr {
                IfAddress::V6 { first_segment, .. } => *first_segment != 0xfe80,
                IfAddress::V4 { .. } => true,
            };
            let ghost before = out@;
            if keep {
                out.push(i);
                assert(out@ =~= before + seq![all[k as int]]);
            } else {
                assert(out@ =~= before + Seq::<Interface>::empty());
            }
            k = k + 1;
        }
        assert(all.take(k as int) =~= all);
        out
    }

    /// The configured interface where one is named (`None` where it is not listed), else
    /// the first one.
    pub fn select_interface(&self, interfaces: Vec<Interface>, config_interface: Option<&str>) -> (r: Option<Interface>)
        ensures
            r == selected(interfaces@, match config_interface {
                Some(n) => Some(n@),
                None => None,
            }),
    {
        let ghost all = interfaces@;
        let mut rest = interfaces;
        match config_interface {
            Some(name) => {
                let want = chars_of(name);
                let mut k: usize = 0;
                assert(all.len() == rest.len());
                assert(all.skip(0) =~= all);
                while rest.len() > 0
                    invariant
                        rest@ == all.skip(k as int),
                        k + rest@.len() == all.len(),
                        all.len() <= usize::MAX,
                        config_interface == Some(name),
                        all == interfaces@,
                        want@ == name@,
                        first_named(all, name@) == first_named(all.skip(k as int), name@),
                    decreases rest@.len(),
                {
                    let i = rest.remove(0);
                    proof {
                        assert(all.skip(k as int).drop_first() =~= all.skip(k + 1 as int));
                        assert(all.skip(k as int)[0] == i);
                    }
                    if eq_chars(&chars_of(i.name.as_str()), &want) {
                        assert(first_named(all.skip(k as int), name@) == Some(i));
                        return Some(i);
                    }
                    k = k + 1;
                }
                None
            },
            None => {
                if rest.len() > 0 {
                    Some(rest.remove(0))
                } else {
                    None
                }
            },
        }
    }

    /// The text and IP version of an interface's address.
    pub fn get_ip_address(&self, interface: &Interface) -> (r: (String, u8))
        ensures
            r.0@ == address_of(interface.addr).0,
            r.1 == address_of(interface.addr).1,
    {
        match &interface.addr {
            IfAddress::V4 { text } => (owned(text.as_str()), 4),
            IfAddress::V6 { text, .. } => (owned(text.as_str()), 6),
        }
    }

    /// The IP variables from the system's interfaces, or from the error listing them: that
    /// error is `ResourceNotAvailable` when validating and no variables otherwise.
    pub fn collect(&self, config: &Config, interfaces: Result<Vec<Interface>, String>, validate: bool) -> (r: ProviderResult<Vars>)
        ensures
            match interfaces {
                Ok(list) => r matches Ok(v) && v@ == ip_entries(list@, *config),
                Err(_) => if validate {
                    r matches Err(ProviderError::ResourceNotAvailable(m)) && m@ == "Failed to get network interfaces"@
                } else {
                    r matches Ok(v) && v@ == Seq::<(Seq<char>, Seq<char>)>::empty()
                },
            },
    {
        let mut vars = Vars::new();
        let list = match interfaces {
            Ok(l) => l,
            Err(_) => {
                if validate {
                    return Err(ProviderError::ResourceNotAvailable(owned("Failed to get network interfaces")));
                } else {
                    return Ok(vars);
                }
            },
        };
        let name: Option<&str> = match &config.ip {
            Some(c) => match &c.interface {
                Some(i) => Some(i.as_str()),
                None => None,
            },
            None => None,
        };
        let filtered = self.filter_interfaces(list);
        match self.select_interface(filtered, name) {
            Some(iface) => {
                let (addr, version) = self.get_ip_address(&iface);
                vars.insert(owned("ip_interface"), owned(iface.name.as_str()));
                vars.insert(owned("ip_address"), addr);
                vars.insert(owned("ip_version"), if version == 4 {
                    owned("4")
                } else {
                    owned("6")
                });
            },
            None => {},
        }
        Ok(vars)
    }
}

impl Provider for IpProvider {
    open spec fn name_spec(&self) -> Seq<char> {
        "ip"@
    }

    open spec fn sections_spec(&self) -> Seq<Seq<char>> {
        seq!["ip"@]
    }

    open spec fn defaults_spec(&self) -> Seq<(Seq<char>, (nat, Seq<char>, bool))> {
        seq![("ip"@, (2, Seq::empty(), false))]
    }

    open spec fn cacheable_spec(&self) -> bool {
        true
    }

    open spec fn cache_duration_spec(&self) -> u64 {
        30
    }

    fn name(&self) -> (s: &str) {
        "ip"
    }

    fn sections(&self) -> (v: Vec<&str>) {
        let v = vec!["ip"];
        assert(str_views(v@) =~= self.sections_spec());
        v
    }

    fn default_config(&self) -> (d: Vec<(String, SectionDefaults)>) {
        let d = vec![(owned("ip"), SectionDefaults::PreferIpv6(false))];
        assert(defaults_views(d@) =~= self.defaults_spec());
        d
    }

    fn cacheable(&self) -> (b: bool) {
        true
    }

    fn cache_duration(&self) -> (d: u64) {
        30
    }
}

} // verus!
