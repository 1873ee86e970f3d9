//! The prompt configuration: the optional sections and the prompt formats.

use vstd::prelude::*;
use crate::text::{chars_of, eq_chars, string_from};

verus! {

broadcast use vstd::string::group_string_axioms;

/// The whole configuration.
pub struct Config {
    pub time: Option<TimeConfig>,
    pub hostname: Option<HostnameConfig>,
    pub cwd: Option<CwdConfig>,
    pub git: Option<GitConfig>,
    pub ip: Option<IpConfig>,
    pub battery: Option<BatteryConfig>,
    pub prompt: PromptConfig,
}

/// The `[time]` section.
pub struct TimeConfig {
    pub name: Option<String>,
    pub format: String,
}

/// The `[hostname]` section.
pub struct HostnameConfig {
    pub name: Option<String>,
}

/// The `[cwd]` section.
pub struct CwdConfig {
    pub name: Option<String>,
}

/// The `[git]` section.
pub struct GitConfig {
    pub name: Option<String>,
}

/// The `[ip]` section.
pub struct IpConfig {
    pub name: Option<String>,
    pub interface: Option<String>,
    pub prefer_ipv6: bool,
}

/// The `[battery]` section.
pub struct BatteryConfig {
    pub name: Option<String>,
}

/// The `[prompt]` section: the default format, the optional formats for wide and narrow
/// terminals, and the width from which a terminal counts as wide.
pub struct PromptConfig {
    pub format: String,
    pub format_wide: Option<String>,
    pub format_narrow: Option<String>,
    pub width_threshold: u16,
}

/// The defaults that a provider gives a section it needs but the configuration lacks.
#[derive(Debug, Clone)]
pub enum SectionDefaults {
    /// No settings (`{}`).
    Empty,
    /// A time format (`{ "format": ... }`).
    TimeFormat(String),
    /// The IP preference (`{ "prefer_ipv6": ... }`).
    PreferIpv6(bool),
}

/// The default time format.
pub fn default_time_format() -> (s: String)
    ensures
        s@ == "%H:%M:%S"@,
{
    string_from(&chars_of("%H:%M:%S"))
}

/// The default width from which a terminal counts as wide.
pub fn default_width_threshold() -> (w: u16)
    ensures
        w == 100,
{
    100
}

/// The section names that a configuration knows.
pub open spec fn known_section(s: Seq<char>) -> bool {
    s == "time"@ || s == "hostname"@ || s == "cwd"@ || s == "git"@ || s == "ip"@ || s == "battery"@
}

impl PromptConfig {
    /// The format for a terminal width: the narrow one below the threshold and the wide one
    /// at or above it, where configured; otherwise, and where the width is unknown, the
    /// default.
    pub open spec fn format_for(&self, terminal_width: Option<u16>) -> Seq<char> {
        match terminal_width {
            Some(w) => if w < self.width_threshold && self.format_narrow is Some {
                self.format_narrow->0@
            } else if w >= self.width_threshold && self.format_wide is Some {
                self.format_wide->0@
            } else {
                self.format@
            },
            None => self.format@,
        }
    }

    /// The format string to use for the given terminal width.
    pub fn get_format(&self, terminal_width: Option<u16>) -> (s: &str)
        ensures
            s@ == self.format_for(terminal_width),
    {
        if let Some(width) = terminal_width {
            if width < self.width_threshold {
                if let Some(narrow) = &self.format_narrow {
                    return narrow.as_str();
                }
            }
            if width >= self.width_threshold {
                if let Some(wide) = &self.format_wide {
                    return wide.as_str();
                }
            }
        }
        self.format.as_str()
    }
}

fn is_word(s: &str, lit: &str) -> (b: bool)
    ensures
        b == (s@ == lit@),
{
    eq_chars(&chars_of(s), &chars_of(lit))
}

impl Config {
    /// Whether the named section is present.
    pub open spec fn section_present(&self, section: Seq<char>) -> bool {
        if section == "time"@ {
            self.time is Some
        } else if section == "hostname"@ {
            self.hostname is Some
        } else if section == "cwd"@ {
            self.cwd is Some
        } else if section == "git"@ {
            self.git is Some
        } else if section == "ip"@ {
            self.ip is Some
        } else if section == "battery"@ {
            self.battery is Some
        } else {
            false
        }
    }

    /// Whether the configuration has the named section (unknown names: no).
    pub fn has_section(&self, section: &str) -> (b: bool)
        ensures
            b == self.section_present(section@),
    {
        if is_word(section, "time") {
            self.time.is_some()
        } else if is_word(section, "hostname") {
            self.hostname.is_some()
        } else if is_word(section, "cwd") {
            self.cwd.is_some()
        } else if is_word(section, "git") {
            self.git.is_some()
        } else if is_word(section, "ip") {
            self.ip.is_some()
        } else if is_word(section, "battery") {
            self.battery.is_some()
        } else {
            false
        }
    }

    /// Sets the named section to its implicit default: time with `%H:%M:%S`, ip without an
    /// interface and without IPv6 preference, the others without a name. An unknown name
    /// changes nothing. The defaults value is not read.
    pub fn add_implicit_section(&mut self, section: String, value: SectionDefaults)
        ensures
            section@ == "time"@ ==> (final(self).time matches Some(t) && t.name is None
                && t.format@ == "%H:%M:%S"@),
            section@ == "hostname"@ ==> (final(self).hostname matches Some(h) && h.name is None),
            section@ == "cwd"@ ==> (final(self).cwd matches Some(c) && c.name is None),
            section@ == "git"@ ==> (final(self).git matches Some(g) && g.name is None),
            section@ == "ip"@ ==> (final(self).ip matches Some(i) && i.name is None
                && i.interface is None && !i.prefer_ipv6),
            section@ == "battery"@ ==> (final(self).battery matches Some(b) && b.name is None),
            section@ != "time"@ ==> final(self).time == old(self).time,
            section@ != "hostname"@ ==> final(self).hostname == old(self).hostname,
            section@ != "cwd"@ ==> final(self).cwd == old(self).cwd,
            section@ != "git"@ ==> final(self).git == old(self).git,
            section@ != "ip"@ ==> final(self).ip == old(self).ip,
            section@ != "battery"@ ==> final(self).battery == old(self).battery,
            final(self).prompt == old(self).prompt,
            known_section(section@) ==> final(self).section_present(section@),
    {
        proof {
            reveal_strlit("time");
            reveal_strlit("hostname");
            reveal_strlit("cwd");
            reveal_strlit("git");
            reveal_strlit("ip");
            reveal_strlit("battery");
            assert("hostname"@.len() == 8);
            assert("time"@.len() == 4);
            assert("cwd"@.len() == 3);
            assert("git"@.len() == 3);
            assert("ip"@.len() == 2);
            assert("battery"@.len() == 7);
            assert("cwd"@[0] != "git"@[0]);
        }
        let s = section.as_str();
        if is_word(s, "time") {
            self.time = Some(TimeConfig { name: None, format: default_time_format() });
        } else if is_word(s, "hostname") {
            self.hostname = Some(HostnameConfig { name: None });
        } else if is_word(s, "cwd") {
            self.cwd = Some(CwdConfig { name: None });
        } else if is_word(s, "git") {
            self.git = Some(GitConfig { name: None });
        } else if is_word(s, "ip") {
            self.ip = Some(IpConfig { name: None, interface: None, prefer_ipv6: false });
        } else if is_word(s, "battery") {
            self.battery = Some(BatteryConfig { name: None });
        }
    }
}

} // verus!
