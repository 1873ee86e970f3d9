//! The built-in provider: the time, the short host name and the working directory.

use vstd::prelude::*;
use super::{Provider, ProviderResult, defaults_views};
use crate::config::{Config, SectionDefaults, default_time_format};
use crate::text::{chars_of, string_from, str_views, before_first, before_first_exec};
use crate::vars::Vars;
use crate::system::{strftime_writes, strftime_valid, strftime_at, local_now, system_hostname, time_text_of, valid_parts, DateParts};

verus! {

broadcast use vstd::string::group_string_axioms;

/// The provider of the `[time]`, `[hostname]` and `[cwd]` sections.
pub struct BuiltinProvider;

/// A configured variable name, or the default one.
pub open spec fn name_or(name: Option<String>, default: Seq<char>) -> Seq<char> {
    match name {
        Some(n) => n@,
        None => default,
    }
}

/// The variables of the built-in sections present in `config`, in order: the time as
/// formatted, the host name up to its first `.`, and the working directory (`?` where it
/// could not be read).
pub open spec fn builtin_entries(config: Config, time_text: Seq<char>, host: Seq<char>, cwd: Option<Seq<char>>) -> Seq<(Seq<char>, Seq<char>)> {
    (match config.time {
        Some(t) => seq![(name_or(t.name, "time"@), time_text)],
        None => Seq::empty(),
    }) + (match config.hostname {
        Some(h) => seq![(name_or(h.name, "hostname"@), before_first(host, '.'))],
        None => Seq::empty(),
    }) + (match config.cwd {
        Some(c) => seq![(name_or(c.name, "cwd"@), match cwd {
            Some(d) => d,
            None => "?"@,
        })],
        None => Seq::empty(),
    })
}

/// chrono can write the time format of a configuration (or it has no time section).
pub open spec fn time_format_readable(config: Config) -> bool {
    config.time matches Some(t) ==> strftime_writes(t.format@)
}

/// The readings behind the built-in variables: the time text is what chrono writes in the
/// configured format for some valid local date and time (empty without a `[time]`
/// section), and the host text is empty without a `[hostname]` section. The host name
/// itself is the machine's and is not stated.
pub open spec fn readings_fit(config: Config, t: Seq<char>, h: Seq<char>) -> bool {
    &&& (config.time matches Some(c) ==> exists|p: DateParts| valid_parts(p) && t == #[trigger] time_text_of(c.format@, p))
    &&& (config.time is None ==> t.len() == 0)
    &&& (config.hostname is None ==> h.len() == 0)
}

/// The characters of an optional string.
pub open spec fn opt_view(s: Option<&str>) -> Option<Seq<char>> {
    match s {
        Some(d) => Some(d@),
        None => None,
    }
}

fn name_or_exec(name: &Option<String>, default: &str) -> (s: String)
    ensures
        s@ == name_or(*name, default@),
{
    match name {
        Some(n) => string_from(&chars_of(n.as_str())),
        None => string_from(&chars_of(default)),
    }
}

impl BuiltinProvider {
    pub fn new() -> (p: Self) {
        BuiltinProvider
    }

    /// The variables from the readings: the formatted time, the host name and the working
    /// directory (`None` where it could not be read).
    pub fn variables_from(&self, config: &Config, time_text: &str, host: &str, cwd: Option<&str>) -> (v: Vars)
        ensures
            v@ == builtin_entries(*config, time_text@, host@, opt_view(cwd)),
    {
        let mut vars = Vars::new();
        if let Some(t) = &config.time {
            vars.insert(name_or_exec(&t.name, "time"), string_from(&chars_of(time_text)));
        }
        if let Some(h) = &config.hostname {
            let short = string_from(&before_first_exec(&chars_of(host), '.'));
            vars.insert(name_or_exec(&h.name, "hostname"), short);
        }
        if let Some(c) = &config.cwd {
            let dir = match cwd {
                Some(d) => string_from(&chars_of(d)),
                None => string_from(&chars_of("?")),
            };
            vars.insert(name_or_exec(&c.name, "cwd"), dir);
        }
        vars
    }

    /// The variables of the built-in sections: the local time, the host name and the given
    /// working directory. The time and the host name are read here: the time is what chrono
    /// writes in the configured format for the local date and time (see `readings_fit`);
    /// the host name is the machine's.
    pub fn collect(&self, config: &Config, cwd: Option<&str>) -> (r: ProviderResult<Vars>)
        requires
            time_format_readable(*config),
        ensures
            r matches Ok(v) && exists|t: Seq<char>, h: Seq<char>| v@ == #[trigger] builtin_entries(*config, t, h, opt_view(cwd))
                && readings_fit(*config, t, h),
    {
        let time_text = match &config.time {
            Some(t) => {
                let now = local_now();
                let text = strftime_at(t.format.as_str(), now);
                assert(valid_parts(now) && text@ == time_text_of(t.format@, now));
                text
            },
            None => String::new(),
        };
        let host = match &config.hostname {
            Some(_) => system_hostname(),
            None => String::new(),
        };
        let v = self.variables_from(config, time_text.as_str(), host.as_str(), cwd);
        assert(readings_fit(*config, time_text@, host@));
        Ok(v)
    }

    /// As `collect`, where chrono writes the time format; `None` where it does not (where
    /// formatting the time would fail).
    pub fn collect_checked(&self, config: &Config, cwd: Option<&str>) -> (r: Option<ProviderResult<Vars>>)
        ensures
            r is None <==> !time_format_readable(*config),
            r matches Some(Ok(v)) ==> exists|t: Seq<char>, h: Seq<char>| v@ == #[trigger] builtin_entries(*config, t, h, opt_view(cwd))
                && readings_fit(*config, t, h),
            r matches Some(res) ==> res is Ok,
    {
        let readable = match &config.time {
            Some(t) => strftime_valid(t.format.as_str()),
            None => true,
        };
        if readable {
            Some(self.collect(config, cwd))
        } else {
            None
        }
    }
}

impl Provider for BuiltinProvider {
    open spec fn name_spec(&self) -> Seq<char> {
        "builtin"@
    }

    open spec fn sections_spec(&self) -> Seq<Seq<char>> {
        seq!["time"@, "hostname"@, "cwd"@]
    }

    open spec fn defaults_spec(&self) -> Seq<(Seq<char>, (nat, Seq<char>, bool))> {
        seq![("time"@, (1, "%H:%M:%S"@, false)), ("hostname"@, (0, Seq::empty(), false)), ("cwd"@, (0, Seq::empty(), false))]
    }

    open spec fn cacheable_spec(&self) -> bool {
        false
    }

    open spec fn cache_duration_spec(&self) -> u64 {
        5
    }

    fn name(&self) -> (s: &str) {
        "builtin"
    }

    fn sections(&self) -> (v: Vec<&str>) {
        let v = vec!["time", "hostname", "cwd"];
        assert(str_views(v@) =~= self.sections_spec());
        v
    }

    fn default_config(&self) -> (d: Vec<(String, SectionDefaults)>) {
        let d = vec![
            (string_from(&chars_of("time")), SectionDefaults::TimeFormat(default_time_format())),
            (string_from(&chars_of("hostname")), SectionDefaults::Empty),
            (string_from(&chars_of("cwd")), SectionDefaults::Empty),
        ];
        assert(defaults_views(d@) =~= self.defaults_spec());
        d
    }

    fn cacheable(&self) -> (b: bool) {
        false
    }

    fn cache_duration(&self) -> (d: u64) {
        5
    }
}

} // verus!
