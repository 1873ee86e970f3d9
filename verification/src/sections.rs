//! Configurations made by the program, and the sections a template needs implicitly.

use vstd::prelude::*;
use crate::config::{Config, TimeConfig, HostnameConfig, CwdConfig, PromptConfig, default_time_format};
use crate::providers::{Provider, ProviderRegistry, standard_owner, standard_provider};
use crate::render::{discover_variables, dedup, placeholder_names_from};
use crate::text::{chars_of, string_from, before_first, before_first_exec, string_views, owned};

verus! {

broadcast use vstd::string::group_string_axioms;

/// The format of the configuration used where the file cannot be read.
pub open spec fn fallback_format() -> Seq<char> {
    "{$USER}@{hostname}:{cwd}$ "@
}

/// The format of the configuration written where none exists.
pub open spec fn default_format() -> Seq<char> {
    "{time:cyan} {\"@\":yellow,bold} {hostname:magenta} {cwd:green} {\"$\":white,bold} "@
}

/// The configuration used where the file cannot be read: host name and working directory,
/// `{$USER}@{hostname}:{cwd}$ `, threshold 100.
pub fn create_fallback_config() -> (c: Config)
    ensures
        c.time is None,
        c.hostname matches Some(h) && h.name is None,
        c.cwd matches Some(d) && d.name is None,
        c.git is None,
        c.ip is None,
        c.battery is None,
        c.prompt.format@ == fallback_format(),
        c.prompt.format_wide is None,
        c.prompt.format_narrow is None,
        c.prompt.width_threshold == 100,
{
    Config {
        time: None,
        hostname: Some(HostnameConfig { name: None }),
        cwd: Some(CwdConfig { name: None }),
        git: None,
        ip: None,
        battery: None,
        prompt: PromptConfig {
            format: owned("{$USER}@{hostname}:{cwd}$ "),
            format_wide: None,
            format_narrow: None,
            width_threshold: 100,
        },
    }
}

/// The configuration written where none exists: time (`%H:%M:%S`), host name and working
/// directory, with a coloured format, threshold 100.
pub fn create_default_config() -> (c: Config)
    ensures
        c.time matches Some(t) && t.name is None && t.format@ == "%H:%M:%S"@,
        c.hostname matches Some(h) && h.name is None,
        c.cwd matches Some(d) && d.name is None,
        c.git is None,
        c.ip is None,
        c.battery is None,
        c.prompt.format@ == default_format(),
        c.prompt.format_wide is None,
        c.prompt.format_narrow is None,
        c.prompt.width_threshold == 100,
{
    Config {
        time: Some(TimeConfig { name: None, format: default_time_format() }),
        hostname: Some(HostnameConfig { name: None }),
        cwd: Some(CwdConfig { name: None }),
        git: None,
        ip: None,
        battery: None,
        prompt: PromptConfig {
            format: owned("{time:cyan} {\"@\":yellow,bold} {hostname:magenta} {cwd:green} {\"$\":white,bold} "),
            format_wide: None,
            format_narrow: None,
            width_threshold: 100,
        },
    }
}

/// The sections that a variable prefix brings in: those the provider of the section named
/// by the prefix needs.
pub open spec fn sections_for_prefix(prefix: Seq<char>) -> Seq<Seq<char>> {
    match standard_owner(prefix) {
        Some(n) => match standard_provider(n) {
            Some(p) => p.defaults_spec().map_values(|e: (Seq<char>, (nat, Seq<char>, bool))| e.0),
            None => Seq::empty(),
        },
        None => Seq::empty(),
    }
}

/// Some of the names brings in section `s`.
pub open spec fn brought_in(names: Seq<Seq<char>>, s: Seq<char>) -> bool {
    exists|j: int| 0 <= j < names.len() && #[trigger] sections_for_prefix(before_first(names[j], '_')).contains(s)
}

/// The template's variables bring in section `s`.
pub open spec fn template_wants(template: Seq<char>, s: Seq<char>) -> bool {
    brought_in(dedup(placeholder_names_from(template, 0)), s)
}

/// `new` is `old` with the sections that `wanted` names and `old` lacks set to their
/// implicit defaults, and nothing else changed.
pub open spec fn sections_applied(old: Config, new: Config, wanted: spec_fn(Seq<char>) -> bool) -> bool {
    &&& (old.time is Some || !wanted("time"@)) ==> new.time == old.time
    &&& (old.time is None && wanted("time"@)) ==> (new.time matches Some(t) && t.name is None
        && t.format@ == "%H:%M:%S"@)
    &&& (old.hostname is Some || !wanted("hostname"@)) ==> new.hostname == old.hostname
    &&& (old.hostname is None && wanted("hostname"@)) ==> (new.hostname matches Some(h)
        && h.name is None)
    &&& (old.cwd is Some || !wanted("cwd"@)) ==> new.cwd == old.cwd
    &&& (old.cwd is None && wanted("cwd"@)) ==> (new.cwd matches Some(c) && c.name is None)
    &&& (old.git is Some || !wanted("git"@)) ==> new.git == old.git
    &&& (old.git is None && wanted("git"@)) ==> (new.git matches Some(g) && g.name is None)
    &&& (old.ip is Some || !wanted("ip"@)) ==> new.ip == old.ip
    &&& (old.ip is None && wanted("ip"@)) ==> (new.ip matches Some(i) && i.name is None
        && i.interface is None && !i.prefer_ipv6)
    &&& (old.battery is Some || !wanted("battery"@)) ==> new.battery == old.battery
    &&& (old.battery is None && wanted("battery"@)) ==> (new.battery matches Some(b)
        && b.name is None)
    &&& new.prompt == old.prompt
}

/// Adds the default sections that the template's variables need and the configuration
/// lacks: a variable's prefix (before its first `_`) names a section, and the provider of
/// that section brings in all the sections it handles (`{hostname}` brings in time, host
/// name and working directory).
pub fn apply_implicit_sections(config: &mut Config, template: &str)
    ensures
        sections_applied(*old(config), *final(config), |s: Seq<char>| template_wants(template@, s)),
{
    let registry = ProviderRegistry::new();
    let vars = discover_variables(template);
    let ghost names = string_views(vars@);
    let mut k: usize = 0;
    proof {
        reveal_strlit("time");
        reveal_strlit("hostname");
        reveal_strlit("cwd");
        reveal_strlit("git");
        reveal_strlit("ip");
        reveal_strlit("battery");
        assert("git"@[0] != "cwd"@[0]);
        assert("time"@.len() == 4 && "hostname"@.len() == 8 && "cwd"@.len() == 3);
        assert("git"@.len() == 3 && "ip"@.len() == 2 && "battery"@.len() == 7);
    }
    while k < vars.len()
        invariant
            k <= vars@.len(),
            names == string_views(vars@),
            names == dedup(placeholder_names_from(template@, 0)),
            forall|s: Seq<char>| #[trigger] registry.section_owner(s) == standard_owner(s),
            forall|n: Seq<char>| #[trigger] registry.provider_named(n) == standard_provider(n),
            "git"@[0] != "cwd"@[0],
            "time"@.len() == 4 && "hostname"@.len() == 8 && "cwd"@.len() == 3,
            "git"@.len() == 3 && "ip"@.len() == 2 && "battery"@.len() == 7,
            sections_applied(*old(config), *config, |s: Seq<char>| brought_in(names.take(k as int), s)),
        decreases vars@.len() - k,
    {
        let prefix = string_from(&before_first_exec(&chars_of(vars[k].as_str()), '_'));
        let ghost wanted_before = |s: Seq<char>| brought_in(names.take(k as int), s);
        match registry.get_by_section(prefix.as_str()) {
            Some(provider) => {
                let defaults = provider.default_config();
                let ghost secs = sections_for_prefix(prefix@);
                assert(secs =~= defaults_names(defaults@));
                let mut m: usize = 0;
                while m < defaults.len()
                    invariant
                        m <= defaults@.len(),
                        secs == defaults_names(defaults@),
                        "git"@[0] != "cwd"@[0],
                        "time"@.len() == 4 && "hostname"@.len() == 8 && "cwd"@.len() == 3,
                        "git"@.len() == 3 && "ip"@.len() == 2 && "battery"@.len() == 7,
                        sections_applied(*old(config), *config, |s: Seq<char>| wanted_before(s) || secs.take(m as int).contains(s)),
                    decreases defaults@.len() - m,
                {
                    let section = string_from(&chars_of(defaults[m].0.as_str()));
                    let ghost w0 = |s: Seq<char>| wanted_before(s) || secs.take(m as int).contains(s);
                    let ghost w1 = |s: Seq<char>| wanted_before(s) || secs.take(m + 1 as int).contains(s);
                    proof {
                        assert(section@ == secs[m as int]);
                        lemma_take_contains(secs, m as int, "time"@);
                        lemma_take_contains(secs, m as int, "hostname"@);
                        lemma_take_contains(secs, m as int, "cwd"@);
                        lemma_take_contains(secs, m as int, "git"@);
                        lemma_take_contains(secs, m as int, "ip"@);
                        lemma_take_contains(secs, m as int, "battery"@);
                    }
                    if !config.has_section(section.as_str()) {
                        config.add_implicit_section(section, defaults[m].1.clone());
                    }
                    m = m + 1;
                }
                assert(secs.take(m as int) =~= secs);
                proof {
                    lemma_applied_ext(*old(config), *config, |s: Seq<char>| wanted_before(s) || secs.take(m as int).contains(s), |s: Seq<char>| brought_in(names.take(k + 1 as int), s), names, k as int, prefix@);
                }
            },
            None => {
                proof {
                    assert(sections_for_prefix(prefix@) =~= Seq::<Seq<char>>::empty());
                    lemma_applied_ext(*old(config), *config, |s: Seq<char>| wanted_before(s) || Seq::<Seq<char>>::empty().contains(s), |s: Seq<char>| brought_in(names.take(k + 1 as int), s), names, k as int, prefix@);
                }
            },
        }
        k = k + 1;
    }
    proof {
        assert(names.take(k as int) =~= names);
    }
}

proof fn lemma_brought_step(names: Seq<Seq<char>>, k: int, s: Seq<char>)
    requires
        0 <= k < names.len(),
    ensures
        brought_in(names.take(k + 1), s) <==> (brought_in(names.take(k), s)
            || sections_for_prefix(before_first(names[k], '_')).contains(s)),
{
    if brought_in(names.take(k + 1), s) {
        let j = choose|j: int| 0 <= j < k + 1 && #[trigger] sections_for_prefix(before_first(names.take(k + 1)[j], '_')).contains(s);
        if j < k {
            assert(names.take(k)[j] == names.take(k + 1)[j]);
        }
    }
    if brought_in(names.take(k), s) {
        let j = choose|j: int| 0 <= j < k && #[trigger] sections_for_prefix(before_first(names.take(k)[j], '_')).contains(s);
        assert(names.take(k)[j] == names.take(k + 1)[j]);
    }
    if sections_for_prefix(before_first(names[k], '_')).contains(s) {
        assert(names.take(k + 1)[k] == names[k]);
    }
}

proof fn lemma_applied_ext(old: Config, new: Config, w1: spec_fn(Seq<char>) -> bool, w2: spec_fn(Seq<char>) -> bool, names: Seq<Seq<char>>, k: int, prefix: Seq<char>)
    requires
        0 <= k < names.len(),
        prefix == before_first(names[k], '_'),
        sections_applied(old, new, w1),
        forall|s: Seq<char>| #[trigger] w1(s) == (brought_in(names.take(k), s) || sections_for_prefix(prefix).contains(s)),
        forall|s: Seq<char>| #[trigger] w2(s) == brought_in(names.take(k + 1), s),
    ensures
        sections_applied(old, new, w2),
{
    lemma_brought_step(names, k, "time"@);
    lemma_brought_step(names, k, "hostname"@);
    lemma_brought_step(names, k, "cwd"@);
    lemma_brought_step(names, k, "git"@);
    lemma_brought_step(names, k, "ip"@);
    lemma_brought_step(names, k, "battery"@);
    assert(w1("time"@) == w2("time"@));
    assert(w1("hostname"@) == w2("hostname"@));
    assert(w1("cwd"@) == w2("cwd"@));
    assert(w1("git"@) == w2("git"@));
    assert(w1("ip"@) == w2("ip"@));
    assert(w1("battery"@) == w2("battery"@));
}

proof fn lemma_take_contains(q: Seq<Seq<char>>, m: int, s: Seq<char>)
    requires
        0 <= m < q.len(),
    ensures
        q.take(m + 1).contains(s) <==> (q.take(m).contains(s) || s == q[m]),
{
    if s == q[m] {
        assert(q.take(m + 1)[m] == s);
    }
    if q.take(m).contains(s) {
        let j = choose|j: int| 0 <= j < m && #[trigger] q.take(m)[j] == s;
        assert(q.take(m + 1)[j] == s);
    }
    if q.take(m + 1).contains(s) {
        let j = choose|j: int| 0 <= j < m + 1 && #[trigger] q.take(m + 1)[j] == s;
        if j < m {
            assert(q.take(m)[j] == s);
        }
    }
}

/// The section names of a list of defaults.
pub open spec fn defaults_names(d: Seq<(String, crate::config::SectionDefaults)>) -> Seq<Seq<char>> {
    d.map_values(|e: (String, crate::config::SectionDefaults)| e.0@)
}

} // verus!
