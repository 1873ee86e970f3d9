//! Providers of prompt variables, the registry that routes config sections and variable
//! prefixes to them, and the combining of what they collected.

use vstd::prelude::*;
use crate::text::{chars_of, eq_chars, string_from, str_views, string_views, strings_of, views, before_first, before_first_exec, contains_chars, owned};
use crate::vars::Vars;
use crate::config::SectionDefaults;
use crate::render::dedup;
use std::time::Duration;

pub mod battery;
pub mod builtin;
pub mod git;
pub mod ip;

pub use battery::BatteryProvider;
pub use builtin::BuiltinProvider;
pub use git::GitProvider;
pub use ip::IpProvider;

verus! {

broadcast use vstd::string::group_string_axioms;

/// Why a provider could not give its variables.
#[derive(Debug)]
pub enum ProviderError {
    CommandNotFound(String),
    ExecutionFailed(String),
    ResourceNotAvailable(String),
    ParseError(String),
}

/// What a provider gives or why it could not.
pub type ProviderResult<T> = Result<T, ProviderError>;

/// How long one provider took.
#[derive(Debug)]
pub struct ProviderTiming {
    pub name: String,
    pub duration: Duration,
}

/// The variables collected from providers and how long each took.
pub struct CollectResult {
    pub variables: Vars,
    pub timings: Vec<ProviderTiming>,
}

/// The kind of a section default: none, a time format, an IPv6 preference.
pub open spec fn defaults_view(d: SectionDefaults) -> (nat, Seq<char>, bool) {
    match d {
        SectionDefaults::Empty => (0, Seq::empty(), false),
        SectionDefaults::TimeFormat(f) => (1, f@, false),
        SectionDefaults::PreferIpv6(b) => (2, Seq::empty(), b),
    }
}

/// The sections with their defaults, as plain values.
pub open spec fn defaults_views(d: Seq<(String, SectionDefaults)>) -> Seq<(Seq<char>, (nat, Seq<char>, bool))> {
    d.map_values(|e: (String, SectionDefaults)| (e.0@, defaults_view(e.1)))
}

/// A source of prompt variables.
pub trait Provider {
    /// Its name.
    spec fn name_spec(&self) -> Seq<char>;

    /// The config sections it handles.
    spec fn sections_spec(&self) -> Seq<Seq<char>>;

    /// The sections it needs, with their defaults.
    spec fn defaults_spec(&self) -> Seq<(Seq<char>, (nat, Seq<char>, bool))>;

    /// Whether its values may be cached.
    spec fn cacheable_spec(&self) -> bool;

    /// How long, in seconds, a cached value stays valid.
    spec fn cache_duration_spec(&self) -> u64;

    /// Its name, under which it is registered.
    fn name(&self) -> (s: &str)
        ensures
            s@ == self.name_spec(),
    ;

    /// The config sections it handles.
    fn sections(&self) -> (v: Vec<&str>)
        ensures
            str_views(v@) == self.sections_spec(),
    ;

    /// The sections it needs where the template uses its variables, with their defaults.
    fn default_config(&self) -> (d: Vec<(String, SectionDefaults)>)
        ensures
            defaults_views(d@) == self.defaults_spec(),
    ;

    /// Whether its values may be cached.
    fn cacheable(&self) -> (b: bool)
        ensures
            b == self.cacheable_spec(),
    ;

    /// How long, in seconds, a cached value stays valid.
    fn cache_duration(&self) -> (d: u64)
        ensures
            d == self.cache_duration_spec(),
    ;
}

} // verus!

verus! {

/// One of the providers that come with the program.
pub enum ProviderKind {
    Builtin(BuiltinProvider),
    Git(GitProvider),
    Ip(IpProvider),
    Battery(BatteryProvider),
}

impl Provider for ProviderKind {
    open spec fn name_spec(&self) -> Seq<char> {
        match self {
            ProviderKind::Builtin(p) => p.name_spec(),
            ProviderKind::Git(p) => p.name_spec(),
            ProviderKind::Ip(p) => p.name_spec(),
            ProviderKind::Battery(p) => p.name_spec(),
        }
    }

    open spec fn sections_spec(&self) -> Seq<Seq<char>> {
        match self {
            ProviderKind::Builtin(p) => p.sections_spec(),
            ProviderKind::Git(p) => p.sections_spec(),
            ProviderKind::Ip(p) => p.sections_spec(),
            ProviderKind::Battery(p) => p.sections_spec(),
        }
    }

    open spec fn defaults_spec(&self) -> Seq<(Seq<char>, (nat, Seq<char>, bool))> {
        match self {
            ProviderKind::Builtin(p) => p.defaults_spec(),
            ProviderKind::Git(p) => p.defaults_spec(),
            ProviderKind::Ip(p) => p.defaults_spec(),
            ProviderKind::Battery(p) => p.defaults_spec(),
        }
    }

    open spec fn cacheable_spec(&self) -> bool {
        match self {
            ProviderKind::Builtin(p) => p.cacheable_spec(),
            ProviderKind::Git(p) => p.cacheable_spec(),
            ProviderKind::Ip(p) => p.cacheable_spec(),
            ProviderKind::Battery(p) => p.cacheable_spec(),
        }
    }

    open spec fn cache_duration_spec(&self) -> u64 {
        match self {
            ProviderKind::Builtin(p) => p.cache_duration_spec(),
            ProviderKind::Git(p) => p.cache_duration_spec(),
            ProviderKind::Ip(p) => p.cache_duration_spec(),
            ProviderKind::Battery(p) => p.cache_duration_spec(),
        }
    }

    fn name(&self) -> (s: &str) {
        match self {
            ProviderKind::Builtin(p) => p.name(),
            ProviderKind::Git(p) => p.name(),
            ProviderKind::Ip(p) => p.name(),
            ProviderKind::Battery(p) => p.name(),
        }
    }

    fn sections(&self) -> (v: Vec<&str>) {
        match self {
            ProviderKind::Builtin(p) => p.sections(),
            ProviderKind::Git(p) => p.sections(),
            ProviderKind::Ip(p) => p.sections(),
            ProviderKind::Battery(p) => p.sections(),
        }
    }

    fn default_config(&self) -> (d: Vec<(String, SectionDefaults)>) {
        match self {
            ProviderKind::Builtin(p) => p.default_config(),
            ProviderKind::Git(p) => p.default_config(),
            ProviderKind::Ip(p) => p.default_config(),
            ProviderKind::Battery(p) => p.default_config(),
        }
    }

    fn cacheable(&self) -> (b: bool) {
        match self {
            ProviderKind::Builtin(p) => p.cacheable(),
            ProviderKind::Git(p) => p.cacheable(),
            ProviderKind::Ip(p) => p.cacheable(),
            ProviderKind::Battery(p) => p.cacheable(),
        }
    }

    fn cache_duration(&self) -> (d: u64) {
        match self {
            ProviderKind::Builtin(p) => p.cache_duration(),
            ProviderKind::Git(p) => p.cache_duration(),
            ProviderKind::Ip(p) => p.cache_duration(),
            ProviderKind::Battery(p) => p.cache_duration(),
        }
    }
}

/// The last provider in `ps` with the given name.
pub open spec fn named(ps: Seq<ProviderKind>, name: Seq<char>) -> Option<ProviderKind>
    decreases ps.len(),
{
    if ps.len() == 0 {
        None
    } else if ps.last().name_spec() == name {
        Some(ps.last())
    } else {
        named(ps.drop_last(), name)
    }
}

/// The names of the providers, in order of registration.
pub open spec fn kind_names(ps: Seq<ProviderKind>) -> Seq<Seq<char>> {
    ps.map_values(|p: ProviderKind| p.name_spec())
}

/// The registered providers, by name, and the provider that handles each config section.
pub struct ProviderRegistry {
    providers: Vec<ProviderKind>,
    section_map: Vars,
}

/// The provider that handles a section in the standard registry.
pub open spec fn standard_owner(section: Seq<char>) -> Option<Seq<char>> {
    if section == "time"@ || section == "hostname"@ || section == "cwd"@ {
        Some("builtin"@)
    } else if section == "git"@ {
        Some("git"@)
    } else if section == "ip"@ {
        Some("ip"@)
    } else if section == "battery"@ {
        Some("battery"@)
    } else {
        None
    }
}

/// The provider registered under a name in the standard registry.
pub open spec fn standard_provider(name: Seq<char>) -> Option<ProviderKind> {
    if name == "builtin"@ {
        Some(ProviderKind::Builtin(BuiltinProvider))
    } else if name == "git"@ {
        Some(ProviderKind::Git(GitProvider))
    } else if name == "ip"@ {
        Some(ProviderKind::Ip(IpProvider))
    } else if name == "battery"@ {
        Some(ProviderKind::Battery(BatteryProvider))
    } else {
        None
    }
}

/// The provider names that the variables need, in order with repeats: that of the
/// section named by each variable's prefix (before its first `_`), where there is one.
pub open spec fn needed_by(owner: spec_fn(Seq<char>) -> Option<Seq<char>>, vars: Seq<Seq<char>>) -> Seq<Seq<char>>
    decreases vars.len(),
{
    if vars.len() == 0 {
        Seq::empty()
    } else {
        needed_by(owner, vars.drop_last()) + (match owner(before_first(vars.last(), '_')) {
            Some(n) => seq![n],
            None => Seq::empty(),
        })
    }
}

impl ProviderRegistry {
    /// The provider registered under a name (the last one, where several were).
    pub closed spec fn provider_named(&self, name: Seq<char>) -> Option<ProviderKind> {
        named(self.providers@, name)
    }

    /// The name of the provider that handles a section.
    pub closed spec fn section_owner(&self, section: Seq<char>) -> Option<Seq<char>> {
        self.section_map.get_spec(section)
    }

    /// The names of the registered providers, in order of registration.
    pub closed spec fn registered_names(&self) -> Seq<Seq<char>> {
        kind_names(self.providers@)
    }

    /// The registry with the built-in, git, IP and battery providers.
    pub fn new() -> (r: Self)
        ensures
            forall|s: Seq<char>| #[trigger] r.section_owner(s) == standard_owner(s),
            forall|n: Seq<char>| #[trigger] r.provider_named(n) == standard_provider(n),
            r.registered_names() == seq!["builtin"@, "git"@, "ip"@, "battery"@],
    {
        let mut r = ProviderRegistry { providers: Vec::new(), section_map: Vars::new() };
        r.register(ProviderKind::Builtin(BuiltinProvider));
        r.register(ProviderKind::Git(GitProvider));
        r.register(ProviderKind::Ip(IpProvider));
        r.register(ProviderKind::Battery(BatteryProvider));
        proof {
            reveal_strlit("time");
            reveal_strlit("hostname");
            reveal_strlit("cwd");
            reveal_strlit("git");
            reveal_strlit("ip");
            reveal_strlit("battery");
            reveal_strlit("builtin");
            assert("git"@[0] != "cwd"@[0]);
            assert("time"@.len() == 4 && "hostname"@.len() == 8 && "cwd"@.len() == 3);
            assert("git"@.len() == 3 && "ip"@.len() == 2 && "battery"@.len() == 7);
            assert("builtin"@.len() == 7 && "builtin"@[0] != "battery"@[1]);
            assert forall|s: Seq<char>| #[trigger] r.section_owner(s) == standard_owner(s) by {
                lemma_contains3("time"@, "hostname"@, "cwd"@, s);
                lemma_contains1("git"@, s);
                lemma_contains1("ip"@, s);
                lemma_contains1("battery"@, s);
            }
            assert(kind_names(r.providers@) =~= seq!["builtin"@, "git"@, "ip"@, "battery"@]);
        }
        r
    }

    /// Registers a provider under its name, replacing one of the same name, and makes it
    /// the handler of its sections.
    pub fn register(&mut self, provider: ProviderKind)
        ensures
            forall|n: Seq<char>| #[trigger] final(self).provider_named(n) == if n == provider.name_spec() {
                Some(provider)
            } else {
                old(self).provider_named(n)
            },
            forall|s: Seq<char>| #[trigger] final(self).section_owner(s) == if provider.sections_spec().contains(s) {
                Some(provider.name_spec())
            } else {
                old(self).section_owner(s)
            },
            final(self).registered_names() == old(self).registered_names().push(provider.name_spec()),
    {
        let name = provider.name();
        let sections = provider.sections();
        let ghost secs = str_views(sections@);
        let mut k: usize = 0;
        while k < sections.len()
            invariant
                k <= sections@.len(),
                secs == str_views(sections@),
                secs == provider.sections_spec(),
                name@ == provider.name_spec(),
                self.providers@ == old(self).providers@,
                forall|s: Seq<char>| #[trigger] self.section_map.get_spec(s) == if secs.take(k as int).contains(s) {
                    Some(name@)
                } else {
                    old(self).section_map.get_spec(s)
                },
            decreases sections@.len() - k,
        {
            let ghost before = self.section_map;
            self.section_map.insert(owned(sections[k]), owned(name));
            proof {
                assert forall|s: Seq<char>| #[trigger] self.section_map.get_spec(s) == if secs.take(k + 1 as int).contains(s) {
                    Some(name@)
                } else {
                    old(self).section_map.get_spec(s)
                } by {
                    assert(secs.take(k + 1 as int) =~= secs.take(k as int).push(secs[k as int]));
                    if s == secs[k as int] {
                        assert(secs.take(k + 1 as int)[k as int] == s);
                    } else {
                        if secs.take(k + 1 as int).contains(s) {
                            let j = choose|j: int| 0 <= j < k + 1 && #[trigger] secs.take(k + 1 as int)[j] == s;
                            assert(secs.take(k as int)[j] == s);
                        }
                        if secs.take(k as int).contains(s) {
                            let j = choose|j: int| 0 <= j < k && #[trigger] secs.take(k as int)[j] == s;
                            assert(secs.take(k + 1 as int)[j] == s);
                        }
                    }
                }
            }
            k = k + 1;
        }
        assert(secs.take(k as int) =~= secs);
        let ghost before = self.providers@;
        self.providers.push(provider);
        proof {
            assert(self.providers@.drop_last() =~= before);
            assert(kind_names(self.providers@) =~= kind_names(before).push(provider.name_spec()));
        }
    }

    /// The provider registered under a name.
    pub fn get(&self, name: &str) -> (r: Option<&ProviderKind>)
        ensures
            match self.provider_named(name@) {
                Some(p) => r == Some(&p),
                None => r is None,
            },
    {
        let mut i = self.providers.len();
        assert(self.providers@.take(i as int) =~= self.providers@);
        while i > 0
            invariant
                i <= self.providers@.len(),
                named(self.providers@, name@) == named(self.providers@.take(i as int), name@),
            decreases i,
        {
            proof {
                assert(self.providers@.take(i as int).drop_last() =~= self.providers@.take(i - 1 as int));
            }
            if str_eq_chars(self.providers[i - 1].name(), name) {
                return Some(&self.providers[i - 1]);
            }
            i = i - 1;
        }
        None
    }

    /// The provider that handles a config section.
    pub fn get_by_section(&self, section: &str) -> (r: Option<&ProviderKind>)
        ensures
            match self.section_owner(section@) {
                Some(n) => match self.provider_named(n) {
                    Some(p) => r == Some(&p),
                    None => r is None,
                },
                None => r is None,
            },
    {
        match self.section_map.get(section) {
            Some(n) => self.get(n.as_str()),
            None => None,
        }
    }

    /// The names of the registered providers, each once.
    pub fn list_providers(&self) -> (v: Vec<String>)
        ensures
            string_views(v@) == dedup(self.registered_names()),
    {
        let mut out: Vec<Vec<char>> = Vec::new();
        let mut k: usize = 0;
        while k < self.providers.len()
            invariant
                k <= self.providers@.len(),
                views(out@) == dedup(kind_names(self.providers@).take(k as int)),
            decreases self.providers@.len() - k,
        {
            let n = chars_of(self.providers[k].name());
            proof {
                assert(kind_names(self.providers@).take(k + 1 as int).drop_last() =~= kind_names(self.providers@).take(k as int));
                assert(kind_names(self.providers@).take(k + 1 as int).last() == n@);
            }
            if !contains_chars(&out, &n) {
                let ghost before = views(out@);
                out.push(n);
                assert(views(out@) =~= before.push(n@));
            }
            k = k + 1;
        }
        assert(kind_names(self.providers@).take(k as int) =~= kind_names(self.providers@));
        strings_of(&out)
    }

    /// The names of the providers that the template variables need, each once, in order of
    /// first need: a variable needs the provider of the section its prefix (before the
    /// first `_`, or the whole name) names.
    pub fn determine_providers(&self, variables: &[&str]) -> (v: Vec<String>)
        ensures
            string_views(v@) == dedup(needed_by(|s: Seq<char>| self.section_owner(s), str_views(variables@))),
    {
        let ghost owner = |s: Seq<char>| self.section_owner(s);
        let ghost vs = str_views(variables@);
        let mut out: Vec<Vec<char>> = Vec::new();
        let mut k: usize = 0;
        while k < variables.len()
            invariant
                k <= variables@.len(),
                vs == str_views(variables@),
                owner == (|s: Seq<char>| self.section_owner(s)),
                views(out@) == dedup(needed_by(owner, vs.take(k as int))),
            decreases variables@.len() - k,
        {
            let prefix = before_first_exec(&chars_of(variables[k]), '_');
            proof {
                assert(vs.take(k + 1 as int).drop_last() =~= vs.take(k as int));
                assert(vs.take(k + 1 as int).last() == variables@[k as int]@);
            }
            match self.section_map.get(string_from(&prefix).as_str()) {
                Some(n) => {
                    let nc = chars_of(n.as_str());
                    proof {
                        let nn = needed_by(owner, vs.take(k as int));
                        assert(needed_by(owner, vs.take(k + 1 as int)) =~= nn.push(nc@));
                        assert(nn.push(nc@).drop_last() =~= nn);
                        assert(nn.push(nc@).last() == nc@);
                    }
                    if !contains_chars(&out, &nc) {
                        let ghost before = views(out@);
                        out.push(nc);
                        assert(views(out@) =~= before.push(nc@));
                    }
                },
                None => {
                    assert(needed_by(owner, vs.take(k + 1 as int)) =~= needed_by(owner, vs.take(k as int)));
                },
            }
            k = k + 1;
        }
        assert(vs.take(k as int) =~= vs);
        strings_of(&out)
    }
}

proof fn lemma_contains1(x: Seq<char>, s: Seq<char>)
    ensures
        seq![x].contains(s) <==> s == x,
{
    if s == x {
        assert(seq![x][0] == s);
    }
}

proof fn lemma_contains3(a: Seq<char>, b: Seq<char>, c: Seq<char>, s: Seq<char>)
    ensures
        seq![a, b, c].contains(s) <==> (s == a || s == b || s == c),
{
    let q = seq![a, b, c];
    if s == a {
        assert(q[0] == s);
    }
    if s == b {
        assert(q[1] == s);
    }
    if s == c {
        assert(q[2] == s);
    }
}

fn str_eq_chars(a: &str, b: &str) -> (r: bool)
    ensures
        r == (a@ == b@),
{
    eq_chars(&chars_of(a), &chars_of(b))
}

} // verus!

verus! {

/// What one provider gave when it was run, and how long it took.
pub struct Collected {
    pub name: String,
    pub outcome: ProviderResult<Vars>,
    pub duration: Duration,
}

/// `a` sorts strictly before `b` (as `String`'s order: by characters, a prefix first).
pub open spec fn name_lt(a: Seq<char>, b: Seq<char>) -> bool
    decreases a.len(),
{
    if b.len() == 0 {
        false
    } else if a.len() == 0 {
        true
    } else if a[0] != b[0] {
        (a[0] as u32) < (b[0] as u32)
    } else {
        name_lt(a.drop_first(), b.drop_first())
    }
}

/// `x` put into `s` after every timing whose name does not sort after its own.
pub open spec fn insert_by_name(s: Seq<(Seq<char>, Duration)>, x: (Seq<char>, Duration)) -> Seq<(Seq<char>, Duration)>
    decreases s.len(),
{
    if s.len() == 0 {
        seq![x]
    } else if name_lt(x.0, s.last().0) {
        insert_by_name(s.drop_last(), x).push(s.last())
    } else {
        s.push(x)
    }
}

/// The timings sorted by name, equal names in their order (a stable sort).
pub open spec fn sort_by_name(s: Seq<(Seq<char>, Duration)>) -> Seq<(Seq<char>, Duration)>
    decreases s.len(),
{
    if s.len() == 0 {
        Seq::empty()
    } else {
        insert_by_name(sort_by_name(s.drop_last()), s.last())
    }
}

/// The timings as plain values.
pub open spec fn timing_views(t: Seq<ProviderTiming>) -> Seq<(Seq<char>, Duration)> {
    t.map_values(|x: ProviderTiming| (x.name@, x.duration))
}

/// The timings of the providers that gave their variables, in order.
pub open spec fn ok_timings(c: Seq<Collected>) -> Seq<(Seq<char>, Duration)>
    decreases c.len(),
{
    if c.len() == 0 {
        Seq::empty()
    } else {
        ok_timings(c.drop_last()) + (if c.last().outcome is Ok {
            seq![(c.last().name@, c.last().duration)]
        } else {
            Seq::empty()
        })
    }
}

/// The variables of the providers that gave them, in order (a later one replacing an
/// earlier one under the same name).
pub open spec fn ok_entries(c: Seq<Collected>) -> Seq<(Seq<char>, Seq<char>)>
    decreases c.len(),
{
    if c.len() == 0 {
        Seq::empty()
    } else {
        ok_entries(c.drop_last()) + (match c.last().outcome {
            Ok(v) => v@,
            Err(_) => Seq::empty(),
        })
    }
}

/// The index of the first provider that failed.
pub open spec fn first_failure(c: Seq<Collected>) -> Option<int>
    decreases c.len(),
{
    if c.len() == 0 {
        None
    } else {
        match first_failure(c.drop_last()) {
            Some(i) => Some(i),
            None => if c.last().outcome is Err {
                Some(c.len() - 1)
            } else {
                None
            },
        }
    }
}

fn name_lt_exec(a: &[char], b: &[char]) -> (r: bool)
    ensures
        r == name_lt(a@, b@),
{
    let mut k: usize = 0;
    assert(a@.skip(0) =~= a@ && b@.skip(0) =~= b@);
    while k < a.len() && k < b.len()
        invariant
            k <= a@.len(),
            k <= b@.len(),
            name_lt(a@, b@) == name_lt(a@.skip(k as int), b@.skip(k as int)),
        decreases a@.len() - k,
    {
        if a[k] != b[k] {
            assert(a@.skip(k as int)[0] == a@[k as int] && b@.skip(k as int)[0] == b@[k as int]);
            return (a[k] as u32) < (b[k] as u32);
        }
        assert(a@.skip(k as int).drop_first() =~= a@.skip(k + 1 as int));
        assert(b@.skip(k as int).drop_first() =~= b@.skip(k + 1 as int));
        k = k + 1;
    }
    k < b.len()
}

fn insert_timing(v: &mut Vec<ProviderTiming>, x: ProviderTiming)
    ensures
        timing_views(final(v)@) == insert_by_name(timing_views(old(v)@), (x.name@, x.duration)),
{
    let ghost s = timing_views(v@);
    let ghost xv = (x.name@, x.duration);
    let xn = chars_of(x.name.as_str());
    let mut p = v.len();
    assert(s.take(p as int) =~= s);
    assert(s.skip(p as int) =~= Seq::<(Seq<char>, Duration)>::empty());
    while p > 0 && name_lt_exec(&xn, &chars_of(v[p - 1].name.as_str()))
        invariant
            p <= v@.len(),
            s == timing_views(v@),
            xn@ == xv.0,
            xv == (x.name@, x.duration),
            insert_by_name(s, xv) == insert_by_name(s.take(p as int), xv) + s.skip(p as int),
        decreases p,
    {
        proof {
            let t = s.take(p as int);
            assert(t.drop_last() =~= s.take(p - 1 as int));
            assert(t.last() == s[p - 1]);
            assert(s.skip(p - 1 as int) =~= seq![s[p - 1]] + s.skip(p as int));
            assert(insert_by_name(t, xv) == insert_by_name(s.take(p - 1 as int), xv).push(s[p - 1]));
            assert(insert_by_name(s.take(p - 1 as int), xv).push(s[p - 1]) + s.skip(p as int) =~= insert_by_name(s.take(p - 1 as int), xv) + s.skip(p - 1 as int));
        }
        p = p - 1;
    }
    proof {
        if p > 0 {
            assert(s.take(p as int).last() == s[p - 1]);
            assert(insert_by_name(s.take(p as int), xv) == s.take(p as int).push(xv));
        } else {
            assert(s.take(0) =~= Seq::<(Seq<char>, Duration)>::empty());
        }
    }
    v.insert(p, x);
    assert(timing_views(v@) =~= s.take(p as int).push(xv) + s.skip(p as int));
}

/// Combines what the providers gave: when validating, the first failure is the result;
/// otherwise failures are left out. The variables of the others are merged in order and
/// their timings sorted by provider name.
pub fn combine_collected(collected: Vec<Collected>, validate: bool) -> (r: ProviderResult<CollectResult>)
    ensures
        match first_failure(collected@) {
            Some(i) if validate => r == Err::<CollectResult, ProviderError>(collected@[i].outcome->Err_0),
            _ => r matches Ok(res) && res.variables@ == ok_entries(collected@) && timing_views(res.timings@) == sort_by_name(ok_timings(collected@)),
        },
{
    let ghost all = collected@;
    let mut rest = collected;
    let mut variables = Vars::new();
    let mut timings: Vec<ProviderTiming> = Vec::new();
    let mut k: usize = 0;
    assert(all.len() == rest.len());
    assert(all.skip(0) =~= all);
    while rest.len() > 0
        invariant
            rest@ == all.skip(k as int),
            k + rest@.len() == all.len(),
            all.len() <= usize::MAX,
            variables@ == ok_entries(all.take(k as int)),
            timing_views(timings@) == sort_by_name(ok_timings(all.take(k as int))),
            validate ==> first_failure(all.take(k as int)) is None,
            all == collected@,
        decreases rest@.len(),
    {
        let c = rest.remove(0);
        proof {
            assert(all.skip(k as int)[0] == c);
            assert(rest@ =~= all.skip(k + 1 as int));
            assert(all.take(k + 1 as int).drop_last() =~= all.take(k as int));
            assert(all.take(k + 1 as int).last() == c);
        }
        let ghost cv = c;
        match c.outcome {
            Ok(vars) => {
                let t = ProviderTiming { name: c.name, duration: c.duration };
                proof {
                    assert(sort_by_name(ok_timings(all.take(k as int)).push((cv.name@, cv.duration))) == insert_by_name(sort_by_name(ok_timings(all.take(k as int))), (cv.name@, cv.duration))) by {
                        assert(ok_timings(all.take(k as int)).push((cv.name@, cv.duration)).drop_last() =~= ok_timings(all.take(k as int)));
                    }
                    assert(ok_timings(all.take(k + 1 as int)) =~= ok_timings(all.take(k as int)).push((cv.name@, cv.duration)));
                }
                insert_timing(&mut timings, t);
                variables.extend(vars);
            },
            Err(e) => {
                if validate {
                    proof {
                        assert(first_failure(all.take(k + 1 as int)) == Some(k as int));
                        lemma_first_failure_prefix(all, k + 1);
                        assert(all[k as int] == cv);
                    }
                    return Err(e);
                }
                proof {
                    assert(ok_timings(all.take(k + 1 as int)) =~= ok_timings(all.take(k as int)));
                    assert(ok_entries(all.take(k + 1 as int)) =~= ok_entries(all.take(k as int)));
                }
            },
        }
        k = k + 1;
    }
    assert(all.take(k as int) =~= all);
    Ok(CollectResult { variables, timings })
}

proof fn lemma_first_failure_prefix(c: Seq<Collected>, k: int)
    requires
        0 <= k <= c.len(),
        first_failure(c.take(k)) is Some,
    ensures
        first_failure(c) == first_failure(c.take(k)),
    decreases c.len() - k,
{
    if k < c.len() {
        assert(c.take(k + 1).drop_last() =~= c.take(k));
        lemma_first_failure_prefix(c, k + 1);
    } else {
        assert(c.take(k) =~= c);
    }
}

} // verus!
