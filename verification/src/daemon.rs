//! The daemon-backed prompt: its settings and error type, the scan for the environment
//! variables a format uses, what it does with each configured entry, the refresh requests
//! and cache freshness it consults, and the timing record of each section.

use vstd::prelude::*;
use crate::text::{chars_of, extend, string_from, contains, contains_exec, find_from, find_char, slice_of, string_views, strings_of, views, joined, owned, eq_chars};
use crate::numbers::{dec_string, u64_to_string};
use crate::system::io_error_text;
use std::time::Duration;

verus! {

broadcast use vstd::string::group_string_axioms;

/// `toml::de::Error`, carried through opaquely.
#[verifier::external_type_specification]
#[verifier::external_body]
pub struct ExTomlError(toml::de::Error);

/// `toml::de::Error`'s `Display` text. Nothing is stated of it: the error is opaque here.
#[verifier::external_body]
fn toml_error_text(e: &toml::de::Error) -> (s: String) {
    e.to_string()
}

/// What went wrong with the configuration.
#[derive(Debug)]
pub enum ConfigError {
    IoError(std::io::Error),
    TomlError(toml::de::Error),
    InvalidTimeFormat(String),
    NoConfigDir,
    EmptyConfigPath,
    MissingName(String),
}

impl ConfigError {
    /// The message of the error.
    pub fn to_string(&self) -> (s: String)
        ensures
            (match self {
                ConfigError::IoError(_) => exists|m: Seq<char>| s@ == "Failed to read config file: "@ + m,
                ConfigError::TomlError(_) => exists|m: Seq<char>| s@ == "Failed to parse config file: "@ + m,
                ConfigError::InvalidTimeFormat(f) => s@ == "Invalid time format string: "@ + f@,
                ConfigError::NoConfigDir => s@ == "Could not determine config directory"@,
                ConfigError::EmptyConfigPath => s@ == "Config path cannot be empty"@,
                ConfigError::MissingName(sec) => s@ == "Multiple "@ + sec@
                    + " sections found but not all have 'name' parameter"@,
            }),
    {
        match self {
            ConfigError::IoError(e) => joined("Failed to read config file: ", io_error_text(e).as_str()),
            ConfigError::TomlError(e) => joined("Failed to parse config file: ", toml_error_text(e).as_str()),
            ConfigError::InvalidTimeFormat(f) => joined("Invalid time format string: ", f.as_str()),
            ConfigError::NoConfigDir => owned("Could not determine config directory"),
            ConfigError::EmptyConfigPath => owned("Config path cannot be empty"),
            ConfigError::MissingName(sec) => {
                let a = joined("Multiple ", sec.as_str());
                joined(a.as_str(), " sections found but not all have 'name' parameter")
            },
        }
    }
}

/// The prompt format where none is configured.
pub fn default_format() -> (s: String)
    ensures
        s@ == "{time}"@,
{
    string_from(&chars_of("{time}"))
}

/// How often, in seconds, the daemon refreshes its data by default.
pub fn default_daemon_frequency() -> (f: u64)
    ensures
        f == 1,
{
    1
}

/// After how many seconds cached data is stale by default.
pub fn default_stale_after() -> (s: u64)
    ensures
        s == 5,
{
    5
}

/// Where the daemon keeps its data by default: `data.json`, beside the configuration.
pub fn default_data_file() -> (s: String)
    ensures
        s@ == "data.json"@,
{
    owned("data.json")
}

/// The `[daemon]` section: the refresh frequency and the staleness limit in seconds, and
/// the data file (relative to the configuration's directory unless absolute).
pub struct DaemonConfig {
    pub frequency: u64,
    pub stale_after: u64,
    pub data_file: String,
}

impl Default for DaemonConfig {
    fn default() -> (c: Self)
        ensures
            c.frequency == 1,
            c.stale_after == 5,
            c.data_file@ == "data.json"@,
    {
        DaemonConfig {
            frequency: default_daemon_frequency(),
            stale_after: default_stale_after(),
            data_file: default_data_file(),
        }
    }
}

/// The refresh frequency a configuration asks for: zero means the default.
pub fn daemon_frequency(value: u64) -> (f: u64)
    ensures
        f == if value == 0 {
            1
        } else {
            value
        },
{
    if value == 0 {
        default_daemon_frequency()
    } else {
        value
    }
}

/// Sections that occur more than once must each have a name.
pub fn validate_section_names(names: &[Option<String>], section_name: &str) -> (r: Result<(), ConfigError>)
    ensures
        (names@.len() > 1 && exists|i: int| 0 <= i < names@.len() && #[trigger] names@[i] is None)
            <==> r is Err,
        r matches Err(e) ==> e matches ConfigError::MissingName(s) && s@ == section_name@,
{
    if names.len() > 1 {
        let mut k: usize = 0;
        while k < names.len()
            invariant
                k <= names@.len(),
                names@.len() > 1,
                forall|i: int| 0 <= i < k ==> !(#[trigger] names@[i] is None),
            decreases names@.len() - k,
        {
            if names[k].is_none() {
                assert(names@[k as int] is None);
                return Err(ConfigError::MissingName(string_from(&chars_of(section_name))));
            }
            k = k + 1;
        }
    }
    Ok(())
}

/// Whether a format uses a variable: holds `{` directly followed by its name.
pub fn format_uses_variable(format: &str, var_name: &str) -> (b: bool)
    ensures
        b == contains(format@, seq!['{'] + var_name@),
{
    let mut pat = vec!['{'];
    extend(&mut pat, &chars_of(var_name));
    assert(pat@ =~= seq!['{'] + var_name@);
    contains_exec(&chars_of(format), &pat)
}

/// The first index at or after `j` holding `}` or `:`.
pub open spec fn env_name_stop(t: Seq<char>, j: int) -> Option<int>
    decreases t.len() - j,
{
    if j < 0 || j >= t.len() {
        None
    } else if t[j] == '}' || t[j] == ':' {
        Some(j)
    } else {
        env_name_stop(t, j + 1)
    }
}

/// The environment variables `{$NAME}` and `{$NAME:style}` of `t` from `i` on, in order:
/// the name runs to the first `}` or `:`; after a `:` the scan resumes past the next `}`
/// (or ends); a `{$` whose name is never closed names nothing; empty names are left out.
pub open spec fn env_vars_from(t: Seq<char>, i: int) -> Seq<Seq<char>>
    decreases t.len() - i,
{
    if i < 0 || i >= t.len() {
        Seq::empty()
    } else if t[i] == '{' && i + 1 < t.len() && t[i + 1] == '$' {
        match env_name_stop(t, i + 2) {
            None => Seq::empty(),
            Some(j) => if j < i + 2 || j >= t.len() {
                Seq::empty()
            } else {
                let name = t.subrange(i + 2, j);
                let found = if name.len() > 0 {
                    seq![name]
                } else {
                    Seq::empty()
                };
                if t[j] == ':' {
                    match find_from(t, seq!['}'], j) {
                        Some(k) => if j <= k < t.len() {
                            found + env_vars_from(t, k + 1)
                        } else {
                            found
                        },
                        None => found,
                    }
                } else {
                    found + env_vars_from(t, j + 1)
                }
            },
        }
    } else {
        env_vars_from(t, i + 1)
    }
}

fn env_name_stop_exec(t: &[char], j: usize) -> (r: Option<usize>)
    ensures
        match env_name_stop(t@, j as int) {
            Some(k) => r == Some(k as usize) && j <= k < t@.len(),
            None => r is None,
        },
{
    let mut k = j;
    while k < t.len() && t[k] != '}' && t[k] != ':'
        invariant
            j <= k,
            env_name_stop(t@, j as int) == env_name_stop(t@, k as int),
        decreases t@.len() - k,
    {
        k = k + 1;
    }
    if k < t.len() {
        Some(k)
    } else {
        None
    }
}

/// The environment variables a format names, in order.
pub fn get_env_vars_from_format(format: &str) -> (v: Vec<String>)
    ensures
        string_views(v@) == env_vars_from(format@, 0),
{
    let t = chars_of(format);
    let n = t.len();
    let mut out: Vec<Vec<char>> = Vec::new();
    let mut i: usize = 0;
    while i < n
        invariant
            n == t@.len(),
            t@ == format@,
            i <= n,
            views(out@) + env_vars_from(t@, i as int) == env_vars_from(t@, 0),
        decreases n - i,
    {
        let ghost before = views(out@);
        let ghost i0 = i as int;
        if t[i] == '{' && i + 1 < n && t[i + 1] == '$' {
            match env_name_stop_exec(&t, i + 2) {
                None => {
                    assert(views(out@) =~= views(out@) + env_vars_from(t@, i0));
                    return strings_of(&out);
                },
                Some(j) => {
                    let name = slice_of(&t, i + 2, j);
                    if name.len() > 0 {
                        out.push(name);
                        assert(views(out@) =~= before + seq![name@]);
                    }
                    if t[j] == ':' {
                        match find_char(&t, '}', j) {
                            Some(k) => {
                                i = k + 1;
                            },
                            None => {
                                assert(views(out@) =~= views(out@) + env_vars_from(t@, i0).skip(views(out@).len() - before.len()));
                                assert(env_vars_from(t@, 0) =~= views(out@));
                                return strings_of(&out);
                            },
                        }
                    } else {
                        i = j + 1;
                    }
                },
            }
        } else {
            i = i + 1;
        }
        proof {
            let piece = views(out@).subrange(before.len() as int, views(out@).len() as int);
            assert(views(out@) =~= before + piece);
            assert(env_vars_from(t@, i0) == piece + env_vars_from(t@, i as int));
            assert(views(out@) + env_vars_from(t@, i as int) =~= before + env_vars_from(t@, i0));
        }
    }
    assert(views(out@) =~= views(out@) + env_vars_from(t@, n as int));
    strings_of(&out)
}

/// A duration in its largest unit below a second (`0ns`, `750ns`, `12µs`, `3ms`), or
/// `None` from a second on (shown in seconds with one decimal, which needs floating point).
pub open spec fn duration_units(nanos: nat) -> Option<Seq<char>> {
    if nanos == 0 {
        Some("0ns"@)
    } else if nanos < 1000 {
        Some(dec_string(nanos) + "ns"@)
    } else if nanos / 1000 < 1000 {
        Some(dec_string(nanos / 1000) + "µs"@)
    } else if nanos / 1_000_000 < 1000 {
        Some(dec_string(nanos / 1_000_000) + "ms"@)
    } else {
        None
    }
}

/// A duration given in nanoseconds in its largest unit below a second.
pub fn format_duration_units(nanos: u128) -> (r: Option<String>)
    ensures
        match duration_units(nanos as nat) {
            Some(s) => r matches Some(t) && t@ == s,
            None => r is None,
        },
{
    if nanos == 0 {
        Some(string_from(&chars_of("0ns")))
    } else if nanos < 1000 {
        Some(joined(u64_to_string(nanos as u64).as_str(), "ns"))
    } else if nanos / 1000 < 1000 {
        Some(joined(u64_to_string((nanos / 1000) as u64).as_str(), "µs"))
    } else if nanos / 1_000_000 < 1000 {
        Some(joined(u64_to_string((nanos / 1_000_000) as u64).as_str(), "ms"))
    } else {
        None
    }
}

/// How one section's values were had: fetch and format times, how many values were
/// fetched, skipped, taken from the cache or left to the daemon, and the time each kind
/// took.
pub struct TimingData {
    pub fetch_time: Duration,
    pub format_time: Duration,
    pub fetch_count: usize,
    pub skip_count: usize,
    pub cached_count: usize,
    pub deferred_count: usize,
    pub cached_time: Duration,
    pub live_time: Duration,
    pub skip_time: Duration,
    pub deferred_time: Duration,
}

} // verus!

verus! {

/// The daemon's state as the timing report shows it: active where its data is at most two
/// refresh periods old.
pub open spec fn daemon_status(age: nat, frequency: nat) -> Seq<char> {
    if age <= frequency * 2 {
        "active ("@ + dec_string(age) + " sec ago)"@
    } else {
        "inactive ("@ + dec_string(age) + " sec ago)"@
    }
}

/// The daemon's state from the age of its data and its refresh period, both in seconds.
pub fn daemon_status_text(age: u64, frequency: u64) -> (s: String)
    requires
        frequency * 2 <= u64::MAX,
    ensures
        s@ == daemon_status(age as nat, frequency as nat),
{
    let a = u64_to_string(age);
    let prefix = if age <= frequency * 2 {
        "active ("
    } else {
        "inactive ("
    };
    let b = joined(prefix, a.as_str());
    joined(b.as_str(), " sec ago)")
}

/// Where a section's values came from: all from the cache, some live, or none.
pub open spec fn source_label(fetch_count: nat, cached_count: nat) -> Seq<char> {
    if cached_count > 0 && fetch_count == cached_count {
        "[cache]"@
    } else if fetch_count > 0 {
        "[live]"@
    } else {
        "[skip]"@
    }
}

impl TimingData {
    /// Where the section's values came from (`[cache]`, `[live]` or `[skip]`).
    pub fn source_type(&self) -> (s: &'static str)
        ensures
            s@ == source_label(self.fetch_count as nat, self.cached_count as nat),
    {
        if self.cached_count > 0 && self.fetch_count == self.cached_count {
            "[cache]"
        } else if self.fetch_count > 0 {
            "[live]"
        } else {
            "[skip]"
        }
    }

    /// The item counts the report lists, in order, each only where it is not zero:
    /// `cached:N`, `live:N` (fetched but not cached), `skip:N`, `deferred:N`.
    pub fn stats(&self) -> (v: Vec<String>)
        requires
            self.cached_count <= self.fetch_count,
        ensures
            string_views(v@) == (if self.cached_count > 0 {
                seq!["cached:"@ + dec_string(self.cached_count as nat)]
            } else {
                Seq::empty()
            }) + (if self.fetch_count - self.cached_count > 0 {
                seq!["live:"@ + dec_string((self.fetch_count - self.cached_count) as nat)]
            } else {
                Seq::empty()
            }) + (if self.skip_count > 0 {
                seq!["skip:"@ + dec_string(self.skip_count as nat)]
            } else {
                Seq::empty()
            }) + (if self.deferred_count > 0 {
                seq!["deferred:"@ + dec_string(self.deferred_count as nat)]
            } else {
                Seq::empty()
            }),
    {
        let mut v: Vec<String> = Vec::new();
        let ghost s0 = string_views(v@);
        if self.cached_count > 0 {
            v.push(joined("cached:", u64_to_string(self.cached_count as u64).as_str()));
        }
        let ghost s1 = string_views(v@);
        let live = self.fetch_count - self.cached_count;
        if live > 0 {
            v.push(joined("live:", u64_to_string(live as u64).as_str()));
        }
        let ghost s2 = string_views(v@);
        if self.skip_count > 0 {
            v.push(joined("skip:", u64_to_string(self.skip_count as u64).as_str()));
        }
        let ghost s3 = string_views(v@);
        if self.deferred_count > 0 {
            v.push(joined("deferred:", u64_to_string(self.deferred_count as u64).as_str()));
        }
        proof {
            assert(s0 =~= Seq::<Seq<char>>::empty());
        }
        assert(string_views(v@) =~= (if self.cached_count > 0 {
            seq!["cached:"@ + dec_string(self.cached_count as nat)]
        } else {
            Seq::empty()
        }) + (if self.fetch_count - self.cached_count > 0 {
            seq!["live:"@ + dec_string((self.fetch_count - self.cached_count) as nat)]
        } else {
            Seq::empty()
        }) + (if self.skip_count > 0 {
            seq!["skip:"@ + dec_string(self.skip_count as nat)]
        } else {
            Seq::empty()
        }) + (if self.deferred_count > 0 {
            seq!["deferred:"@ + dec_string(self.deferred_count as nat)]
        } else {
            Seq::empty()
        }));
        v
    }
}


/// A UTC instant as whole seconds since the epoch and the nanoseconds past them (what
/// `DateTime<Utc>::timestamp` and `timestamp_subsec_nanos` give); instants order by the
/// seconds, then the nanoseconds.
#[derive(Debug, Clone, Copy)]
pub struct UtcStamp {
    pub secs: i64,
    pub nanos: u32,
}

/// `a` is no later than `b`.
pub open spec fn stamp_le(a: UtcStamp, b: UtcStamp) -> bool {
    a.secs < b.secs || (a.secs == b.secs && a.nanos <= b.nanos)
}

/// A request that the daemon refresh a deferred section, valid from `request_dt` until
/// `expires_dt`.
#[derive(Debug, Clone)]
pub struct DeferredRequest {
    pub request_dt: UtcStamp,
    pub expires_dt: UtcStamp,
    pub section_name: String,
}

/// The pending refresh requests.
#[derive(Debug, Clone)]
pub struct DeferredRequests {
    pub requests: Vec<DeferredRequest>,
}

/// A request for `section` that is in force at `now`: made no later than `now` and
/// expiring after it.
pub open spec fn request_in_force(r: DeferredRequest, section: Seq<char>, now: UtcStamp) -> bool {
    r.section_name@ == section && stamp_le(r.request_dt, now) && !stamp_le(r.expires_dt, now)
}

/// Some request in force at `now` names `section`; where the requests could not be read
/// (`None`), none does.
pub open spec fn requested(section: Seq<char>, requests: Option<DeferredRequests>, now: UtcStamp) -> bool {
    match requests {
        Some(rs) => exists|i: int|
            0 <= i < rs.requests@.len() && request_in_force(#[trigger] rs.requests@[i], section, now),
        None => false,
    }
}

/// Whether a section is asked for (see `requested`).
pub fn is_section_requested(section_name: &str, requests: &Option<DeferredRequests>, now: UtcStamp) -> (b: bool)
    ensures
        b == requested(section_name@, *requests, now),
{
    match requests {
        None => false,
        Some(rs) => {
            assert(*requests == Some(*rs));
            let name = chars_of(section_name);
            let mut k: usize = 0;
            while k < rs.requests.len()
                invariant
                    *requests == Some(*rs),
                    k <= rs.requests@.len(),
                    name@ == section_name@,
                    forall|i: int| 0 <= i < k ==> !request_in_force(#[trigger] rs.requests@[i], section_name@, now),
                decreases rs.requests@.len() - k,
            {
                let r = &rs.requests[k];
                let rn = chars_of(r.section_name.as_str());
                let started = r.request_dt.secs < now.secs || (r.request_dt.secs == now.secs
                    && r.request_dt.nanos <= now.nanos);
                let expired = r.expires_dt.secs < now.secs || (r.expires_dt.secs == now.secs
                    && r.expires_dt.nanos <= now.nanos);
                if eq_chars(&rn, &name) && started && !expired {
                    assert(request_in_force(rs.requests@[k as int], section_name@, now));
                    assert(requests->0.requests@ == rs.requests@);
                    return true;
                }
                k = k + 1;
            }
            false
        },
    }
}

/// Whether cached data written at `updated_at` (seconds since the epoch; `None` where the
/// data holds no time) is still fresh at `now`: younger than `stale_after` seconds.
/// Data stamped later than `now` is left out: the age would be negative.
pub fn cached_data_fresh(updated_at: Option<u64>, now: u64, stale_after: u64) -> (b: bool)
    requires
        updated_at matches Some(t) ==> t <= now,
    ensures
        b == (updated_at matches Some(t) && now - t < stale_after),
{
    match updated_at {
        Some(t) => now - t < stale_after,
        None => false,
    }
}

/// The number of `true` flags.
pub open spec fn count_true(flags: Seq<bool>) -> nat
    decreases flags.len(),
{
    if flags.len() == 0 {
        0
    } else {
        count_true(flags.drop_last()) + if flags.last() {
            1nat
        } else {
            0nat
        }
    }
}

/// The number of sections marked deferred, given each section's mark.
pub fn deferred_section_count(deferred: &[bool]) -> (n: usize)
    ensures
        n == count_true(deferred@),
{
    let mut n: usize = 0;
    let mut k: usize = 0;
    while k < deferred.len()
        invariant
            k <= deferred@.len(),
            n == count_true(deferred@.take(k as int)),
            n <= k,
        decreases deferred@.len() - k,
    {
        assert(deferred@.take(k + 1 as int).drop_last() =~= deferred@.take(k as int));
        if deferred[k] {
            n = n + 1;
        }
        k = k + 1;
    }
    assert(deferred@.take(k as int) =~= deferred@);
    n
}

/// The notice of how often the daemon refreshes: `every N second` or `every N seconds`.
pub fn update_notice(frequency: u64) -> (s: String)
    ensures
        s@ == "Daemon will update data every "@ + dec_string(frequency as nat) + (if frequency == 1 {
            " second"@
        } else {
            " seconds"@
        }),
{
    let head = joined("Daemon will update data every ", u64_to_string(frequency).as_str());
    if frequency == 1 {
        joined(head.as_str(), " second")
    } else {
        joined(head.as_str(), " seconds")
    }
}


/// What the prompt does with one configured entry of a section.
#[derive(Debug, Clone, Copy, PartialEq, Eq, Structural)]
pub enum EntryAction {
    /// The format does not use the entry's variable: it is skipped.
    Skip,
    /// The entry is deferred and no request for it is in force: its variable is left
    /// empty and counted as skipped and deferred.
    Defer,
    /// The value is fetched (from the cache or live).
    Fetch,
}

/// The action for an entry whose variable is `var_name`: skipped where the format does not
/// use the variable, deferred where the entry is deferred and not requested, else fetched.
pub fn entry_action(format: &str, var_name: &str, deferred: bool, requested: bool) -> (a: EntryAction)
    ensures
        a == if !contains(format@, seq!['{'] + var_name@) {
            EntryAction::Skip
        } else if deferred && !requested {
            EntryAction::Defer
        } else {
            EntryAction::Fetch
        },
{
    if !format_uses_variable(format, var_name) {
        EntryAction::Skip
    } else if deferred && !requested {
        EntryAction::Defer
    } else {
        EntryAction::Fetch
    }
}


/// The sections of the daemon-backed prompt. The host name, the address and the battery
/// are read from the daemon's data file where it is fresh; the others always live.
#[derive(Debug, Clone, Copy, PartialEq, Eq, Structural)]
pub enum SectionKind {
    Time,
    Hostname,
    Ip,
    Cwd,
    Power,
    Env,
}

/// Whether the daemon caches a section.
pub open spec fn kind_cached(kind: SectionKind) -> bool {
    kind == SectionKind::Hostname || kind == SectionKind::Ip || kind == SectionKind::Power
}

/// What the daemon's data file holds for a section: when the data was written (seconds
/// since the epoch, where the file holds that time), and whether the section's entry can
/// be used (a text for the host name and the address, a battery record for the power).
#[derive(Debug, Clone, Copy, PartialEq, Eq, Structural)]
pub struct CachedSection {
    pub updated_at: Option<u64>,
    pub usable: bool,
}

/// What the prompt does for one configured entry of a section.
#[derive(Debug, Clone, Copy, PartialEq, Eq, Structural)]
pub enum SectionAction {
    /// The format does not use the entry's variable.
    Skip,
    /// Deferred and not requested: the variable is left empty.
    Defer,
    /// The value is taken from the daemon's fresh data.
    UseCache,
    /// The value is fetched live.
    FetchLive,
}

/// The action for an entry: skipped where the format does not use its variable, deferred
/// where it is deferred and not requested, from the cache where the section is cached and
/// the data is fresh and holds a usable entry, else fetched live.
pub open spec fn section_action(
    kind: SectionKind,
    used: bool,
    deferred: bool,
    requested: bool,
    cache: Option<CachedSection>,
    now: u64,
    stale_after: u64,
) -> SectionAction {
    if !used {
        SectionAction::Skip
    } else if deferred && !requested {
        SectionAction::Defer
    } else if kind_cached(kind) && (cache matches Some(c) && c.usable && (c.updated_at matches Some(t)
        && now - t < stale_after)) {
        SectionAction::UseCache
    } else {
        SectionAction::FetchLive
    }
}

/// Decides what the prompt does for an entry (see `section_action`). Data stamped later
/// than `now` is left out: its age would be negative.
pub fn plan_section(
    kind: SectionKind,
    used: bool,
    deferred: bool,
    requested: bool,
    cache: Option<CachedSection>,
    now: u64,
    stale_after: u64,
) -> (a: SectionAction)
    requires
        cache matches Some(c) ==> (c.updated_at matches Some(t) ==> t <= now),
    ensures
        a == section_action(kind, used, deferred, requested, cache, now, stale_after),
{
    if !used {
        return SectionAction::Skip;
    }
    if deferred && !requested {
        return SectionAction::Defer;
    }
    let cached_kind = match kind {
        SectionKind::Hostname | SectionKind::Ip | SectionKind::Power => true,
        _ => false,
    };
    match cache {
        Some(c) => {
            if cached_kind && c.usable && cached_data_fresh(c.updated_at, now, stale_after) {
                SectionAction::UseCache
            } else {
                SectionAction::FetchLive
            }
        },
        None => SectionAction::FetchLive,
    }
}

/// Counts an action in a section's timing record: a skip, a deferral (also a skip), a
/// value from the cache (the section counts one fetch, from the cache), or a live fetch
/// (one fetch for a cached section, one more for the others). The times are left as they
/// are.
pub fn record(t: &mut TimingData, kind: SectionKind, a: SectionAction)
    requires
        old(t).skip_count < usize::MAX,
        old(t).deferred_count < usize::MAX,
        old(t).fetch_count < usize::MAX,
    ensures
        final(t).skip_count == old(t).skip_count + (if a == SectionAction::Skip || a == SectionAction::Defer {
            1int
        } else {
            0int
        }),
        final(t).deferred_count == old(t).deferred_count + (if a == SectionAction::Defer {
            1int
        } else {
            0int
        }),
        final(t).cached_count == (if a == SectionAction::UseCache {
            1
        } else {
            old(t).cached_count
        }),
        final(t).fetch_count == (if a == SectionAction::UseCache || (a == SectionAction::FetchLive
            && kind_cached(kind)) {
            1
        } else if a == SectionAction::FetchLive {
            old(t).fetch_count + 1
        } else {
            old(t).fetch_count as int
        }),
        final(t).fetch_time == old(t).fetch_time,
        final(t).format_time == old(t).format_time,
        final(t).cached_time == old(t).cached_time,
        final(t).live_time == old(t).live_time,
        final(t).skip_time == old(t).skip_time,
        final(t).deferred_time == old(t).deferred_time,
{
    match a {
        SectionAction::Skip => {
            t.skip_count = t.skip_count + 1;
        },
        SectionAction::Defer => {
            t.skip_count = t.skip_count + 1;
            t.deferred_count = t.deferred_count + 1;
        },
        SectionAction::UseCache => {
            t.cached_count = 1;
            t.fetch_count = 1;
        },
        SectionAction::FetchLive => {
            match kind {
                SectionKind::Hostname | SectionKind::Ip | SectionKind::Power => {
                    t.fetch_count = 1;
                },
                _ => {
                    t.fetch_count = t.fetch_count + 1;
                },
            }
        },
    }
}


/// What the prompt reads from the daemon's data file: when it was written (seconds since
/// the epoch), the host name and the address where they are texts, and the battery record
/// as JSON text.
#[derive(Debug, Clone)]
pub struct CachedData {
    pub updated_at: Option<u64>,
    pub hostname: Option<String>,
    pub ip: Option<String>,
    pub power: Option<String>,
}

/// The text of an optional string.
pub open spec fn opt_text(s: Option<String>) -> Option<Seq<char>> {
    match s {
        Some(x) => Some(x@),
        None => None,
    }
}

/// The plain values of what was read from the data file.
pub open spec fn cached_view(d: Option<CachedData>) -> Option<(Option<u64>, Option<Seq<char>>, Option<Seq<char>>, Option<Seq<char>>)> {
    match d {
        Some(c) => Some((c.updated_at, opt_text(c.hostname), opt_text(c.ip), opt_text(c.power))),
        None => None,
    }
}

/// Whether serde_json reads the text as a JSON value.
pub uninterp spec fn json_parses(content: Seq<char>) -> bool;

/// What serde_json gives for `value[outer][inner].as_u64()` of the text's JSON value
/// (`None` where the text is not JSON, the entry is missing or it is no unsigned integer).
pub uninterp spec fn json_u64_field(content: Seq<char>, outer: Seq<char>, inner: Seq<char>) -> Option<u64>;

/// What serde_json gives for `value.get(key)` as a string (`None` where the text is not
/// JSON, the entry is missing or it is no string).
pub uninterp spec fn json_str_field(content: Seq<char>, key: Seq<char>) -> Option<Seq<char>>;

/// The JSON text serde_json writes back for `value.get(key)` (`None` where the text is not
/// JSON or the entry is missing).
pub uninterp spec fn json_text_field(content: Seq<char>, key: Seq<char>) -> Option<Seq<char>>;

/// `serde_json::from_str::<Value>(content).is_ok()`. The result is the name `json_parses`.
#[verifier::external_body]
fn json_is_value(content: &str) -> (b: bool)
    ensures
        b == json_parses(content@),
{
    serde_json::from_str::<serde_json::Value>(content).is_ok()
}

/// The text's JSON value indexed by `outer` then `inner`, read with `as_u64`. The result is
/// the name `json_u64_field`.
#[verifier::external_body]
fn json_u64_at(content: &str, outer: &str, inner: &str) -> (r: Option<u64>)
    ensures
        r == json_u64_field(content@, outer@, inner@),
{
    match serde_json::from_str::<serde_json::Value>(content) {
        Ok(v) => v[outer][inner].as_u64(),
        Err(_) => None,
    }
}

/// The text's JSON value's entry `key`, read with `as_str`. The result is the name
/// `json_str_field`.
#[verifier::external_body]
fn json_str_at(content: &str, key: &str) -> (r: Option<String>)
    ensures
        opt_text(r) == json_str_field(content@, key@),
{
    match serde_json::from_str::<serde_json::Value>(content) {
        Ok(v) => v.get(key).and_then(|x| x.as_str()).map(|x| x.to_string()),
        Err(_) => None,
    }
}

/// The text's JSON value's entry `key`, written back as JSON text. The result is the name
/// `json_text_field`.
#[verifier::external_body]
fn json_text_at(content: &str, key: &str) -> (r: Option<String>)
    ensures
        opt_text(r) == json_text_field(content@, key@),
{
    match serde_json::from_str::<serde_json::Value>(content) {
        Ok(v) => v.get(key).map(|x| x.to_string()),
        Err(_) => None,
    }
}

/// Whether the text's JSON value has an object under `key`.
pub uninterp spec fn json_object_field(content: Seq<char>, key: Seq<char>) -> bool;

/// The text's JSON value's entry `key`, tested with `is_object` (false where the text is
/// not JSON or the entry is missing). The result is the name `json_object_field`.
#[verifier::external_body]
fn json_object_at(content: &str, key: &str) -> (b: bool)
    ensures
        b == json_object_field(content@, key@),
{
    match serde_json::from_str::<serde_json::Value>(content) {
        Ok(v) => v[key].is_object(),
        Err(_) => false,
    }
}

/// The daemon's state as the timing report shows it, from the data file's text (`None`
/// where the file cannot be read), the time now and the refresh period: not running, bad
/// data, no timestamp, a bad timestamp (no whole seconds and nanoseconds), or active or
/// inactive with the data's age (no less than zero).
pub open spec fn daemon_report(content: Option<Seq<char>>, now: u64, frequency: u64) -> Seq<char> {
    match content {
        None => "not running"@,
        Some(c) => if !json_parses(c) {
            "unknown (bad data)"@
        } else if !json_object_field(c, "updated_at"@) {
            "unknown (no timestamp)"@
        } else {
            match (
                json_u64_field(c, "updated_at"@, "secs_since_epoch"@),
                json_u64_field(c, "updated_at"@, "nanos_since_epoch"@),
            ) {
                (Some(secs), Some(_)) => daemon_status(
                    if now >= secs {
                        (now - secs) as nat
                    } else {
                        0
                    },
                    frequency as nat,
                ),
                _ => "unknown (bad timestamp)"@,
            }
        },
    }
}

/// The daemon's state for the timing report (see `daemon_report`).
pub fn daemon_status_report(content: Option<&str>, now: u64, frequency: u64) -> (s: String)
    requires
        frequency * 2 <= u64::MAX,
    ensures
        s@ == daemon_report(
            match content {
                Some(c) => Some(c@),
                None => None,
            },
            now,
            frequency,
        ),
{
    match content {
        None => owned("not running"),
        Some(c) => {
            if !json_is_value(c) {
                owned("unknown (bad data)")
            } else if !json_object_at(c, "updated_at") {
                owned("unknown (no timestamp)")
            } else {
                match (
                    json_u64_at(c, "updated_at", "secs_since_epoch"),
                    json_u64_at(c, "updated_at", "nanos_since_epoch"),
                ) {
                    (Some(secs), Some(_)) => {
                        let age = if now >= secs {
                            now - secs
                        } else {
                            0
                        };
                        daemon_status_text(age, frequency)
                    },
                    _ => owned("unknown (bad timestamp)"),
                }
            }
        },
    }
}

/// What the prompt reads from the data file's text: `None` where it is not JSON; else the
/// time it was written (`updated_at.secs_since_epoch`), the `hostname` and `ip` entries
/// where they are strings, and the `power` entry as JSON text.
pub open spec fn cached_spec(content: Seq<char>) -> Option<(Option<u64>, Option<Seq<char>>, Option<Seq<char>>, Option<Seq<char>>)> {
    if json_parses(content) {
        Some(
            (
                json_u64_field(content, "updated_at"@, "secs_since_epoch"@),
                json_str_field(content, "hostname"@),
                json_str_field(content, "ip"@),
                json_text_field(content, "power"@),
            ),
        )
    } else {
        None
    }
}

/// Reads the daemon's data file's text (see `cached_spec`).
pub fn cached_data(content: &str) -> (r: Option<CachedData>)
    ensures
        cached_view(r) == cached_spec(content@),
{
    if !json_is_value(content) {
        return None;
    }
    Some(CachedData {
        updated_at: json_u64_at(content, "updated_at", "secs_since_epoch"),
        hostname: json_str_at(content, "hostname"),
        ip: json_str_at(content, "ip"),
        power: json_text_at(content, "power"),
    })
}

/// The data where it is fresh at `now` (written less than `stale_after` seconds ago),
/// `None` otherwise (no data, no time in it, or stale). Data stamped later than `now` is
/// left out: its age would be negative.
pub fn read_cached(data: Option<CachedData>, now: u64, stale_after: u64) -> (r: Option<CachedData>)
    requires
        data matches Some(d) ==> (d.updated_at matches Some(t) ==> t <= now),
    ensures
        cached_view(r) == (match data {
            Some(d) => if d.updated_at matches Some(t) && now - t < stale_after {
                cached_view(Some(d))
            } else {
                None
            },
            None => None,
        }),
{
    match data {
        Some(d) => {
            if cached_data_fresh(d.updated_at, now, stale_after) {
                Some(d)
            } else {
                None
            }
        },
        None => None,
    }
}

/// Reads the daemon's data file's text and keeps it where it is fresh at `now` (see
/// `read_cached`); `Some(None)` where it is not; `None` where it is stamped later than
/// `now`.
pub fn load_cached(content: &str, now: u64, stale_after: u64) -> (r: Option<Option<CachedData>>)
    ensures
        match cached_spec(content@) {
            Some((Some(t), h, i, p)) => if t > now {
                r is None
            } else {
                r matches Some(x) && cached_view(x) == if now - t < stale_after {
                    Some((Some(t), h, i, p))
                } else {
                    None
                }
            },
            _ => r matches Some(x) && x is None,
        },
{
    let data = cached_data(content);
    match &data {
        Some(d) => match d.updated_at {
            Some(t) => {
                if t > now {
                    return None;
                }
            },
            None => {},
        },
        None => {},
    }
    Some(read_cached(data, now, stale_after))
}


/// The variable name of the `index`-th entry of a section, given the name it configures:
/// that name, else the section name for the first and `section_N` (N = index + 1) for the
/// others.
pub fn get_var_name(name: Option<&str>, section_name: &str, index: usize) -> (s: String)
    requires
        index < usize::MAX,
    ensures
        s@ == crate::variable::var_name_of(
            match name {
                Some(n) => Some(n@),
                None => None,
            },
            section_name@,
            index as nat,
        ),
{
    match name {
        Some(n) => owned(n),
        None => if index == 0 {
            owned(section_name)
        } else {
            let head = joined(section_name, "_");
            joined(head.as_str(), u64_to_string((index + 1) as u64).as_str())
        },
    }
}

} // verus!
