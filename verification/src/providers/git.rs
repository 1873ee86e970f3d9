//! The git provider: branch, tracking, working tree status and age of the last commit,
//! read from the output of git commands.

use vstd::prelude::*;
use super::{Provider, ProviderError, ProviderResult, defaults_views};
use crate::config::{SectionDefaults};
use crate::text::{chars_of, string_from, str_views, trim, trim_exec, extend, lines, lines_exec, views, owned, joined, joined3};
use crate::numbers::{dec_string, u64_to_string, parse_nat, parse_u32, parse_u64, words, split_whitespace};
use crate::vars::Vars;

verus! {

broadcast use vstd::string::group_string_axioms;

/// The provider of the `git_*` variables.
pub struct GitProvider;

/// What a git command printed, and whether it ran and succeeded.
pub struct GitOutput {
    pub success: bool,
    pub stdout: String,
}

/// The outputs of the git commands for one prompt: `git --version`, then (where git is
/// there) `git rev-parse --git-dir`, then (in a repository) the branch, the ahead/behind
/// counts, the porcelain status and the time of the last commit, and the current time.
pub struct GitProbe {
    pub available: bool,
    pub in_repo: bool,
    pub branch: GitOutput,
    pub ahead_behind: GitOutput,
    pub status: GitOutput,
    pub last_commit: GitOutput,
    pub now_secs: Option<u64>,
}

/// The branch that `git branch --show-current` printed, or `None` (detached head, failure).
pub open spec fn branch_of(success: bool, stdout: Seq<char>) -> Option<Seq<char>> {
    if success && trim(stdout).len() > 0 {
        Some(trim(stdout))
    } else {
        None
    }
}

/// The branch that `git branch --show-current` printed.
pub fn parse_branch(out: &GitOutput) -> (r: Option<String>)
    ensures
        match branch_of(out.success, out.stdout@) {
            Some(b) => r matches Some(s) && s@ == b,
            None => r is None,
        },
{
    if !out.success {
        return None;
    }
    let b = trim_exec(&chars_of(out.stdout.as_str()));
    if b.len() == 0 {
        None
    } else {
        Some(string_from(&b))
    }
}

/// The commits ahead and behind that `git rev-list --left-right --count` printed: two
/// whitespace-separated numbers.
pub open spec fn ahead_behind_of(success: bool, stdout: Seq<char>) -> Option<(u32, u32)> {
    let w = words(trim(stdout));
    if success && w.len() == 2 {
        match (parse_nat(w[0]), parse_nat(w[1])) {
            (Some(a), Some(b)) => if a <= u32::MAX && b <= u32::MAX {
                Some((a as u32, b as u32))
            } else {
                None
            },
            _ => None,
        }
    } else {
        None
    }
}

/// The commits ahead and behind the upstream.
pub fn parse_ahead_behind(out: &GitOutput) -> (r: Option<(u32, u32)>)
    ensures
        r == ahead_behind_of(out.success, out.stdout@),
{
    if !out.success {
        return None;
    }
    let w = split_whitespace(&trim_exec(&chars_of(out.stdout.as_str())));
    if w.len() != 2 {
        return None;
    }
    assert(views(w@)[0] == w@[0]@ && views(w@)[1] == w@[1]@);
    let a = parse_u32(string_from(&w[0]).as_str());
    let b = parse_u32(string_from(&w[1]).as_str());
    match (a, b) {
        (Some(x), Some(y)) => Some((x, y)),
        _ => None,
    }
}

/// A staged change: the index column is neither a space, `?` nor `!`.
pub open spec fn is_staged(x: char) -> bool {
    x != ' ' && x != '?' && x != '!'
}

/// The staged and unstaged (modified or untracked) counts of porcelain status lines.
pub open spec fn status_counts(ls: Seq<Seq<char>>) -> (nat, nat)
    decreases ls.len(),
{
    if ls.len() == 0 {
        (0, 0)
    } else {
        let (s, u) = status_counts(ls.drop_last());
        let l = ls.last();
        if l.len() < 2 {
            (s, u)
        } else {
            ((if is_staged(l[0]) {
                s + 1
            } else {
                s
            }) as nat, (if l[1] != ' ' {
                u + 1
            } else {
                u
            }) as nat)
        }
    }
}

/// The staged and unstaged counts that `git status --porcelain` printed ((0, 0) where it
/// failed).
pub open spec fn status_of(success: bool, stdout: Seq<char>) -> (nat, nat) {
    if success {
        status_counts(lines(stdout))
    } else {
        (0, 0)
    }
}

proof fn lemma_status_bound(ls: Seq<Seq<char>>)
    ensures
        status_counts(ls).0 <= ls.len(),
        status_counts(ls).1 <= ls.len(),
    decreases ls.len(),
{
    if ls.len() > 0 {
        lemma_status_bound(ls.drop_last());
    }
}

/// The staged and unstaged counts of the working tree.
pub fn parse_status(out: &GitOutput) -> (r: (usize, usize))
    ensures
        r.0 == status_of(out.success, out.stdout@).0,
        r.1 == status_of(out.success, out.stdout@).1,
{
    if !out.success {
        return (0, 0);
    }
    let ls = lines_exec(&chars_of(out.stdout.as_str()));
    let mut staged: usize = 0;
    let mut unstaged: usize = 0;
    let mut k: usize = 0;
    while k < ls.len()
        invariant
            k <= ls@.len(),
            views(ls@) == lines(out.stdout@),
            (staged as nat, unstaged as nat) == status_counts(views(ls@).take(k as int)),
        decreases ls@.len() - k,
    {
        proof {
            assert(views(ls@).take(k + 1 as int).drop_last() =~= views(ls@).take(k as int));
            lemma_status_bound(views(ls@).take(k as int));
        }
        let l = &ls[k];
        if l.len() >= 2 {
            let x = l[0];
            let y = l[1];
            if x != ' ' && x != '?' && x != '!' {
                staged = staged + 1;
            }
            if y != ' ' {
                unstaged = unstaged + 1;
            }
        }
        k = k + 1;
    }
    assert(views(ls@).take(k as int) =~= views(ls@));
    (staged, unstaged)
}

/// A duration in seconds in its largest whole unit: seconds below a minute, minutes below
/// an hour, else hours (`2s`, `5m`, `17h`).
pub open spec fn duration_text(seconds: nat) -> Seq<char> {
    if seconds < 60 {
        dec_string(seconds) + "s"@
    } else if seconds < 3600 {
        dec_string(seconds / 60) + "m"@
    } else {
        dec_string(seconds / 3600) + "h"@
    }
}

/// The time since the last commit, from what `git log -1 --format=%ct` printed and the
/// current time in seconds since the epoch (the clock before the commit counting as no
/// time).
pub open spec fn elapsed_of(success: bool, stdout: Seq<char>, now: Option<u64>) -> Option<Seq<char>> {
    match (parse_nat(trim(stdout)), now) {
        (Some(ts), Some(n)) => if success && ts <= u64::MAX {
            Some(duration_text(if n >= ts {
                (n - ts) as nat
            } else {
                0
            }))
        } else {
            None
        },
        _ => None,
    }
}

/// The `git_*` variables, in order: branch (`HEAD` where detached), tracking
/// (`(behind.N)` before `(ahead.N)`, none when even), clean (`:✔`) or dirty (`:+S+U`,
/// `:+S`, `:+U`) status, and the age of the last commit (`:2h`).
pub open spec fn git_entries(branch: Option<Seq<char>>, ahead_behind: Option<(u32, u32)>, staged: nat, unstaged: nat, elapsed: Option<Seq<char>>) -> Seq<(Seq<char>, Seq<char>)> {
    seq![("git_branch"@, match branch {
        Some(b) => b,
        None => "HEAD"@,
    })] + (match ahead_behind {
        Some((a, b)) => if b > 0 {
            seq![("git_tracking"@, "(behind."@ + dec_string(b as nat) + ")"@)]
        } else if a > 0 {
            seq![("git_tracking"@, "(ahead."@ + dec_string(a as nat) + ")"@)]
        } else {
            Seq::empty()
        },
        None => Seq::empty(),
    }) + (if staged == 0 && unstaged == 0 {
        seq![("git_status_clean"@, ":✔"@)]
    } else if staged > 0 && unstaged > 0 {
        seq![("git_status_dirty"@, ":+"@ + dec_string(staged) + "+"@ + dec_string(unstaged))]
    } else if staged > 0 {
        seq![("git_status_dirty"@, ":+"@ + dec_string(staged))]
    } else {
        seq![("git_status_dirty"@, ":+"@ + dec_string(unstaged))]
    }) + (match elapsed {
        Some(e) => seq![("git_elapsed"@, ":"@ + e)],
        None => Seq::empty(),
    })
}

/// The outcome of the git provider for a probe: an error only when validating without
/// git; no variables outside a repository.
pub open spec fn git_outcome(p: GitProbe, validate: bool) -> Result<Seq<(Seq<char>, Seq<char>)>, ()> {
    if !p.available {
        if validate {
            Err(())
        } else {
            Ok(Seq::empty())
        }
    } else if !p.in_repo {
        Ok(Seq::empty())
    } else {
        let st = status_of(p.status.success, p.status.stdout@);
        Ok(git_entries(
            branch_of(p.branch.success, p.branch.stdout@),
            ahead_behind_of(p.ahead_behind.success, p.ahead_behind.stdout@),
            st.0,
            st.1,
            elapsed_of(p.last_commit.success, p.last_commit.stdout@, p.now_secs),
        ))
    }
}

impl GitProvider {
    pub fn new() -> (p: Self) {
        GitProvider
    }

    /// A duration in its largest whole unit (`2s`, `5m`, `17h`).
    pub fn format_duration(seconds: u64) -> (s: String)
        ensures
            s@ == duration_text(seconds as nat),
    {
        if seconds < 60 {
            joined(u64_to_string(seconds).as_str(), "s")
        } else if seconds < 3600 {
            joined(u64_to_string(seconds / 60).as_str(), "m")
        } else {
            joined(u64_to_string(seconds / 3600).as_str(), "h")
        }
    }

    /// The time since the last commit.
    pub fn elapsed_time(out: &GitOutput, now_secs: Option<u64>) -> (r: Option<String>)
        ensures
            match elapsed_of(out.success, out.stdout@, now_secs) {
                Some(e) => r matches Some(s) && s@ == e,
                None => r is None,
            },
    {
        if !out.success {
            return None;
        }
        let ts = parse_u64(string_from(&trim_exec(&chars_of(out.stdout.as_str()))).as_str());
        match (ts, now_secs) {
            (Some(t), Some(n)) => Some(Self::format_duration(n.saturating_sub(t))),
            _ => None,
        }
    }

    /// The git variables from the command outputs: `Err` only where git is missing and the
    /// configuration is being validated.
    pub fn collect(&self, probe: &GitProbe, validate: bool) -> (r: ProviderResult<Vars>)
        ensures
            match git_outcome(*probe, validate) {
                Ok(e) => r matches Ok(v) && v@ == e,
                Err(_) => r matches Err(ProviderError::CommandNotFound(m)) && m@ == "git command not found"@,
            },
    {
        let mut vars = Vars::new();
        if !probe.available {
            if validate {
                return Err(ProviderError::CommandNotFound(owned("git command not found")));
            } else {
                return Ok(vars);
            }
        }
        if !probe.in_repo {
            return Ok(vars);
        }
        let branch = match parse_branch(&probe.branch) {
            Some(b) => b,
            None => owned("HEAD"),
        };
        vars.insert(owned("git_branch"), branch);
        match parse_ahead_behind(&probe.ahead_behind) {
            Some((ahead, behind)) => {
                if behind > 0 {
                    vars.insert(owned("git_tracking"), joined3("(behind.", u64_to_string(behind as u64).as_str(), ")"));
                } else if ahead > 0 {
                    vars.insert(owned("git_tracking"), joined3("(ahead.", u64_to_string(ahead as u64).as_str(), ")"));
                }
            },
            None => {},
        }
        let (staged, unstaged) = parse_status(&probe.status);
        if staged == 0 && unstaged == 0 {
            vars.insert(owned("git_status_clean"), owned(":✔"));
        } else if staged > 0 && unstaged > 0 {
            let s = joined3(":+", u64_to_string(staged as u64).as_str(), "+");
            vars.insert(owned("git_status_dirty"), joined(s.as_str(), u64_to_string(unstaged as u64).as_str()));
        } else if staged > 0 {
            vars.insert(owned("git_status_dirty"), joined(":+", u64_to_string(staged as u64).as_str()));
        } else {
            vars.insert(owned("git_status_dirty"), joined(":+", u64_to_string(unstaged as u64).as_str()));
        }
        match Self::elapsed_time(&probe.last_commit, probe.now_secs) {
            Some(e) => {
                vars.insert(owned("git_elapsed"), joined(":", e.as_str()));
            },
            None => {},
        }
        Ok(vars)
    }
}

impl Provider for GitProvider {
    open spec fn name_spec(&self) -> Seq<char> {
        "git"@
    }

    open spec fn sections_spec(&self) -> Seq<Seq<char>> {
        seq!["git"@]
    }

    open spec fn defaults_spec(&self) -> Seq<(Seq<char>, (nat, Seq<char>, bool))> {
        seq![("git"@, (0, Seq::empty(), false))]
    }

    open spec fn cacheable_spec(&self) -> bool {
        false
    }

    open spec fn cache_duration_spec(&self) -> u64 {
        5
    }

    fn name(&self) -> (s: &str) {
        "git"
    }

    fn sections(&self) -> (v: Vec<&str>) {
        let v = vec!["git"];
        assert(str_views(v@) =~= self.sections_spec());
        v
    }

    fn default_config(&self) -> (d: Vec<(String, SectionDefaults)>) {
        let d = vec![(owned("git"), SectionDefaults::Empty)];
        assert(defaults_views(d@) =~= self.defaults_spec());
        d
    }

    fn cacheable(&self) -> (b: bool) {
        false
    }

    fn cache_duration(&self) -> (d: u64) {
        5
    }
}

} // verus!
