//! The git section of the configuration and the indicators built from git's answers.

use vstd::prelude::*;
use crate::text::{chars_of, extend, string_from, lines, lines_exec, views, joined};
use crate::numbers::{dec_string, u64_to_string, parse_nat, parse_u64, unsigned_digits, all_digits};
use crate::variable::ConfigWithName;

verus! {

broadcast use vstd::string::group_string_axioms;

/// What went wrong with git.
#[derive(Debug)]
pub enum GitError {
    NotGitRepo,
    CommandFailed(String),
    ParseError(String),
}

impl GitError {
    /// The message of the error.
    pub fn to_string(&self) -> (s: String)
        ensures
            (match self {
                GitError::NotGitRepo => s@ == "Not a git repository"@,
                GitError::CommandFailed(c) => s@ == "Git command failed: "@ + c@,
                GitError::ParseError(m) => s@ == "Failed to parse git output: "@ + m@,
            }),
    {
        match self {
            GitError::NotGitRepo => string_from(&chars_of("Not a git repository")),
            GitError::CommandFailed(c) => joined("Git command failed: ", c.as_str()),
            GitError::ParseError(m) => joined("Failed to parse git output: ", m.as_str()),
        }
    }
}

/// A `[[git]]` section: a variable name, the format of the git text, and the text shown
/// where git fails.
pub struct Config {
    pub name: Option<String>,
    pub format: String,
    pub error: String,
}

impl Default for Config {
    fn default() -> (c: Self)
        ensures
            c.name is None,
            c.format@ == Seq::<char>::empty(),
            c.error@ == Seq::<char>::empty(),
    {
        Config { name: None, format: String::new(), error: String::new() }
    }
}

/// The format a `[[git]]` section has where none is written.
pub fn default_format() -> (s: String)
    ensures
        s@ == "{git_branch}{git_state}{git_changes}{git_remote}{git_stash}"@,
{
    string_from(&chars_of("{git_branch}{git_state}{git_changes}{git_remote}{git_stash}"))
}

/// The error text a `[[git]]` section has where none is written.
pub fn default_error() -> (s: String)
    ensures
        s@ == Seq::<char>::empty(),
{
    String::new()
}

impl ConfigWithName for Config {
    open spec fn name_spec(&self) -> Option<Seq<char>> {
        match self.name {
            Some(n) => Some(n@),
            None => None,
        }
    }

    open spec fn error_spec(&self) -> Seq<char> {
        self.error@
    }

    fn name(&self) -> (r: Option<&str>) {
        match &self.name {
            Some(n) => Some(n.as_str()),
            None => None,
        }
    }

    fn error(&self) -> (r: &str) {
        self.error.as_str()
    }
}

/// The provider of the git section's variables.
pub struct GitProvider;

impl GitProvider {
    /// The name of the section.
    pub fn section_name() -> (s: &'static str)
        ensures
            s@ == "git"@,
    {
        "git"
    }

    /// The variables the section knows.
    pub fn variable_names() -> (v: Vec<&'static str>)
        ensures
            v@.len() == 11,
    {
        vec![
            "git_branch",
            "git_state",
            "git_changes",
            "git_staged",
            "git_unstaged",
            "git_untracked",
            "git_remote",
            "git_ahead",
            "git_behind",
            "git_stash",
            "git_stash_count",
        ]
    }
}

/// The changes indicator: empty for a clean tree, else a space, `*` for unstaged changes
/// and `+N` for N staged ones.
pub open spec fn changes_text(staged: nat, unstaged: nat) -> Seq<char> {
    if unstaged > 0 || staged > 0 {
        seq![' '] + (if unstaged > 0 {
            seq!['*']
        } else {
            Seq::empty()
        }) + (if staged > 0 {
            seq!['+'] + dec_string(staged)
        } else {
            Seq::empty()
        })
    } else {
        Seq::empty()
    }
}

/// The changes indicator for the staged and unstaged counts.
pub fn get_changes_indicator(staged: usize, unstaged: usize) -> (s: String)
    ensures
        s@ == changes_text(staged as nat, unstaged as nat),
{
    let mut v: Vec<char> = Vec::new();
    if unstaged > 0 || staged > 0 {
        v.push(' ');
        if unstaged > 0 {
            v.push('*');
        }
        if staged > 0 {
            v.push('+');
            extend(&mut v, &chars_of(u64_to_string(staged as u64).as_str()));
        }
    }
    proof {
        if unstaged > 0 || staged > 0 {
            assert(v@ =~= changes_text(staged as nat, unstaged as nat));
        }
    }
    string_from(&v)
}

/// The remote indicator: empty without an upstream or when even with it, else ` ↑A`,
/// ` ↓B` or ` ↕A,B`.
pub open spec fn remote_text(upstream: bool, ahead: nat, behind: nat) -> Seq<char> {
    if !upstream || (ahead == 0 && behind == 0) {
        Seq::empty()
    } else if behind == 0 {
        " ↑"@ + dec_string(ahead)
    } else if ahead == 0 {
        " ↓"@ + dec_string(behind)
    } else {
        " ↕"@ + dec_string(ahead) + ","@ + dec_string(behind)
    }
}

/// The remote indicator for the commits ahead of and behind the upstream.
pub fn get_remote_status(has_upstream: bool, ahead: usize, behind: usize) -> (s: String)
    ensures
        s@ == remote_text(has_upstream, ahead as nat, behind as nat),
{
    if !has_upstream || (ahead == 0 && behind == 0) {
        String::new()
    } else if behind == 0 {
        joined(" ↑", u64_to_string(ahead as u64).as_str())
    } else if ahead == 0 {
        joined(" ↓", u64_to_string(behind as u64).as_str())
    } else {
        let a = joined(" ↕", u64_to_string(ahead as u64).as_str());
        let b = joined(a.as_str(), ",");
        joined(b.as_str(), u64_to_string(behind as u64).as_str())
    }
}

/// The stash indicator: ` $N` for N stashes, empty for none.
pub fn get_stash_indicator(count: usize) -> (s: String)
    ensures
        s@ == (if count > 0 {
            " $"@ + dec_string(count as nat)
        } else {
            Seq::empty()
        }),
{
    if count > 0 {
        joined(" $", u64_to_string(count as u64).as_str())
    } else {
        String::new()
    }
}

/// The number of lines git printed (`str::lines().count()`).
pub fn count_lines(output: &str) -> (n: usize)
    ensures
        n == lines(output@).len(),
{
    let ls = lines_exec(&chars_of(output));
    assert(views(ls@).len() == ls@.len());
    ls.len()
}

/// Whether git listed any untracked file (printed anything).
pub fn has_untracked(output: &str) -> (b: bool)
    ensures
        b == (output@.len() > 0),
{
    chars_of(output).len() > 0
}

/// The text of an integer parse failure, by its cause.
pub open spec fn parse_failure_text(s: Seq<char>) -> Seq<char> {
    if s.len() == 0 {
        "cannot parse integer from empty string"@
    } else if unsigned_digits(s).len() == 0 || !all_digits(unsigned_digits(s)) {
        "invalid digit found in string"@
    } else {
        "number too large to fit in target type"@
    }
}

/// A count git printed (`usize` parsing), or the parse failure.
pub fn parse_count(output: &str) -> (r: Result<usize, GitError>)
    ensures
        match parse_nat(output@) {
            Some(v) => if v <= usize::MAX {
                r == Ok::<usize, GitError>(v as usize)
            } else {
                r matches Err(GitError::ParseError(m)) && m@ == parse_failure_text(output@)
            },
            None => r matches Err(GitError::ParseError(m)) && m@ == parse_failure_text(output@),
        },
{
    match parse_u64(output) {
        Some(v) => if v <= usize::MAX as u64 {
            Ok(v as usize)
        } else {
            Err(GitError::ParseError(failure_text(output)))
        },
        None => Err(GitError::ParseError(failure_text(output))),
    }
}

fn failure_text(s: &str) -> (t: String)
    ensures
        t@ == parse_failure_text(s@),
{
    let c = chars_of(s);
    if c.len() == 0 {
        return string_from(&chars_of("cannot parse integer from empty string"));
    }
    let start: usize = if c[0] == '+' {
        1
    } else {
        0
    };
    let mut ok = start < c.len();
    let mut k = start;
    while k < c.len()
        invariant
            start <= k <= c@.len(),
            c@ == s@,
            unsigned_digits(s@) =~= c@.subrange(start as int, c@.len() as int),
            ok == (start < c@.len() && forall|i: int| start <= i < k ==> ('0' <= #[trigger] c@[i] <= '9')),
        decreases c@.len() - k,
    {
        if !('0' <= c[k] && c[k] <= '9') {
            ok = false;
        }
        k = k + 1;
    }
    proof {
        let d = unsigned_digits(s@);
        if ok {
            assert forall|i: int| 0 <= i < d.len() implies crate::numbers::is_digit(#[trigger] d[i]) by {
                assert(d[i] == c@[start + i]);
            }
        } else if start < c@.len() {
            let i = choose|i: int| start <= i < k && !('0' <= #[trigger] c@[i] <= '9');
            assert(d[i - start] == c@[i]);
            assert(!crate::numbers::is_digit(d[i - start]));
        }
    }
    if ok {
        string_from(&chars_of("number too large to fit in target type"))
    } else {
        string_from(&chars_of("invalid digit found in string"))
    }
}

/// The state marker files of a repository, in the order they are checked, and the state
/// each means.
pub open spec fn state_names() -> Seq<Seq<char>> {
    seq!["MERGING"@, "REBASING"@, "CHERRY-PICKING"@, "REVERTING"@, "BISECTING"@]
}

/// The state of the first marker present (`present[i]` for the i-th of MERGE_HEAD,
/// REBASE_HEAD, CHERRY_PICK_HEAD, REVERT_HEAD, BISECT_LOG), or empty.
pub open spec fn repo_state_text(present: Seq<bool>) -> Seq<char>
    decreases present.len(),
{
    repo_state_from(present, 0)
}

/// The state of the first marker present from `i` on.
pub open spec fn repo_state_from(present: Seq<bool>, i: int) -> Seq<char>
    decreases 5 - i,
{
    if i < 0 || i >= 5 || i >= present.len() {
        Seq::empty()
    } else if present[i] {
        state_names()[i]
    } else {
        repo_state_from(present, i + 1)
    }
}

/// The repository state for the markers found in the git directory.
pub fn get_repo_state(present: &[bool]) -> (s: String)
    ensures
        s@ == repo_state_text(present@),
{
    let names = ["MERGING", "REBASING", "CHERRY-PICKING", "REVERTING", "BISECTING"];
    let mut i: usize = 0;
    while i < 5 && i < present.len()
        invariant
            i <= 5,
            repo_state_text(present@) == repo_state_from(present@, i as int),
            names@[0]@ == state_names()[0],
            names@[1]@ == state_names()[1],
            names@[2]@ == state_names()[2],
            names@[3]@ == state_names()[3],
            names@[4]@ == state_names()[4],
            names@.len() == 5,
        decreases 5 - i,
    {
        if present[i] {
            return string_from(&chars_of(names[i]));
        }
        i = i + 1;
    }
    String::new()
}

} // verus!
