//! Colours chosen by the value they colour: exact values, glob patterns and a default.

use vstd::prelude::*;
use crate::text::{chars_of, eq_chars, contains, contains_exec};

verus! {

broadcast use vstd::string::group_string_axioms;

/// Whether `glob` reads the pattern and it matches the value.
pub uninterp spec fn glob_match(pattern: Seq<char>, value: Seq<char>) -> bool;

/// `glob::Pattern::new(pattern)` then `matches(value)`, false where the pattern is not a
/// valid glob. The result is the name `glob_match` of the pattern and the value.
#[verifier::external_body]
fn glob_matches(pattern: &str, value: &str) -> (b: bool)
    ensures
        b == glob_match(pattern@, value@),
{
    match glob::Pattern::new(pattern) {
        Ok(p) => p.matches(value),
        Err(_) => false,
    }
}

/// A colour for a value (`Some`), or the default colour (`None`).
pub struct ColorCondition {
    pub value: Option<String>,
    pub color: String,
}

/// The colour conditions, in order.
pub struct ColorConfig {
    pub colors: Vec<ColorCondition>,
}

impl Default for ColorConfig {
    fn default() -> (c: Self)
        ensures
            c.colors@.len() == 0,
    {
        ColorConfig { colors: Vec::new() }
    }
}

/// The index of the first condition whose value is exactly `v`.
pub open spec fn first_exact(cs: Seq<ColorCondition>, v: Seq<char>, from: int) -> Option<int>
    decreases cs.len() - from,
{
    if from < 0 || from >= cs.len() {
        None
    } else if cs[from].value matches Some(p) && p@ == v {
        Some(from)
    } else {
        first_exact(cs, v, from + 1)
    }
}

/// The index of the first condition whose value holds `*` and matches `v` as a glob.
pub open spec fn first_glob(cs: Seq<ColorCondition>, v: Seq<char>, from: int) -> Option<int>
    decreases cs.len() - from,
{
    if from < 0 || from >= cs.len() {
        None
    } else if cs[from].value matches Some(p) && contains(p@, seq!['*']) && glob_match(p@, v) {
        Some(from)
    } else {
        first_glob(cs, v, from + 1)
    }
}

/// The index of the first condition without a value.
pub open spec fn first_default(cs: Seq<ColorCondition>, from: int) -> Option<int>
    decreases cs.len() - from,
{
    if from < 0 || from >= cs.len() {
        None
    } else if cs[from].value is None {
        Some(from)
    } else {
        first_default(cs, from + 1)
    }
}

/// The condition that colours `v`: the first exact match, else the first matching glob
/// pattern, else the first default.
pub open spec fn chosen_condition(cs: Seq<ColorCondition>, v: Seq<char>) -> Option<int> {
    match first_exact(cs, v, 0) {
        Some(i) => Some(i),
        None => match first_glob(cs, v, 0) {
            Some(i) => Some(i),
            None => first_default(cs, 0),
        },
    }
}

impl ColorConfig {
    /// The colour for a value: of the first condition with exactly that value, else of the
    /// first pattern with `*` that matches it as a glob, else of the first default.
    pub fn get_color_for_value(&self, value: &str) -> (r: Option<&str>)
        ensures
            match chosen_condition(self.colors@, value@) {
                Some(i) => r matches Some(c) && c@ == self.colors@[i].color@,
                None => r is None,
            },
    {
        let cs = &self.colors;
        let v = chars_of(value);
        let star = vec!['*'];
        let mut k: usize = 0;
        while k < cs.len()
            invariant
                k <= cs@.len(),
                cs@ == self.colors@,
                v@ == value@,
                first_exact(cs@, value@, 0) == first_exact(cs@, value@, k as int),
            decreases cs@.len() - k,
        {
            if let Some(p) = &cs[k].value {
                if eq_chars(&chars_of(p.as_str()), &v) {
                    assert(first_exact(cs@, value@, k as int) == Some(k as int));
                    return Some(cs[k].color.as_str());
                }
            }
            k = k + 1;
        }
        let mut k: usize = 0;
        while k < cs.len()
            invariant
                k <= cs@.len(),
                cs@ == self.colors@,
                star@ == seq!['*'],
                first_exact(cs@, value@, 0) is None,
                first_glob(cs@, value@, 0) == first_glob(cs@, value@, k as int),
            decreases cs@.len() - k,
        {
            if let Some(p) = &cs[k].value {
                if contains_exec(&chars_of(p.as_str()), &star) && glob_matches(p.as_str(), value) {
                    assert(first_glob(cs@, value@, k as int) == Some(k as int));
                    return Some(cs[k].color.as_str());
                }
            }
            k = k + 1;
        }
        let mut k: usize = 0;
        while k < cs.len()
            invariant
                k <= cs@.len(),
                cs@ == self.colors@,
                first_exact(cs@, value@, 0) is None,
                first_glob(cs@, value@, 0) is None,
                first_default(cs@, 0) == first_default(cs@, k as int),
            decreases cs@.len() - k,
        {
            if cs[k].value.is_none() {
                assert(first_default(cs@, k as int) == Some(k as int));
                return Some(cs[k].color.as_str());
            }
            k = k + 1;
        }
        None
    }
}

} // verus!
