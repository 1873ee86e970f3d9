//! A table of named values (prompt variables, environment variables), where a later entry
//! under a name replaces an earlier one.

use vstd::prelude::*;
use crate::text::{chars_of, eq_chars};

verus! {

broadcast use vstd::string::group_string_axioms;

/// The value of the last entry named `k`.
pub open spec fn lookup(entries: Seq<(String, String)>, k: Seq<char>) -> Option<Seq<char>>
    decreases entries.len(),
{
    if entries.len() == 0 {
        None
    } else if entries.last().0@ == k {
        Some(entries.last().1@)
    } else {
        lookup(entries.drop_last(), k)
    }
}

/// Named values; inserting a name that is present replaces its value.
pub struct Vars {
    pub entries: Vec<(String, String)>,
}

/// The entries as plain values, in order of insertion.
pub open spec fn entry_views(e: Seq<(String, String)>) -> Seq<(Seq<char>, Seq<char>)> {
    e.map_values(|p: (String, String)| (p.0@, p.1@))
}

impl View for Vars {
    type V = Seq<(Seq<char>, Seq<char>)>;

    open spec fn view(&self) -> Seq<(Seq<char>, Seq<char>)> {
        entry_views(self.entries@)
    }
}

impl Vars {
    /// The value under `k`.
    pub open spec fn get_spec(&self, k: Seq<char>) -> Option<Seq<char>> {
        lookup(self.entries@, k)
    }

    /// No values.
    pub fn new() -> (v: Vars)
        ensures
            forall|k: Seq<char>| v.get_spec(k) is None,
            v@ == Seq::<(Seq<char>, Seq<char>)>::empty(),
    {
        Vars { entries: Vec::new() }
    }

    /// Sets the value under `k` to `v`.
    pub fn insert(&mut self, k: String, v: String)
        ensures
            final(self).get_spec(k@) == Some(v@),
            forall|q: Seq<char>| q != k@ ==> final(self).get_spec(q) == old(self).get_spec(q),
            final(self)@ == old(self)@.push((k@, v@)),
    {
        let ghost before = self.entries@;
        let ghost kv = (k@, v@);
        self.entries.push((k, v));
        proof {
            assert(self.entries@.drop_last() =~= before);
            assert(entry_views(self.entries@) =~= entry_views(before).push(kv));
        }
    }

    /// The value under `k`.
    pub fn get(&self, k: &str) -> (r: Option<&String>)
        ensures
            match self.get_spec(k@) {
                Some(v) => r matches Some(s) && s@ == v,
                None => r is None,
            },
    {
        let kc = chars_of(k);
        let mut i = self.entries.len();
        assert(self.entries@.take(i as int) =~= self.entries@);
        while i > 0
            invariant
                i <= self.entries@.len(),
                kc@ == k@,
                lookup(self.entries@, k@) == lookup(self.entries@.take(i as int), k@),
            decreases i,
        {
            proof {
                assert(self.entries@.take(i as int).drop_last() =~= self.entries@.take(i - 1 as int));
            }
            if eq_chars(&chars_of(self.entries[i - 1].0.as_str()), &kc) {
                return Some(&self.entries[i - 1].1);
            }
            i = i - 1;
        }
        None
    }

    /// Whether a value is stored under `k`.
    pub fn contains_key(&self, k: &str) -> (b: bool)
        ensures
            b == (self.get_spec(k@) is Some),
    {
        self.get(k).is_some()
    }

    /// Inserts every entry of `other`, in its order.
    pub fn extend(&mut self, other: Vars)
        ensures
            forall|q: Seq<char>| #[trigger] final(self).get_spec(q) == match other.get_spec(q) {
                Some(v) => Some(v),
                None => old(self).get_spec(q),
            },
            final(self)@ == old(self)@ + other@,
    {
        let ghost before = self.entries@;
        let mut k: usize = 0;
        let n = other.entries.len();
        while k < n
            invariant
                n == other.entries@.len(),
                k <= n,
                self.entries@ == before + other.entries@.take(k as int),
            decreases n - k,
        {
            let (a, b) = (other.entries[k].0.clone(), other.entries[k].1.clone());
            self.entries.push((a, b));
            proof {
                assert(self.entries@ =~= before + other.entries@.take(k + 1 as int));
            }
            k = k + 1;
        }
        assert(other.entries@.take(k as int) =~= other.entries@);
        assert(entry_views(self.entries@) =~= entry_views(before) + entry_views(other.entries@));
        proof {
            assert forall|q: Seq<char>| #[trigger] lookup(before + other.entries@, q) == match lookup(other.entries@, q) {
                Some(v) => Some(v),
                None => lookup(before, q),
            } by {
                lemma_lookup_append(before, other.entries@, q);
            }
        }
    }
}

pub proof fn lemma_lookup_append(a: Seq<(String, String)>, b: Seq<(String, String)>, q: Seq<char>)
    ensures
        lookup(a + b, q) == match lookup(b, q) {
            Some(v) => Some(v),
            None => lookup(a, q),
        },
    decreases b.len(),
{
    if b.len() == 0 {
        assert(a + b =~= a);
    } else {
        assert((a + b).drop_last() =~= a + b.drop_last());
        lemma_lookup_append(a, b.drop_last(), q);
    }
}

} // verus!
