//! Properties of the library as a whole, stated over the specifications of its functions.

use vstd::prelude::*;
use crate::numbers::{dec_string, digit_char, digits_value, parse_nat, unsigned_digits, all_digits, is_digit};
use crate::providers::{Provider, standard_owner, standard_provider};
use crate::render::dedup;
use crate::sections::sections_applied;
use crate::shell::{Formatter, ShellFormatter};
use crate::config::Config;

verus! {

broadcast use vstd::string::group_string_axioms;

proof fn lemma_digit_char(d: nat)
    requires
        d < 10,
    ensures
        is_digit(digit_char(d)),
        crate::numbers::digit_value(digit_char(d)) == d,
{
}

proof fn lemma_dec_string_digits(n: nat)
    ensures
        dec_string(n).len() > 0,
        all_digits(dec_string(n)),
        dec_string(n)[0] != '+',
        digits_value(dec_string(n)) == n,
    decreases n,
{
    lemma_digit_char(n % 10);
    if n < 10 {
        lemma_digit_char(n);
        assert(seq![digit_char(n)].drop_last() =~= Seq::<char>::empty());
        assert(seq![digit_char(n)].last() == digit_char(n));
        assert(digits_value(Seq::<char>::empty()) == 0);
        assert(digits_value(seq![digit_char(n)].drop_last()) == 0);
        assert(digits_value(seq![digit_char(n)]) == n);
        assert(dec_string(n) == seq![digit_char(n)]);
    }
    if n >= 10 {
        lemma_dec_string_digits(n / 10);
        let d = dec_string(n / 10);
        let s = d.push(digit_char(n % 10));
        assert(s.drop_last() =~= d);
        assert(s.last() == digit_char(n % 10));
        assert(digits_value(s) == digits_value(d) * 10 + crate::numbers::digit_value(digit_char(n % 10)));
        assert(n == (n / 10) * 10 + n % 10) by (nonlinear_arith);
        assert forall|i: int| 0 <= i < s.len() implies is_digit(#[trigger] s[i]) by {
            if i < d.len() {
                assert(s[i] == d[i]);
            }
        }
        assert(s[0] == d[0]);
        assert(dec_string(n) == s);
    }
}

/// Writing a number in decimal and reading it back gives the number: `parse_u64` and
/// `parse_u32` undo `u64_to_string` (for values in range).
pub proof fn law_decimal_round_trip(n: nat)
    ensures
        parse_nat(dec_string(n)) == Some(n),
{
    lemma_dec_string_digits(n);
    assert(unsigned_digits(dec_string(n)) == dec_string(n));
}

/// Raw and bash output needs no post-processing: finalizing with the raw or the bash
/// formatter leaves the text as it is.
pub proof fn law_finalize_identity_raw_bash(f: Formatter, output: Seq<char>)
    requires
        f is Raw || f is Bash,
    ensures
        f.finalize_spec(output) == output,
{
}

/// Every section that a built-in provider handles is routed to it by the standard
/// registry, and every routed section belongs to the provider it is routed to.
pub proof fn law_standard_routing(section: Seq<char>)
    ensures
        standard_owner(section) matches Some(n) ==> (standard_provider(n) matches Some(p)
            && p.name_spec() == n && p.sections_spec().contains(section)),
        forall|n: Seq<char>| #[trigger] provider_sections(n).contains(section) ==> standard_owner(section) == Some(n),
{
    reveal_strlit("time");
    reveal_strlit("hostname");
    reveal_strlit("cwd");
    reveal_strlit("git");
    reveal_strlit("ip");
    reveal_strlit("battery");
    reveal_strlit("builtin");
    assert("git"@[0] != "cwd"@[0]);
    assert("builtin"@[1] != "battery"@[1]);
    let b3 = seq!["time"@, "hostname"@, "cwd"@];
    if section == "time"@ {
        assert(b3[0] == section);
    }
    if section == "hostname"@ {
        assert(b3[1] == section);
    }
    if section == "cwd"@ {
        assert(b3[2] == section);
    }
    if section == "git"@ {
        assert(seq!["git"@][0] == section);
    }
    if section == "ip"@ {
        assert(seq!["ip"@][0] == section);
    }
    if section == "battery"@ {
        assert(seq!["battery"@][0] == section);
    }
    assert forall|n: Seq<char>| #[trigger] provider_sections(n).contains(section) implies standard_owner(section) == Some(n) by {
        let ps = provider_sections(n);
        let k = choose|k: int| 0 <= k < ps.len() && #[trigger] ps[k] == section;
    }
}

/// The sections of the standard provider with a given name (none for another name).
pub open spec fn provider_sections(n: Seq<char>) -> Seq<Seq<char>> {
    match standard_provider(n) {
        Some(p) => p.sections_spec(),
        None => Seq::empty(),
    }
}

/// `dedup` keeps each item once: the result has no repeats and holds exactly the items
/// of its input (so `discover_variables`, `determine_providers` and `list_providers`
/// name each thing once, and leave nothing out).
pub proof fn law_dedup(s: Seq<Seq<char>>)
    ensures
        forall|i: int, j: int| 0 <= i < j < dedup(s).len() ==> dedup(s)[i] != dedup(s)[j],
        forall|x: Seq<char>| #[trigger] dedup(s).contains(x) <==> s.contains(x),
    decreases s.len(),
{
    if s.len() > 0 {
        let d = dedup(s.drop_last());
        law_dedup(s.drop_last());
        assert forall|x: Seq<char>| #[trigger] s.contains(x) <==> (s.drop_last().contains(x) || x == s.last()) by {
            if s.contains(x) {
                let k = choose|k: int| 0 <= k < s.len() && s[k] == x;
                if k < s.len() - 1 {
                    assert(s.drop_last()[k] == x);
                }
            }
            if s.drop_last().contains(x) {
                let k = choose|k: int| 0 <= k < s.drop_last().len() && s.drop_last()[k] == x;
                assert(s[k] == x);
            }
            if x == s.last() {
                assert(s[s.len() - 1] == x);
            }
        }
        if !d.contains(s.last()) {
            let e = d.push(s.last());
            assert forall|x: Seq<char>| #[trigger] e.contains(x) <==> (d.contains(x) || x == s.last()) by {
                if e.contains(x) {
                    let k = choose|k: int| 0 <= k < e.len() && e[k] == x;
                    if k < d.len() {
                        assert(d[k] == x);
                    }
                }
                if d.contains(x) {
                    let k = choose|k: int| 0 <= k < d.len() && d[k] == x;
                    assert(e[k] == x);
                }
                if x == s.last() {
                    assert(e[d.len() as int] == x);
                }
            }
            assert forall|i: int, j: int| 0 <= i < j < e.len() implies e[i] != e[j] by {
                if j == d.len() {
                    assert(e[i] == d[i]);
                }
            }
        }
    }
}

/// Adding the implicit sections a second time changes nothing: once a template's sections
/// are there, `apply_implicit_sections` leaves the configuration as it is.
pub proof fn law_implicit_sections_idempotent(c0: Config, c1: Config, c2: Config, wanted: spec_fn(Seq<char>) -> bool)
    requires
        sections_applied(c0, c1, wanted),
        sections_applied(c1, c2, wanted),
    ensures
        c2.time == c1.time,
        c2.hostname == c1.hostname,
        c2.cwd == c1.cwd,
        c2.git == c1.git,
        c2.ip == c1.ip,
        c2.battery == c1.battery,
        c2.prompt == c1.prompt,
{
}

} // verus!

verus! {

/// Text with no `{` and no `~`: nothing in it is a placeholder or a conditional space.
pub open spec fn plain_text(t: Seq<char>) -> bool {
    forall|i: int| 0 <= i < t.len() ==> #[trigger] t[i] != '{' && t[i] != '~'
}

proof fn lemma_plain_cond_spaces(t: Seq<char>, i: int, variables: crate::vars::Vars, env: crate::vars::Vars)
    requires
        plain_text(t),
        0 <= i <= t.len(),
    ensures
        crate::render::cond_spaces_from(t, i, variables, env) == t.subrange(i, t.len() as int),
    decreases t.len() - i,
{
    if i < t.len() {
        lemma_plain_cond_spaces(t, i + 1, variables, env);
        assert(t[i] != '~');
        if i + 1 < t.len() {
            assert(t[i + 1] != '~');
        }
        assert(t.subrange(i, t.len() as int) =~= seq![t[i]] + t.subrange(i + 1, t.len() as int));
    } else {
        assert(t.subrange(i, t.len() as int) =~= Seq::<char>::empty());
    }
}

proof fn lemma_plain_subst<F: ShellFormatter>(f: &F, t: Seq<char>, i: int, variables: crate::vars::Vars, env: crate::vars::Vars)
    requires
        plain_text(t),
        0 <= i <= t.len(),
    ensures
        crate::render::subst_from(f, t, i, variables, env) == t.subrange(i, t.len() as int),
    decreases t.len() - i,
{
    if i < t.len() {
        lemma_plain_subst(f, t, i + 1, variables, env);
        assert(t[i] != '{');
        assert(t.subrange(i, t.len() as int) =~= seq![t[i]] + t.subrange(i + 1, t.len() as int));
    } else {
        assert(t.subrange(i, t.len() as int) =~= Seq::<char>::empty());
    }
}

/// Text with no placeholder and no conditional space renders as itself, whatever the
/// variables, the environment and the shell.
pub proof fn law_plain_text_renders_unchanged<F: ShellFormatter>(f: &F, t: Seq<char>, variables: crate::vars::Vars, env: crate::vars::Vars)
    requires
        plain_text(t),
    ensures
        crate::render::substituted(f, t, variables, env) == t,
{
    lemma_plain_cond_spaces(t, 0, variables, env);
    assert(t.subrange(0, t.len() as int) =~= t);
    lemma_plain_subst(f, t, 0, variables, env);
}

/// `s` holds no `c`.
pub open spec fn lacks(s: Seq<char>, c: char) -> bool {
    forall|i: int| 0 <= i < s.len() ==> #[trigger] s[i] != c
}

proof fn lemma_replace_removes(s: Seq<char>, c: char, val: Seq<char>, pos: int)
    requires
        lacks(val, c),
        0 <= pos,
    ensures
        lacks(crate::text::replace_from(s, seq![c], val, pos), c),
    decreases s.len() + 1 - pos,
{
    crate::text::lemma_find_from(s, seq![c], pos);
    if pos <= s.len() {
        match crate::text::find_from(s, seq![c], pos) {
            None => {
                let r = s.subrange(pos, s.len() as int);
                assert forall|k: int| 0 <= k < r.len() implies #[trigger] r[k] != c by {
                    assert(!crate::text::occurs_at(s, seq![c], pos + k));
                    if s[pos + k] == c {
                        assert(s.subrange(pos + k, pos + k + 1) =~= seq![c]);
                    }
                }
            },
            Some(i) => {
                if pos <= i && i + 1 <= s.len() {
                    lemma_replace_removes(s, c, val, i + 1);
                    let a = s.subrange(pos, i);
                    let rest = crate::text::replace_from(s, seq![c], val, i + 1);
                    assert forall|k: int| 0 <= k < a.len() implies #[trigger] a[k] != c by {
                        assert(!crate::text::occurs_at(s, seq![c], pos + k));
                        if s[pos + k] == c {
                            assert(s.subrange(pos + k, pos + k + 1) =~= seq![c]);
                        }
                    }
                    let whole = a + val + rest;
                    assert forall|k: int| 0 <= k < whole.len() implies #[trigger] whole[k] != c by {
                        if k < a.len() {
                            assert(whole[k] == a[k]);
                        } else if k < a.len() + val.len() {
                            assert(whole[k] == val[k - a.len()]);
                        } else {
                            assert(whole[k] == rest[k - a.len() - val.len()]);
                        }
                    }
                }
            },
        }
    }
}

proof fn lemma_replace_keeps_absent(s: Seq<char>, pat: Seq<char>, c: char, val: Seq<char>, pos: int)
    requires
        lacks(s, c),
        lacks(val, c),
        0 <= pos,
    ensures
        lacks(crate::text::replace_from(s, pat, val, pos), c),
    decreases s.len() + 1 - pos,
{
    if pat.len() > 0 && pos <= s.len() {
        crate::text::lemma_find_from(s, pat, pos);
        match crate::text::find_from(s, pat, pos) {
            None => {
                let r = s.subrange(pos, s.len() as int);
                assert forall|k: int| 0 <= k < r.len() implies #[trigger] r[k] != c by {
                    assert(r[k] == s[pos + k]);
                }
            },
            Some(i) => {
                if pos <= i && i + pat.len() <= s.len() {
                    lemma_replace_keeps_absent(s, pat, c, val, i + pat.len());
                    let a = s.subrange(pos, i);
                    let rest = crate::text::replace_from(s, pat, val, i + pat.len());
                    let whole = a + val + rest;
                    assert forall|k: int| 0 <= k < whole.len() implies #[trigger] whole[k] != c by {
                        if k < a.len() {
                            assert(whole[k] == s[pos + k]);
                        } else if k < a.len() + val.len() {
                            assert(whole[k] == val[k - a.len()]);
                        } else {
                            assert(whole[k] == rest[k - a.len() - val.len()]);
                        }
                    }
                }
            },
        }
    }
}

/// A TCSH prompt holds no raw newline: `finalize` writes every line break as `\n`, and
/// the later escapes bring in none.
pub proof fn law_tcsh_prompt_single_line(output: Seq<char>)
    ensures
        lacks(crate::shell::tcsh::tcsh_finalize(output), '\n'),
{
    reveal_strlit("\n");
    reveal_strlit("\\n");
    reveal_strlit("\\!");
    reveal_strlit("%%");
    reveal_strlit("%{");
    reveal_strlit("%}");
    reveal_strlit("%} \\n");
    assert("\n"@ =~= seq!['\n']);
    let o1 = crate::text::replace(output, "\n"@, "\\n"@);
    lemma_replace_removes(output, '\n', "\\n"@, 0);
    let o2 = crate::text::replace(o1, "!"@, "\\!"@);
    lemma_replace_keeps_absent(o1, "!"@, '\n', "\\!"@, 0);
    let o3 = crate::text::replace(o2, "%"@, "%%"@);
    lemma_replace_keeps_absent(o2, "%"@, '\n', "%%"@, 0);
    let o4 = crate::text::replace(o3, "%%{"@, "%{"@);
    lemma_replace_keeps_absent(o3, "%%{"@, '\n', "%{"@, 0);
    let o5 = crate::text::replace(o4, "%%}"@, "%}"@);
    lemma_replace_keeps_absent(o4, "%%}"@, '\n', "%}"@, 0);
    lemma_replace_keeps_absent(o5, "%}\\n"@, '\n', "%} \\n"@, 0);
}

/// A Zsh prompt holds no raw newline: `finalize` writes every line break as `\n`.
pub proof fn law_zsh_prompt_single_line(output: Seq<char>)
    ensures
        lacks(crate::shell::ZshFormatter.finalize_spec(output), '\n'),
{
    reveal_strlit("\n");
    reveal_strlit("\\n");
    assert("\n"@ =~= seq!['\n']);
    lemma_replace_removes(output, '\n', "\\n"@, 0);
}

} // verus!

verus! {

use crate::providers::{name_lt, insert_by_name, sort_by_name};
use std::time::Duration;

proof fn lemma_name_lt_irrefl(a: Seq<char>)
    ensures
        !name_lt(a, a),
    decreases a.len(),
{
    if a.len() > 0 {
        lemma_name_lt_irrefl(a.drop_first());
    }
}

proof fn lemma_name_lt_trans(a: Seq<char>, b: Seq<char>, c: Seq<char>)
    requires
        name_lt(a, b),
        name_lt(b, c),
    ensures
        name_lt(a, c),
    decreases a.len(),
{
    if a.len() > 0 && b.len() > 0 && c.len() > 0 && a[0] == b[0] && b[0] == c[0] {
        lemma_name_lt_trans(a.drop_first(), b.drop_first(), c.drop_first());
    }
}

proof fn lemma_name_lt_total(a: Seq<char>, b: Seq<char>)
    requires
        a != b,
    ensures
        name_lt(a, b) || name_lt(b, a),
    decreases a.len(),
{
    if a.len() > 0 && b.len() > 0 && a[0] == b[0] {
        if a.drop_first() == b.drop_first() {
            assert(a =~= seq![a[0]] + a.drop_first());
            assert(b =~= seq![b[0]] + b.drop_first());
        }
        lemma_name_lt_total(a.drop_first(), b.drop_first());
    } else if a.len() > 0 && b.len() > 0 {
        vstd::utf8::char_u32_cast(a[0], a[0] as u32);
        vstd::utf8::char_u32_cast(b[0], b[0] as u32);
    } else if a.len() == 0 && b.len() == 0 {
        assert(a =~= b);
    }
}

proof fn lemma_name_lt_asym(a: Seq<char>, b: Seq<char>)
    requires
        name_lt(a, b),
    ensures
        !name_lt(b, a),
{
    if name_lt(b, a) {
        lemma_name_lt_trans(a, b, a);
        lemma_name_lt_irrefl(a);
    }
}

/// The timings are in order of name: no timing's name sorts before an earlier one's.
pub open spec fn sorted_by_name(s: Seq<(Seq<char>, Duration)>) -> bool {
    forall|i: int, j: int| 0 <= i < j < s.len() ==> !name_lt(#[trigger] s[j].0, #[trigger] s[i].0)
}

proof fn lemma_insert_multiset(s: Seq<(Seq<char>, Duration)>, x: (Seq<char>, Duration))
    ensures
        insert_by_name(s, x).to_multiset() == s.to_multiset().insert(x),
    decreases s.len(),
{
    broadcast use vstd::seq_lib::group_to_multiset_ensures;
    broadcast use vstd::multiset::group_multiset_axioms;

    if s.len() > 0 {
        if name_lt(x.0, s.last().0) {
            lemma_insert_multiset(s.drop_last(), x);
            assert(s.drop_last().push(s.last()) =~= s);
            assert(insert_by_name(s, x).to_multiset() =~= insert_by_name(s.drop_last(), x).to_multiset().insert(s.last()));
            assert(s.to_multiset() =~= s.drop_last().to_multiset().insert(s.last()));
        }
    } else {
        assert(seq![x] =~= Seq::<(Seq<char>, Duration)>::empty().push(x));
    }
}

proof fn lemma_insert_sorted(s: Seq<(Seq<char>, Duration)>, x: (Seq<char>, Duration))
    requires
        sorted_by_name(s),
    ensures
        sorted_by_name(insert_by_name(s, x)),
    decreases s.len(),
{
    broadcast use vstd::seq_lib::group_to_multiset_ensures;
    broadcast use vstd::multiset::group_multiset_axioms;

    if s.len() > 0 {
        let last = s.last();
        let d = s.drop_last();
        if name_lt(x.0, last.0) {
            assert(sorted_by_name(d)) by {
                assert forall|i: int, j: int| 0 <= i < j < d.len() implies !name_lt(#[trigger] d[j].0, #[trigger] d[i].0) by {
                    assert(d[i] == s[i] && d[j] == s[j]);
                }
            }
            lemma_insert_sorted(d, x);
            let m = insert_by_name(d, x);
            lemma_insert_multiset(d, x);
            let r = m.push(last);
            assert forall|k: int| 0 <= k < m.len() implies !name_lt(last.0, #[trigger] m[k].0) by {
                let e = m[k];
                assert(m.to_multiset().count(e) > 0);
                if e == x {
                    lemma_name_lt_asym(x.0, last.0);
                } else {
                    assert(d.to_multiset().count(e) > 0);
                    assert(d.contains(e));
                    let i = choose|i: int| 0 <= i < d.len() && d[i] == e;
                    assert(s[i] == e);
                    assert(s[s.len() - 1] == last);
                }
            }
            assert forall|i: int, j: int| 0 <= i < j < r.len() implies !name_lt(#[trigger] r[j].0, #[trigger] r[i].0) by {
                if j < m.len() {
                    assert(r[i] == m[i] && r[j] == m[j]);
                } else {
                    assert(r[j] == last && r[i] == m[i]);
                }
            }
        } else {
            let r = s.push(x);
            assert forall|i: int, j: int| 0 <= i < j < r.len() implies !name_lt(#[trigger] r[j].0, #[trigger] r[i].0) by {
                if j < s.len() {
                    assert(r[i] == s[i] && r[j] == s[j]);
                } else {
                    assert(r[j] == x && r[i] == s[i]);
                    if name_lt(x.0, s[i].0) {
                        if i == s.len() - 1 {
                        } else {
                            assert(!name_lt(s[s.len() - 1].0, s[i].0));
                            if s[i].0 != last.0 {
                                lemma_name_lt_total(s[i].0, last.0);
                                lemma_name_lt_trans(x.0, s[i].0, last.0);
                            }
                        }
                    }
                }
            }
        }
    }
}

/// The timings that `combine_collected` gives are sorted by provider name and are exactly
/// the timings of the providers that answered (the same items, each as often).
pub proof fn law_timings_sorted(s: Seq<(Seq<char>, Duration)>)
    ensures
        sorted_by_name(sort_by_name(s)),
        sort_by_name(s).to_multiset() == s.to_multiset(),
    decreases s.len(),
{
    broadcast use vstd::seq_lib::group_to_multiset_ensures;
    broadcast use vstd::multiset::group_multiset_axioms;

    if s.len() > 0 {
        law_timings_sorted(s.drop_last());
        lemma_insert_sorted(sort_by_name(s.drop_last()), s.last());
        lemma_insert_multiset(sort_by_name(s.drop_last()), s.last());
        assert(s.drop_last().push(s.last()) =~= s);
    } else {
        assert(sort_by_name(s).to_multiset() =~= s.to_multiset());
    }
}

} // verus!

verus! {

use crate::render::{ansi_code, style_codes, colorized};
use crate::validate::{strip_from, sgr_end, params_end};
use crate::text::{join, split_char};
use crate::report::{
    box_edge, debug_box_line, debug_box_lines, debug_box_width, debug_header, display_width, is_wide, larger,
    prompt_box_line, prompt_box_lines, prompt_box_width, repeated, wide_chars, widest, widest_display,
};

/// Every character is an ASCII digit or `;`: the parameters of an escape sequence.
pub open spec fn sgr_params(s: Seq<char>) -> bool {
    forall|i: int| 0 <= i < s.len() ==> ('0' <= #[trigger] s[i] <= '9') || s[i] == ';'
}

proof fn lemma_codes_are_params(parts: Seq<Seq<char>>)
    ensures
        forall|k: int| 0 <= k < style_codes(parts).len() ==> sgr_params(#[trigger] style_codes(parts)[k]),
    decreases parts.len(),
{
    if parts.len() > 0 {
        lemma_codes_are_params(parts.drop_last());
        let before = style_codes(parts.drop_last());
        reveal_strlit("30");
        reveal_strlit("31");
        reveal_strlit("32");
        reveal_strlit("33");
        reveal_strlit("34");
        reveal_strlit("35");
        reveal_strlit("36");
        reveal_strlit("37");
        reveal_strlit("90");
        reveal_strlit("91");
        reveal_strlit("92");
        reveal_strlit("93");
        reveal_strlit("94");
        reveal_strlit("95");
        reveal_strlit("96");
        reveal_strlit("97");
        reveal_strlit("1");
        reveal_strlit("2");
        reveal_strlit("3");
        reveal_strlit("4");
        reveal_strlit("0");
        match ansi_code(crate::text::trim(parts.last())) {
            Some(c) => {
                assert(sgr_params(c));
                assert forall|k: int| 0 <= k < before.push(c).len() implies sgr_params(#[trigger] before.push(c)[k]) by {
                    if k < before.len() {
                        assert(before.push(c)[k] == before[k]);
                    }
                }
            },
            None => {},
        }
    }
}

proof fn lemma_join_params(parts: Seq<Seq<char>>)
    requires
        forall|k: int| 0 <= k < parts.len() ==> sgr_params(#[trigger] parts[k]),
    ensures
        sgr_params(join(parts, seq![';'])),
    decreases parts.len(),
{
    if parts.len() > 1 {
        lemma_join_params(parts.drop_last());
        let a = join(parts.drop_last(), seq![';']);
        let b = parts.last();
        assert(sgr_params(b));
        let w = a + seq![';'] + b;
        assert forall|i: int| 0 <= i < w.len() implies ('0' <= #[trigger] w[i] <= '9') || w[i] == ';' by {
            if i < a.len() {
                assert(w[i] == a[i]);
            } else if i > a.len() {
                assert(w[i] == b[i - a.len() - 1]);
            }
        }
    } else if parts.len() == 1 {
        assert(sgr_params(parts[0]));
    }
}

proof fn lemma_params_end(t: Seq<char>, k: int, m: int)
    requires
        0 <= k <= m < t.len(),
        t[m] == 'm',
        forall|i: int| k <= i < m ==> ('0' <= #[trigger] t[i] <= '9') || t[i] == ';',
    ensures
        params_end(t, k) == m,
    decreases m - k,
{
    if k < m {
        lemma_params_end(t, k + 1, m);
    }
}

proof fn lemma_strip_plain(t: Seq<char>, i: int, end: int)
    requires
        0 <= i <= end <= t.len(),
        forall|k: int| i <= k < end ==> #[trigger] t[k] != '\x1b',
    ensures
        strip_from(t, i) == t.subrange(i, end) + strip_from(t, end),
    decreases end - i,
{
    if i < end {
        lemma_strip_plain(t, i + 1, end);
        assert(sgr_end(t, i) is None);
        assert(t.subrange(i, end) =~= seq![t[i]] + t.subrange(i + 1, end));
    } else {
        assert(t.subrange(i, end) =~= Seq::<char>::empty());
    }
}

/// Colour escapes take no room: stripping the escapes from coloured text (raw ANSI) gives
/// the text back, for text without escape characters of its own.
pub proof fn law_strip_undoes_colorize(text: Seq<char>, style: Seq<char>)
    requires
        forall|k: int| 0 <= k < text.len() ==> #[trigger] text[k] != '\x1b',
    ensures
        strip_from(colorized(&crate::shell::RawFormatter, text, style), 0) == text,
{
    reveal_strlit("\x1b[");
    reveal_strlit("m");
    reveal_strlit(";");
    reveal_strlit("\x1b[0m");
    let codes = style_codes(split_char(style, ','));
    if codes.len() == 0 {
        lemma_strip_plain(text, 0, text.len() as int);
        assert(text.subrange(0, text.len() as int) =~= text);
    } else {
        lemma_codes_are_params(split_char(style, ','));
        assert(";"@ =~= seq![';']);
        lemma_join_params(codes);
        let j = join(codes, ";"@);
        let open = "\x1b["@ + j + "m"@;
        let reset = "\x1b[0m"@;
        let t = open + text + reset;
        assert(t == colorized(&crate::shell::RawFormatter, text, style));
        let m: int = j.len() as int + 2;
        assert(t[m] == 'm');
        assert forall|i: int| 2 <= i < m implies ('0' <= #[trigger] t[i] <= '9') || t[i] == ';' by {
            assert(t[i] == j[i - 2]);
        }
        lemma_params_end(t, 2, m);
        assert(sgr_end(t, 0) == Some(m));
        let a = open.len() as int;
        let b: int = a + text.len() as int;
        assert forall|k: int| a <= k < b implies #[trigger] t[k] != '\x1b' by {
            assert(t[k] == text[k - a]);
        }
        lemma_strip_plain(t, a, b);
        assert(t.subrange(a, b) =~= text);
        assert(t[b] == '\x1b' && t[b + 1] == '[' && t[b + 2] == '0' && t[b + 3] == 'm');
        lemma_params_end(t, b + 2, b + 3);
        assert(sgr_end(t, b) == Some(b + 3));
        assert(b + 4 == t.len());
        assert(strip_from(t, b + 4) =~= Seq::<char>::empty());
    }
}


proof fn lemma_params_end_ge(t: Seq<char>, k: int)
    ensures
        params_end(t, k) >= k,
        0 <= k <= t.len() ==> params_end(t, k) <= t.len(),
    decreases t.len() - k,
{
    if 0 <= k < t.len() && (('0' <= t[k] <= '9') || t[k] == ';') {
        lemma_params_end_ge(t, k + 1);
    }
}

proof fn lemma_params_window(t: Seq<char>, s: int, e: int, j: int)
    requires
        0 <= s <= j <= e < t.len(),
        !(('0' <= t[e] <= '9') || t[e] == ';'),
    ensures
        params_end(t, j) == s + params_end(t.subrange(s, e), j - s),
    decreases e - j,
{
    let l = t.subrange(s, e);
    if j < e {
        assert(t[j] == l[j - s]);
        lemma_params_window(t, s, e, j + 1);
    }
}

proof fn lemma_strip_window(t: Seq<char>, s: int, e: int, i: int)
    requires
        0 <= s <= i <= e < t.len(),
        !(('0' <= t[e] <= '9') || t[e] == ';' || t[e] == 'm' || t[e] == '['),
    ensures
        strip_from(t, i) == strip_from(t.subrange(s, e), i - s) + strip_from(t, e),
    decreases e - i,
{
    let l = t.subrange(s, e);
    if i == e {
        assert(strip_from(l, i - s) =~= Seq::<char>::empty());
    } else {
        assert(t[i] == l[i - s]);
        if i + 1 < e {
            assert(t[i + 1] == l[i + 1 - s]);
            lemma_params_window(t, s, e, i + 2);
            lemma_params_end_ge(l, i + 2 - s);
            let k = params_end(t, i + 2);
            if k < e {
                assert(t[k] == l[k - s]);
            }
        }
        match sgr_end(t, i) {
            Some(k) => {
                assert(sgr_end(l, i - s) == Some(k - s));
                if i < k {
                    lemma_strip_window(t, s, e, k + 1);
                }
            },
            None => {
                assert(sgr_end(l, i - s) is None);
                lemma_strip_window(t, s, e, i + 1);
            },
        }
    }
}

proof fn lemma_widest_covers(pieces: Seq<Seq<char>>, floor: nat)
    ensures
        floor <= widest(pieces, floor),
        forall|k: int| 0 <= k < pieces.len() ==> #[trigger] pieces[k].len() <= widest(pieces, floor),
    decreases pieces.len(),
{
    if pieces.len() > 0 {
        let init = pieces.drop_last();
        lemma_widest_covers(init, floor);
        assert forall|k: int| 0 <= k < pieces.len() implies #[trigger] pieces[k].len() <= widest(pieces, floor) by {
            if k < pieces.len() - 1 {
                assert(init[k] == pieces[k]);
            }
        }
    }
}

proof fn lemma_edge_visible(left: char, right: char, width: nat)
    requires
        left != '\x1b',
        right != '\x1b',
    ensures
        strip_from(box_edge(left, right, width), 0).len() == width + 4,
{
    let t = box_edge(left, right, width);
    assert forall|k: int| 0 <= k < t.len() implies #[trigger] t[k] != '\x1b' by {
        if 0 < k < t.len() - 1 {
            assert(t[k] == repeated('─', width + 2)[k - 1]);
        }
    }
    lemma_strip_plain(t, 0, t.len() as int);
    assert(strip_from(t, t.len() as int) =~= Seq::<char>::empty());
    assert(t.subrange(0, t.len() as int) =~= t);
}

/// The box round a prompt lines up: every line of it, read without its colour escapes,
/// is `prompt_box_width + 4` characters long (the widest visible line, at least 50, between
/// `"│ "` and `" │"`, and the edges as wide).
pub proof fn law_prompt_box_aligned(prompt: Seq<char>)
    ensures
        forall|k: int| 0 <= k < prompt_box_lines(prompt).len() ==> strip_from(
            #[trigger] prompt_box_lines(prompt)[k],
            0,
        ).len() == prompt_box_width(prompt) + 4,
{
    reveal_strlit("│ ");
    reveal_strlit(" │");
    let ls = split_char(prompt, '\n');
    let w = prompt_box_width(prompt);
    let lines = prompt_box_lines(prompt);
    let vis = crate::report::visible_lines(prompt);
    lemma_widest_covers(vis, 50);
    lemma_edge_visible('┌', '┐', w);
    lemma_edge_visible('└', '┘', w);
    assert forall|k: int| 0 <= k < lines.len() implies strip_from(#[trigger] lines[k], 0).len() == w + 4 by {
        if k == 0 {
            assert(lines[k] == box_edge('┌', '┐', w));
        } else if k == lines.len() - 1 {
            assert(lines[k] == box_edge('└', '┘', w));
        } else {
            let l = ls[k - 1];
            assert(lines[k] == prompt_box_line(l, w));
            assert(vis[k - 1] == strip_from(l, 0));
            let v = strip_from(l, 0).len();
            assert(v <= w);
            let pad = repeated(' ', (w - v) as nat);
            let tail = pad + " │"@;
            let t = "│ "@ + l + tail;
            assert(t == lines[k]);
            let s: int = 2;
            let e: int = 2 + l.len() as int;
            assert(t[e] == ' ') by {
                if w - v > 0 {
                    assert(t[e] == pad[0]);
                } else {
                    assert(t[e] == " │"@[0]);
                }
            }
            assert(t.subrange(s, e) =~= l);
            assert(t[0] != '\x1b' && t[1] != '\x1b');
            lemma_strip_plain(t, 0, 2);
            lemma_strip_window(t, s, e, s);
            assert forall|m: int| e <= m < t.len() implies #[trigger] t[m] != '\x1b' by {
                assert(t[m] == tail[m - e]);
                if m - e < pad.len() {
                    assert(tail[m - e] == pad[m - e]);
                } else {
                    assert(tail[m - e] == " │"@[m - e - pad.len()]);
                }
            }
            lemma_strip_plain(t, e, t.len() as int);
            assert(strip_from(t, t.len() as int) =~= Seq::<char>::empty());
            assert(t.subrange(e, t.len() as int) =~= tail);
            assert(strip_from(t, 0) =~= t.subrange(0, 2) + (strip_from(l, 0) + tail));
        }
    }
}


proof fn lemma_wide_add(a: Seq<char>, b: Seq<char>)
    ensures
        wide_chars(a + b) == wide_chars(a) + wide_chars(b),
    decreases b.len(),
{
    if b.len() == 0 {
        assert(a + b =~= a);
    } else {
        lemma_wide_add(a, b.drop_last());
        assert((a + b).drop_last() =~= a + b.drop_last());
        assert((a + b).last() == b.last());
    }
}

proof fn lemma_no_wide(s: Seq<char>)
    requires
        forall|k: int| 0 <= k < s.len() ==> !is_wide(#[trigger] s[k]),
    ensures
        wide_chars(s) == 0,
    decreases s.len(),
{
    if s.len() > 0 {
        let init = s.drop_last();
        assert forall|k: int| 0 <= k < init.len() implies !is_wide(#[trigger] init[k]) by {
            assert(init[k] == s[k]);
        }
        lemma_no_wide(init);
    }
}

proof fn lemma_repeated_narrow(c: char, n: nat)
    requires
        !is_wide(c),
    ensures
        display_width(repeated(c, n)) == n,
{
    lemma_no_wide(repeated(c, n));
}

proof fn lemma_widest_display_covers(pieces: Seq<Seq<char>>, floor: nat)
    ensures
        floor <= widest_display(pieces, floor),
        forall|k: int| 0 <= k < pieces.len() ==> display_width(#[trigger] pieces[k]) <= widest_display(pieces, floor),
    decreases pieces.len(),
{
    if pieces.len() > 0 {
        let init = pieces.drop_last();
        lemma_widest_display_covers(init, floor);
        assert forall|k: int| 0 <= k < pieces.len() implies display_width(#[trigger] pieces[k])
            <= widest_display(pieces, floor) by {
            if k < pieces.len() - 1 {
                assert(init[k] == pieces[k]);
            }
        }
    }
}

proof fn lemma_debug_line_width(line: Seq<char>, width: nat)
    requires
        display_width(line) <= width,
    ensures
        display_width(debug_box_line(line, width)) == width + 4,
{
    reveal_strlit("│ ");
    reveal_strlit(" │");
    let pad = repeated(' ', (width - display_width(line)) as nat);
    lemma_repeated_narrow(' ', (width - display_width(line)) as nat);
    lemma_no_wide("│ "@);
    lemma_no_wide(" │"@);
    lemma_wide_add("│ "@, line);
    lemma_wide_add("│ "@ + line, pad);
    lemma_wide_add("│ "@ + line + pad, " │"@);
}

/// The debug box's columns: each body line and the bottom edge take `debug_box_width + 4`
/// columns (a wide pictograph counting two), and the header edge one column less.
pub proof fn law_debug_box_widths(config_line: Seq<char>, timing_line: Seq<char>, provider_lines: Seq<Seq<char>>)
    ensures
        display_width(debug_box_lines(config_line, timing_line, provider_lines)[0]) == debug_box_width(
            config_line,
            timing_line,
            provider_lines,
        ) + 3,
        forall|k: int|
            1 <= k < debug_box_lines(config_line, timing_line, provider_lines).len() ==> display_width(
                #[trigger] debug_box_lines(config_line, timing_line, provider_lines)[k],
            ) == debug_box_width(config_line, timing_line, provider_lines) + 4,
{
    let w = debug_box_width(config_line, timing_line, provider_lines);
    let lines = debug_box_lines(config_line, timing_line, provider_lines);
    let floor = larger(larger(display_width(config_line), display_width(timing_line)), 40);
    lemma_widest_display_covers(provider_lines, floor);
    reveal_strlit("┌─ 🔍 twig debug ");
    let h = debug_header();
    let h1 = seq!['┌', '─', ' '];
    let h2 = seq![' ', 't', 'w', 'i', 'g', ' ', 'd', 'e', 'b', 'u', 'g', ' '];
    assert(h =~= h1 + seq!['🔍'] + h2);
    lemma_no_wide(h1);
    lemma_no_wide(h2);
    assert(is_wide('🔍'));
    assert(wide_chars(seq!['🔍']) == 1) by {
        assert(seq!['🔍'].drop_last() =~= Seq::<char>::empty());
        assert(wide_chars(Seq::<char>::empty()) == 0);
        assert(seq!['🔍'].last() == '🔍');
    }
    lemma_wide_add(h1, seq!['🔍']);
    lemma_wide_add(h1 + seq!['🔍'], h2);
    assert(display_width(h) == 17);
    let top_run = repeated('─', (w + 2 - 17) as nat);
    lemma_repeated_narrow('─', (w + 2 - 17) as nat);
    lemma_no_wide(seq!['┐']);
    lemma_wide_add(h, top_run);
    lemma_wide_add(h + top_run, seq!['┐']);
    assert(lines[0] == h + top_run + seq!['┐']);
    let edge_run = repeated('─', w + 2);
    lemma_repeated_narrow('─', w + 2);
    lemma_no_wide(seq!['└']);
    lemma_no_wide(seq!['┘']);
    lemma_wide_add(seq!['└'], edge_run);
    lemma_wide_add(seq!['└'] + edge_run, seq!['┘']);
    assert(box_edge('└', '┘', w) == seq!['└'] + edge_run + seq!['┘']);
    lemma_debug_line_width(config_line, w);
    lemma_debug_line_width(timing_line, w);
    let a = seq![h + top_run + seq!['┐'], debug_box_line(config_line, w)];
    let b = provider_lines.map_values(|p: Seq<char>| debug_box_line(p, w));
    let c = seq![debug_box_line(timing_line, w), box_edge('└', '┘', w)];
    assert(lines == a + b + c);
    assert forall|k: int| 1 <= k < lines.len() implies display_width(#[trigger] lines[k]) == w + 4 by {
        let n = provider_lines.len() as int;
        if k == 1 {
            assert(lines[k] == a[1]);
        } else if k < n + 2 {
            assert(lines[k] == b[k - 2]);
            assert(b[k - 2] == debug_box_line(provider_lines[k - 2], w));
            lemma_debug_line_width(provider_lines[k - 2], w);
        } else if k == n + 2 {
            assert(lines[k] == c[0]);
        } else {
            assert(lines[k] == c[1]);
        }
    }
}

} // verus!

verus! {

use crate::report::{config_passes, validation_lines};
use crate::providers::CollectResult;
use crate::validate::styles_from;

/// The verdict of the validation report: a configuration passes exactly when every
/// colour and style of its prompt format is known and every provider ran. Two
/// configurations with the same prompt format get the same verdict for the same run of
/// the providers, whatever their time formats and their wide and narrow formats hold,
/// and the report's last line says which verdict it is.
pub proof fn law_validation_verdict(
    c1: Config,
    c2: Config,
    path: Seq<char>,
    outcome: Result<CollectResult, String>,
    env: crate::vars::Vars,
)
    requires
        c1.prompt.format@ == c2.prompt.format@,
    ensures
        config_passes(c1, outcome) == (styles_from(c1.prompt.format@, 0) is Ok && outcome is Ok),
        config_passes(c1, outcome) == config_passes(c2, outcome),
        validation_lines(c1, path, outcome, env).last() == if config_passes(c1, outcome) {
            "Configuration is valid."@
        } else {
            "Configuration has errors."@
        },
{
}

} // verus!

verus! {

use crate::numbers::dec_string as dec_text;
use crate::validate::{time_format_ok, valid_time_specifier};
use crate::providers::git::{git_entries, git_outcome, status_counts, status_of, GitProbe};
use crate::providers::battery::{battery_entries, state_name, BatteryReading, ChargeState};
use crate::providers::builtin::builtin_entries;

/// The value of the last entry named `k`, where a later entry under a name replaces an
/// earlier one (as in `Vars`).
pub open spec fn named_value(s: Seq<(Seq<char>, Seq<char>)>, k: Seq<char>) -> Option<Seq<char>>
    decreases s.len(),
{
    if s.len() == 0 {
        None
    } else if s.last().0 == k {
        Some(s.last().1)
    } else {
        named_value(s.drop_last(), k)
    }
}

proof fn lemma_named_value_skip(s: Seq<(Seq<char>, Seq<char>)>, u: Seq<(Seq<char>, Seq<char>)>, k: Seq<char>)
    requires
        forall|i: int| 0 <= i < u.len() ==> u[i].0 != k,
    ensures
        named_value(s + u, k) == named_value(s, k),
    decreases u.len(),
{
    if u.len() == 0 {
        assert(s + u =~= s);
    } else {
        assert((s + u).drop_last() =~= s + u.drop_last());
        assert((s + u).last() == u.last());
        lemma_named_value_skip(s, u.drop_last(), k);
    }
}

proof fn lemma_named_value_none(s: Seq<(Seq<char>, Seq<char>)>, k: Seq<char>)
    requires
        forall|i: int| 0 <= i < s.len() ==> s[i].0 != k,
    ensures
        named_value(s, k) is None,
{
    lemma_named_value_skip(Seq::empty(), s, k);
    assert(Seq::<(Seq<char>, Seq<char>)>::empty() + s =~= s);
}

proof fn lemma_named_value_at_end(s: Seq<(Seq<char>, Seq<char>)>, x: (Seq<char>, Seq<char>), u: Seq<(Seq<char>, Seq<char>)>, k: Seq<char>)
    requires
        forall|i: int| 0 <= i < u.len() ==> u[i].0 != k,
    ensures
        named_value(s.push(x) + u, k) == if x.0 == k {
            Some(x.1)
        } else {
            named_value(s, k)
        },
{
    lemma_named_value_skip(s.push(x), u, k);
    assert(s.push(x).drop_last() =~= s);
}

proof fn lemma_git_names()
    ensures
        "git_branch"@ != "git_status_clean"@,
        "git_branch"@ != "git_status_dirty"@,
        "git_tracking"@ != "git_status_clean"@,
        "git_tracking"@ != "git_status_dirty"@,
        "git_elapsed"@ != "git_status_clean"@,
        "git_elapsed"@ != "git_status_dirty"@,
        "git_status_clean"@ != "git_status_dirty"@,
{
    reveal_strlit("git_branch");
    reveal_strlit("git_tracking");
    reveal_strlit("git_elapsed");
    reveal_strlit("git_status_clean");
    reveal_strlit("git_status_dirty");
    assert("git_branch"@.len() == 10 && "git_tracking"@.len() == 12 && "git_elapsed"@.len() == 11);
    assert("git_status_clean"@.len() == 16 && "git_status_dirty"@.len() == 16);
    assert("git_status_clean"@[11] != "git_status_dirty"@[11]);
}

/// The working-tree status among the git variables: `git_status_clean` (`:✔`) is there
/// exactly when nothing is staged and nothing is unstaged, and `git_status_dirty` exactly
/// when something is; the dirty text is `:+S` for S staged changes alone, `:+U` for U
/// unstaged changes alone, and `:+S+U` for both.
pub proof fn law_git_status(
    branch: Option<Seq<char>>,
    ahead_behind: Option<(u32, u32)>,
    staged: nat,
    unstaged: nat,
    elapsed: Option<Seq<char>>,
)
    ensures
        named_value(git_entries(branch, ahead_behind, staged, unstaged, elapsed), "git_status_clean"@)
            == if staged == 0 && unstaged == 0 {
                Some(":✔"@)
            } else {
                None
            },
        named_value(git_entries(branch, ahead_behind, staged, unstaged, elapsed), "git_status_dirty"@) is Some
            <==> (staged > 0 || unstaged > 0),
        staged == 0 && unstaged > 0 ==> named_value(git_entries(branch, ahead_behind, staged, unstaged, elapsed), "git_status_dirty"@)
            == Some(":+"@ + dec_text(unstaged)),
        staged > 0 && unstaged == 0 ==> named_value(git_entries(branch, ahead_behind, staged, unstaged, elapsed), "git_status_dirty"@)
            == Some(":+"@ + dec_text(staged)),
        staged > 0 && unstaged > 0 ==> named_value(git_entries(branch, ahead_behind, staged, unstaged, elapsed), "git_status_dirty"@)
            == Some(":+"@ + dec_text(staged) + "+"@ + dec_text(unstaged)),
{
    lemma_git_names();
    let e = git_entries(branch, ahead_behind, staged, unstaged, elapsed);
    let head = seq![("git_branch"@, match branch {
        Some(b) => b,
        None => "HEAD"@,
    })] + (match ahead_behind {
        Some((a, b)) => if b > 0 {
            seq![("git_tracking"@, "(behind."@ + dec_text(b as nat) + ")"@)]
        } else if a > 0 {
            seq![("git_tracking"@, "(ahead."@ + dec_text(a as nat) + ")"@)]
        } else {
            Seq::empty()
        },
        None => Seq::empty(),
    });
    let st = if staged == 0 && unstaged == 0 {
        ("git_status_clean"@, ":✔"@)
    } else if staged > 0 && unstaged > 0 {
        ("git_status_dirty"@, ":+"@ + dec_text(staged) + "+"@ + dec_text(unstaged))
    } else if staged > 0 {
        ("git_status_dirty"@, ":+"@ + dec_text(staged))
    } else {
        ("git_status_dirty"@, ":+"@ + dec_text(unstaged))
    };
    let tail = match elapsed {
        Some(x) => seq![("git_elapsed"@, ":"@ + x)],
        None => Seq::<(Seq<char>, Seq<char>)>::empty(),
    };
    assert(e =~= head.push(st) + tail);
    assert forall|i: int| 0 <= i < head.len() implies head[i].0 != "git_status_clean"@ && head[i].0 != "git_status_dirty"@ by {
        if i > 0 {
            assert(head[i].0 == "git_tracking"@);
        }
    }
    assert forall|i: int| 0 <= i < tail.len() implies tail[i].0 != "git_status_clean"@ && tail[i].0 != "git_status_dirty"@ by {}
    lemma_named_value_at_end(head, st, tail, "git_status_clean"@);
    lemma_named_value_at_end(head, st, tail, "git_status_dirty"@);
    lemma_named_value_none(head, "git_status_clean"@);
    lemma_named_value_none(head, "git_status_dirty"@);
}

/// The branch and tracking parts of the git variables: `git_branch` is the branch name
/// (`HEAD` where there is none); `git_tracking` is `(behind.N)` when the branch is N commits
/// behind its upstream, otherwise `(ahead.N)` when it is N ahead, and absent when it is even
/// with it or has none.
pub proof fn law_git_branch_tracking(
    branch: Option<Seq<char>>,
    ahead_behind: Option<(u32, u32)>,
    staged: nat,
    unstaged: nat,
    elapsed: Option<Seq<char>>,
)
    ensures
        named_value(git_entries(branch, ahead_behind, staged, unstaged, elapsed), "git_branch"@) == Some(match branch {
            Some(b) => b,
            None => "HEAD"@,
        }),
        named_value(git_entries(branch, ahead_behind, staged, unstaged, elapsed), "git_tracking"@) == match ahead_behind {
            Some((a, b)) => if b > 0 {
                Some("(behind."@ + dec_text(b as nat) + ")"@)
            } else if a > 0 {
                Some("(ahead."@ + dec_text(a as nat) + ")"@)
            } else {
                None
            },
            None => None,
        },
{
    reveal_strlit("git_branch");
    reveal_strlit("git_tracking");
    reveal_strlit("git_elapsed");
    reveal_strlit("git_status_clean");
    reveal_strlit("git_status_dirty");
    assert("git_branch"@.len() == 10 && "git_tracking"@.len() == 12 && "git_elapsed"@.len() == 11);
    assert("git_status_clean"@.len() == 16 && "git_status_dirty"@.len() == 16);
    let br = ("git_branch"@, match branch {
        Some(b) => b,
        None => "HEAD"@,
    });
    let tr = match ahead_behind {
        Some((a, b)) => if b > 0 {
            seq![("git_tracking"@, "(behind."@ + dec_text(b as nat) + ")"@)]
        } else if a > 0 {
            seq![("git_tracking"@, "(ahead."@ + dec_text(a as nat) + ")"@)]
        } else {
            Seq::empty()
        },
        None => Seq::<(Seq<char>, Seq<char>)>::empty(),
    };
    let st = if staged == 0 && unstaged == 0 {
        ("git_status_clean"@, ":✔"@)
    } else if staged > 0 && unstaged > 0 {
        ("git_status_dirty"@, ":+"@ + dec_text(staged) + "+"@ + dec_text(unstaged))
    } else if staged > 0 {
        ("git_status_dirty"@, ":+"@ + dec_text(staged))
    } else {
        ("git_status_dirty"@, ":+"@ + dec_text(unstaged))
    };
    let tail = match elapsed {
        Some(x) => seq![("git_elapsed"@, ":"@ + x)],
        None => Seq::<(Seq<char>, Seq<char>)>::empty(),
    };
    let rest = tr.push(st) + tail;
    let e = git_entries(branch, ahead_behind, staged, unstaged, elapsed);
    assert(e =~= Seq::<(Seq<char>, Seq<char>)>::empty().push(br) + rest);
    assert forall|i: int| 0 <= i < rest.len() implies rest[i].0 != "git_branch"@ by {
        if i < tr.len() {
            assert(rest[i] == tr[i]);
        } else if i == tr.len() {
            assert(rest[i] == st);
        } else {
            assert(rest[i] == tail[i - tr.len() - 1]);
        }
    }
    lemma_named_value_at_end(Seq::empty(), br, rest, "git_branch"@);
    let tr_tail = seq![st] + tail;
    assert forall|i: int| 0 <= i < tr_tail.len() implies tr_tail[i].0 != "git_tracking"@ by {
        if i > 0 {
            assert(tr_tail[i] == tail[i - 1]);
        }
    }
    let pre = seq![br] + tr;
    assert(e =~= pre + tr_tail);
    lemma_named_value_skip(pre, tr_tail, "git_tracking"@);
    assert(named_value(e, "git_tracking"@) == named_value(pre, "git_tracking"@));
    if tr.len() > 0 {
        assert(pre.last() == tr[0]);
        assert(tr[0].0 == "git_tracking"@);
        assert(named_value(pre, "git_tracking"@) == Some(tr[0].1));
    } else {
        assert(pre =~= seq![br]);
        assert(pre.last() == br);
        assert(br.0 != "git_tracking"@);
        assert(pre.drop_last() =~= Seq::<(Seq<char>, Seq<char>)>::empty());
        assert(named_value(pre.drop_last(), "git_tracking"@) is None);
        assert(named_value(pre, "git_tracking"@) is None);
    }
}

/// Porcelain status lines are counted one by one: a further line of at least two
/// characters adds one unstaged change when its second character is not a space (a
/// modified or untracked file, such as ` M src/main.rs` or `?? new.rs`), and one staged
/// change when its first character is a change code (not a space, `?` or `!`).
pub proof fn law_git_status_counts(ls: Seq<Seq<char>>, l: Seq<char>)
    requires
        l.len() >= 2,
    ensures
        status_counts(ls.push(l)).1 == status_counts(ls).1 + if l[1] != ' ' {
            1int
        } else {
            0int
        },
        status_counts(ls.push(l)).0 == status_counts(ls).0 + if l[0] != ' ' && l[0] != '?' && l[0] != '!' {
            1int
        } else {
            0int
        },
{
    assert(ls.push(l).drop_last() =~= ls);
}

/// A repository whose porcelain status shows any unstaged change is never shown clean.
pub proof fn law_git_unstaged_is_dirty(p: GitProbe, validate: bool)
    requires
        p.available,
        p.in_repo,
        status_of(p.status.success, p.status.stdout@).1 > 0,
    ensures
        git_outcome(p, validate) matches Ok(e) && named_value(e, "git_status_clean"@) is None
            && named_value(e, "git_status_dirty"@) is Some,
{
    let st = status_of(p.status.success, p.status.stdout@);
    let ab = crate::providers::git::ahead_behind_of(p.ahead_behind.success, p.ahead_behind.stdout@);
    law_git_status(
        crate::providers::git::branch_of(p.branch.success, p.branch.stdout@),
        ab,
        st.0,
        st.1,
        crate::providers::git::elapsed_of(p.last_commit.success, p.last_commit.stdout@, p.now_secs),
    );
}

/// Reading a name from a table of variables (`Vars::get`) gives the value of the last
/// entry under that name in the table's entries: the value `named_value` speaks of.
pub proof fn law_named_value_is_lookup(v: crate::vars::Vars, k: Seq<char>)
    ensures
        named_value(v@, k) == v.get_spec(k),
{
    lemma_named_value_entries(v.entries@, k);
}

proof fn lemma_named_value_entries(e: Seq<(String, String)>, k: Seq<char>)
    ensures
        named_value(crate::vars::entry_views(e), k) == crate::vars::lookup(e, k),
    decreases e.len(),
{
    if e.len() > 0 {
        lemma_named_value_entries(e.drop_last(), k);
        assert(crate::vars::entry_views(e).drop_last() =~= crate::vars::entry_views(e.drop_last()));
    }
}

/// The eight basic colour names, in the order of their standard SGR codes.
pub open spec fn basic_colors() -> Seq<Seq<char>> {
    seq!["black"@, "red"@, "green"@, "yellow"@, "blue"@, "magenta"@, "cyan"@, "white"@]
}


/// Standard SGR foreground codes: the i-th basic colour (black, red, green, yellow, blue,
/// magenta, cyan, white) has code 30 + i and its bright form (`bright_` and the name)
/// 90 + i; distinct colours among these sixteen have distinct codes.
pub proof fn law_color_codes(i: int, j: int)
    requires
        0 <= i < 8,
        0 <= j < 8,
    ensures
        crate::render::ansi_code(basic_colors()[i]) == Some(dec_text((30 + i) as nat)),
        crate::render::ansi_code("bright_"@ + basic_colors()[i]) == Some(dec_text((90 + i) as nat)),
        i != j ==> crate::render::ansi_code(basic_colors()[i]) != crate::render::ansi_code(basic_colors()[j]),
        i != j ==> crate::render::ansi_code("bright_"@ + basic_colors()[i])
            != crate::render::ansi_code("bright_"@ + basic_colors()[j]),
        crate::render::ansi_code(basic_colors()[i]) != crate::render::ansi_code("bright_"@ + basic_colors()[j]),
{
    lemma_color_code(i);
    lemma_color_code(j);
    lemma_dec_two(i);
    lemma_dec_two(j);
}

proof fn lemma_dec_two(i: int)
    requires
        0 <= i < 8,
    ensures
        dec_text((30 + i) as nat) == seq!['3', crate::numbers::digit_char(i as nat)],
        dec_text((90 + i) as nat) == seq!['9', crate::numbers::digit_char(i as nat)],
{
    reveal_with_fuel(dec_text, 3);
    assert(dec_text((30 + i) as nat) =~= seq!['3', crate::numbers::digit_char(i as nat)]);
    assert(dec_text((90 + i) as nat) =~= seq!['9', crate::numbers::digit_char(i as nat)]);
}

proof fn lemma_color_code(i: int)
    requires
        0 <= i < 8,
    ensures
        crate::render::ansi_code(basic_colors()[i]) == Some(seq!['3', crate::numbers::digit_char(i as nat)]),
        crate::render::ansi_code("bright_"@ + basic_colors()[i]) == Some(seq!['9', crate::numbers::digit_char(i as nat)]),
{
    reveal_strlit("black");
    reveal_strlit("red");
    reveal_strlit("green");
    reveal_strlit("yellow");
    reveal_strlit("blue");
    reveal_strlit("magenta");
    reveal_strlit("cyan");
    reveal_strlit("white");
    reveal_strlit("bright_black");
    reveal_strlit("gray");
    reveal_strlit("grey");
    reveal_strlit("bright_red");
    reveal_strlit("bright_green");
    reveal_strlit("bright_yellow");
    reveal_strlit("bright_blue");
    reveal_strlit("bright_magenta");
    reveal_strlit("bright_cyan");
    reveal_strlit("bright_white");
    reveal_strlit("bright_");
    reveal_strlit("30");
    reveal_strlit("31");
    reveal_strlit("32");
    reveal_strlit("33");
    reveal_strlit("34");
    reveal_strlit("35");
    reveal_strlit("36");
    reveal_strlit("37");
    reveal_strlit("90");
    reveal_strlit("91");
    reveal_strlit("92");
    reveal_strlit("93");
    reveal_strlit("94");
    reveal_strlit("95");
    reveal_strlit("96");
    reveal_strlit("97");
    if i == 0 {
        assert(basic_colors()[0] == "black"@);
        assert("bright_"@ + "black"@ =~= "bright_black"@);
        assert("30"@ =~= seq!['3', '0']);
        assert("90"@ =~= seq!['9', '0']);
    }
    if i == 1 {
        assert(basic_colors()[1] == "red"@);
        assert("bright_"@ + "red"@ =~= "bright_red"@);
        assert("31"@ =~= seq!['3', '1']);
        assert("91"@ =~= seq!['9', '1']);
    }
    if i == 2 {
        assert(basic_colors()[2] == "green"@);
        assert("bright_"@ + "green"@ =~= "bright_green"@);
        assert("green"@[0] != "black"@[0]);
        assert("bright_green"@[7] != "bright_black"@[7]);
        assert("32"@ =~= seq!['3', '2']);
        assert("92"@ =~= seq!['9', '2']);
    }
    if i == 3 {
        assert(basic_colors()[3] == "yellow"@);
        assert("bright_"@ + "yellow"@ =~= "bright_yellow"@);
        assert("33"@ =~= seq!['3', '3']);
        assert("93"@ =~= seq!['9', '3']);
    }
    if i == 4 {
        assert(basic_colors()[4] == "blue"@);
        assert("bright_"@ + "blue"@ =~= "bright_blue"@);
        assert("34"@ =~= seq!['3', '4']);
        assert("94"@ =~= seq!['9', '4']);
    }
    if i == 5 {
        assert(basic_colors()[5] == "magenta"@);
        assert("bright_"@ + "magenta"@ =~= "bright_magenta"@);
        assert("35"@ =~= seq!['3', '5']);
        assert("95"@ =~= seq!['9', '5']);
    }
    if i == 6 {
        assert(basic_colors()[6] == "cyan"@);
        assert("bright_"@ + "cyan"@ =~= "bright_cyan"@);
        assert("cyan"@[0] != "blue"@[0]);
        assert("bright_cyan"@[7] != "bright_blue"@[7]);
        assert("36"@ =~= seq!['3', '6']);
        assert("96"@ =~= seq!['9', '6']);
    }
    if i == 7 {
        assert(basic_colors()[7] == "white"@);
        assert("bright_"@ + "white"@ =~= "bright_white"@);
        assert("white"@[0] != "black"@[0]);
        assert("white"@[0] != "green"@[0]);
        assert("bright_white"@[7] != "bright_black"@[7]);
        assert("bright_white"@[7] != "bright_green"@[7]);
        assert("37"@ =~= seq!['3', '7']);
        assert("97"@ =~= seq!['9', '7']);
    }
}

/// The names that have an ANSI code: the eight basic colours, their bright forms
/// (`gray` and `grey` for bright black), and the styles.
pub open spec fn known_style_names() -> Seq<Seq<char>> {
    seq!["black"@, "red"@, "green"@, "yellow"@, "blue"@, "magenta"@, "cyan"@, "white"@, "bright_black"@, "gray"@, "grey"@, "bright_red"@, "bright_green"@, "bright_yellow"@, "bright_blue"@, "bright_magenta"@, "bright_cyan"@, "bright_white"@, "bold"@, "dim"@, "italic"@, "underline"@, "normal"@]
}

/// The styles have their standard SGR codes (`normal` 0, `bold` 1, `dim` 2, `italic` 3,
/// `underline` 4), `gray` and `grey` are bright black (90), and only the known names have
/// a code.
pub proof fn law_style_codes(name: Seq<char>)
    ensures
        crate::render::ansi_code("normal"@) == Some(dec_text(0)),
        crate::render::ansi_code("bold"@) == Some(dec_text(1)),
        crate::render::ansi_code("dim"@) == Some(dec_text(2)),
        crate::render::ansi_code("italic"@) == Some(dec_text(3)),
        crate::render::ansi_code("underline"@) == Some(dec_text(4)),
        crate::render::ansi_code("gray"@) == Some(dec_text(90)),
        crate::render::ansi_code("grey"@) == Some(dec_text(90)),
        crate::render::ansi_code(name) is Some ==> known_style_names().contains(name),
{
    assert(crate::render::ansi_code("normal"@) == Some("0"@)) by {
        reveal_strlit("black");
        reveal_strlit("red");
        reveal_strlit("green");
        reveal_strlit("yellow");
        reveal_strlit("blue");
        reveal_strlit("magenta");
        reveal_strlit("cyan");
        reveal_strlit("white");
        reveal_strlit("bright_black");
        reveal_strlit("gray");
        reveal_strlit("grey");
        reveal_strlit("bright_red");
        reveal_strlit("bright_green");
        reveal_strlit("bright_yellow");
        reveal_strlit("bright_blue");
        reveal_strlit("bright_magenta");
        reveal_strlit("bright_cyan");
        reveal_strlit("bright_white");
        reveal_strlit("bold");
        reveal_strlit("dim");
        reveal_strlit("italic");
        reveal_strlit("underline");
        reveal_strlit("normal");
        reveal_strlit("90");
        reveal_strlit("1");
        reveal_strlit("2");
        reveal_strlit("3");
        reveal_strlit("4");
        reveal_strlit("0");
        assert("gray"@[0] != "blue"@[0]);
        assert("gray"@[0] != "cyan"@[0]);
        assert("grey"@[0] != "blue"@[0]);
        assert("grey"@[0] != "cyan"@[0]);
        assert("grey"@[2] != "gray"@[2]);
        assert("bold"@[1] != "blue"@[1]);
        assert("bold"@[0] != "cyan"@[0]);
        assert("bold"@[0] != "gray"@[0]);
        assert("bold"@[0] != "grey"@[0]);
        assert("dim"@[0] != "red"@[0]);
        assert("italic"@[0] != "yellow"@[0]);
        assert("normal"@[0] != "yellow"@[0]);
        assert("normal"@[0] != "italic"@[0]);
    }
    assert(crate::render::ansi_code("bold"@) == Some("1"@)) by {
        reveal_strlit("black");
        reveal_strlit("red");
        reveal_strlit("green");
        reveal_strlit("yellow");
        reveal_strlit("blue");
        reveal_strlit("magenta");
        reveal_strlit("cyan");
        reveal_strlit("white");
        reveal_strlit("bright_black");
        reveal_strlit("gray");
        reveal_strlit("grey");
        reveal_strlit("bright_red");
        reveal_strlit("bright_green");
        reveal_strlit("bright_yellow");
        reveal_strlit("bright_blue");
        reveal_strlit("bright_magenta");
        reveal_strlit("bright_cyan");
        reveal_strlit("bright_white");
        reveal_strlit("bold");
        reveal_strlit("dim");
        reveal_strlit("italic");
        reveal_strlit("underline");
        reveal_strlit("normal");
        reveal_strlit("90");
        reveal_strlit("1");
        reveal_strlit("2");
        reveal_strlit("3");
        reveal_strlit("4");
        reveal_strlit("0");
        assert("gray"@[0] != "blue"@[0]);
        assert("gray"@[0] != "cyan"@[0]);
        assert("grey"@[0] != "blue"@[0]);
        assert("grey"@[0] != "cyan"@[0]);
        assert("grey"@[2] != "gray"@[2]);
        assert("bold"@[1] != "blue"@[1]);
        assert("bold"@[0] != "cyan"@[0]);
        assert("bold"@[0] != "gray"@[0]);
        assert("bold"@[0] != "grey"@[0]);
        assert("dim"@[0] != "red"@[0]);
        assert("italic"@[0] != "yellow"@[0]);
        assert("normal"@[0] != "yellow"@[0]);
        assert("normal"@[0] != "italic"@[0]);
    }
    assert(crate::render::ansi_code("dim"@) == Some("2"@)) by {
        reveal_strlit("black");
        reveal_strlit("red");
        reveal_strlit("green");
        reveal_strlit("yellow");
        reveal_strlit("blue");
        reveal_strlit("magenta");
        reveal_strlit("cyan");
        reveal_strlit("white");
        reveal_strlit("bright_black");
        reveal_strlit("gray");
        reveal_strlit("grey");
        reveal_strlit("bright_red");
        reveal_strlit("bright_green");
        reveal_strlit("bright_yellow");
        reveal_strlit("bright_blue");
        reveal_strlit("bright_magenta");
        reveal_strlit("bright_cyan");
        reveal_strlit("bright_white");
        reveal_strlit("bold");
        reveal_strlit("dim");
        reveal_strlit("italic");
        reveal_strlit("underline");
        reveal_strlit("normal");
        reveal_strlit("90");
        reveal_strlit("1");
        reveal_strlit("2");
        reveal_strlit("3");
        reveal_strlit("4");
        reveal_strlit("0");
        assert("gray"@[0] != "blue"@[0]);
        assert("gray"@[0] != "cyan"@[0]);
        assert("grey"@[0] != "blue"@[0]);
        assert("grey"@[0] != "cyan"@[0]);
        assert("grey"@[2] != "gray"@[2]);
        assert("bold"@[1] != "blue"@[1]);
        assert("bold"@[0] != "cyan"@[0]);
        assert("bold"@[0] != "gray"@[0]);
        assert("bold"@[0] != "grey"@[0]);
        assert("dim"@[0] != "red"@[0]);
        assert("italic"@[0] != "yellow"@[0]);
        assert("normal"@[0] != "yellow"@[0]);
        assert("normal"@[0] != "italic"@[0]);
    }
    assert(crate::render::ansi_code("italic"@) == Some("3"@)) by {
        reveal_strlit("black");
        reveal_strlit("red");
        reveal_strlit("green");
        reveal_strlit("yellow");
        reveal_strlit("blue");
        reveal_strlit("magenta");
        reveal_strlit("cyan");
        reveal_strlit("white");
        reveal_strlit("bright_black");
        reveal_strlit("gray");
        reveal_strlit("grey");
        reveal_strlit("bright_red");
        reveal_strlit("bright_green");
        reveal_strlit("bright_yellow");
        reveal_strlit("bright_blue");
        reveal_strlit("bright_magenta");
        reveal_strlit("bright_cyan");
        reveal_strlit("bright_white");
        reveal_strlit("bold");
        reveal_strlit("dim");
        reveal_strlit("italic");
        reveal_strlit("underline");
        reveal_strlit("normal");
        reveal_strlit("90");
        reveal_strlit("1");
        reveal_strlit("2");
        reveal_strlit("3");
        reveal_strlit("4");
        reveal_strlit("0");
        assert("gray"@[0] != "blue"@[0]);
        assert("gray"@[0] != "cyan"@[0]);
        assert("grey"@[0] != "blue"@[0]);
        assert("grey"@[0] != "cyan"@[0]);
        assert("grey"@[2] != "gray"@[2]);
        assert("bold"@[1] != "blue"@[1]);
        assert("bold"@[0] != "cyan"@[0]);
        assert("bold"@[0] != "gray"@[0]);
        assert("bold"@[0] != "grey"@[0]);
        assert("dim"@[0] != "red"@[0]);
        assert("italic"@[0] != "yellow"@[0]);
        assert("normal"@[0] != "yellow"@[0]);
        assert("normal"@[0] != "italic"@[0]);
    }
    assert(crate::render::ansi_code("underline"@) == Some("4"@)) by {
        reveal_strlit("underline");
        assert("underline"@.len() == 9);
        reveal_strlit("black");
        reveal_strlit("red");
        reveal_strlit("green");
        reveal_strlit("yellow");
        reveal_strlit("blue");
        reveal_strlit("magenta");
        reveal_strlit("cyan");
        reveal_strlit("white");
        reveal_strlit("bright_black");
        reveal_strlit("gray");
        reveal_strlit("grey");
        reveal_strlit("bright_red");
        reveal_strlit("bright_green");
        reveal_strlit("bright_yellow");
        reveal_strlit("bright_blue");
        reveal_strlit("bright_magenta");
        reveal_strlit("bright_cyan");
        reveal_strlit("bright_white");
        reveal_strlit("bold");
        reveal_strlit("dim");
        reveal_strlit("italic");
        assert("black"@.len() == 5);
        assert("red"@.len() == 3);
        assert("green"@.len() == 5);
        assert("yellow"@.len() == 6);
        assert("blue"@.len() == 4);
        assert("magenta"@.len() == 7);
        assert("cyan"@.len() == 4);
        assert("white"@.len() == 5);
        assert("bright_black"@.len() == 12);
        assert("gray"@.len() == 4);
        assert("grey"@.len() == 4);
        assert("bright_red"@.len() == 10);
        assert("bright_green"@.len() == 12);
        assert("bright_yellow"@.len() == 13);
        assert("bright_blue"@.len() == 11);
        assert("bright_magenta"@.len() == 14);
        assert("bright_cyan"@.len() == 11);
        assert("bright_white"@.len() == 12);
        assert("bold"@.len() == 4);
        assert("dim"@.len() == 3);
        assert("italic"@.len() == 6);
        reveal_strlit("black");
        reveal_strlit("red");
        reveal_strlit("green");
        reveal_strlit("yellow");
        reveal_strlit("blue");
        reveal_strlit("magenta");
        reveal_strlit("cyan");
        reveal_strlit("white");
        reveal_strlit("bright_black");
        reveal_strlit("gray");
        reveal_strlit("grey");
        reveal_strlit("bright_red");
        reveal_strlit("bright_green");
        reveal_strlit("bright_yellow");
        reveal_strlit("bright_blue");
        reveal_strlit("bright_magenta");
        reveal_strlit("bright_cyan");
        reveal_strlit("bright_white");
        reveal_strlit("bold");
        reveal_strlit("dim");
        reveal_strlit("italic");
        reveal_strlit("underline");
        reveal_strlit("normal");
        reveal_strlit("90");
        reveal_strlit("1");
        reveal_strlit("2");
        reveal_strlit("3");
        reveal_strlit("4");
        reveal_strlit("0");
        assert("gray"@[0] != "blue"@[0]);
        assert("gray"@[0] != "cyan"@[0]);
        assert("grey"@[0] != "blue"@[0]);
        assert("grey"@[0] != "cyan"@[0]);
        assert("grey"@[2] != "gray"@[2]);
        assert("bold"@[1] != "blue"@[1]);
        assert("bold"@[0] != "cyan"@[0]);
        assert("bold"@[0] != "gray"@[0]);
        assert("bold"@[0] != "grey"@[0]);
        assert("dim"@[0] != "red"@[0]);
        assert("italic"@[0] != "yellow"@[0]);
        assert("normal"@[0] != "yellow"@[0]);
        assert("normal"@[0] != "italic"@[0]);
    }
    assert(crate::render::ansi_code("gray"@) == Some("90"@)) by {
        reveal_strlit("black");
        reveal_strlit("red");
        reveal_strlit("green");
        reveal_strlit("yellow");
        reveal_strlit("blue");
        reveal_strlit("magenta");
        reveal_strlit("cyan");
        reveal_strlit("white");
        reveal_strlit("bright_black");
        reveal_strlit("gray");
        reveal_strlit("grey");
        reveal_strlit("bright_red");
        reveal_strlit("bright_green");
        reveal_strlit("bright_yellow");
        reveal_strlit("bright_blue");
        reveal_strlit("bright_magenta");
        reveal_strlit("bright_cyan");
        reveal_strlit("bright_white");
        reveal_strlit("bold");
        reveal_strlit("dim");
        reveal_strlit("italic");
        reveal_strlit("underline");
        reveal_strlit("normal");
        reveal_strlit("90");
        reveal_strlit("1");
        reveal_strlit("2");
        reveal_strlit("3");
        reveal_strlit("4");
        reveal_strlit("0");
        assert("gray"@[0] != "blue"@[0]);
        assert("gray"@[0] != "cyan"@[0]);
        assert("grey"@[0] != "blue"@[0]);
        assert("grey"@[0] != "cyan"@[0]);
        assert("grey"@[2] != "gray"@[2]);
        assert("bold"@[1] != "blue"@[1]);
        assert("bold"@[0] != "cyan"@[0]);
        assert("bold"@[0] != "gray"@[0]);
        assert("bold"@[0] != "grey"@[0]);
        assert("dim"@[0] != "red"@[0]);
        assert("italic"@[0] != "yellow"@[0]);
        assert("normal"@[0] != "yellow"@[0]);
        assert("normal"@[0] != "italic"@[0]);
    }
    assert(crate::render::ansi_code("grey"@) == Some("90"@)) by {
        reveal_strlit("grey");
        assert("grey"@ =~= seq!['g', 'r', 'e', 'y']);
        reveal_strlit("black");
        assert("black"@.len() == 5);
        reveal_strlit("red");
        assert("red"@.len() == 3);
        reveal_strlit("green");
        assert("green"@.len() == 5);
        reveal_strlit("yellow");
        assert("yellow"@.len() == 6);
        reveal_strlit("blue");
        assert("blue"@.len() == 4);
        reveal_strlit("magenta");
        assert("magenta"@.len() == 7);
        reveal_strlit("cyan");
        assert("cyan"@.len() == 4);
        reveal_strlit("white");
        assert("white"@.len() == 5);
        reveal_strlit("bright_black");
        assert("bright_black"@.len() == 12);
        reveal_strlit("gray");
        assert("gray"@.len() == 4);
        assert("gray"@[2] != "grey"@[2]);
        assert("blue"@[0] != "grey"@[0]);
        assert("cyan"@[0] != "grey"@[0]);
        assert("grey"@ != "gray"@);
        reveal_strlit("black");
        reveal_strlit("red");
        reveal_strlit("green");
        reveal_strlit("yellow");
        reveal_strlit("blue");
        reveal_strlit("magenta");
        reveal_strlit("cyan");
        reveal_strlit("white");
        reveal_strlit("bright_black");
        reveal_strlit("gray");
        reveal_strlit("grey");
        reveal_strlit("bright_red");
        reveal_strlit("bright_green");
        reveal_strlit("bright_yellow");
        reveal_strlit("bright_blue");
        reveal_strlit("bright_magenta");
        reveal_strlit("bright_cyan");
        reveal_strlit("bright_white");
        reveal_strlit("bold");
        reveal_strlit("dim");
        reveal_strlit("italic");
        reveal_strlit("underline");
        reveal_strlit("normal");
        reveal_strlit("90");
        reveal_strlit("1");
        reveal_strlit("2");
        reveal_strlit("3");
        reveal_strlit("4");
        reveal_strlit("0");
        assert("gray"@[0] != "blue"@[0]);
        assert("gray"@[0] != "cyan"@[0]);
        assert("grey"@[0] != "blue"@[0]);
        assert("grey"@[0] != "cyan"@[0]);
        assert("grey"@[2] != "gray"@[2]);
        assert("bold"@[1] != "blue"@[1]);
        assert("bold"@[0] != "cyan"@[0]);
        assert("bold"@[0] != "gray"@[0]);
        assert("bold"@[0] != "grey"@[0]);
        assert("dim"@[0] != "red"@[0]);
        assert("italic"@[0] != "yellow"@[0]);
        assert("normal"@[0] != "yellow"@[0]);
        assert("normal"@[0] != "italic"@[0]);
    }
    reveal_with_fuel(dec_text, 3);
    reveal_strlit("90");
    reveal_strlit("0");
    reveal_strlit("1");
    reveal_strlit("2");
    reveal_strlit("3");
    reveal_strlit("4");
    assert(dec_text(90) =~= "90"@);
    assert(dec_text(0) =~= "0"@);
    assert(dec_text(1) =~= "1"@);
    assert(dec_text(2) =~= "2"@);
    assert(dec_text(3) =~= "3"@);
    assert(dec_text(4) =~= "4"@);
    if crate::render::ansi_code(name) is Some {
        if name == "black"@ {
            assert(known_style_names()[0] == name);
        }
        if name == "red"@ {
            assert(known_style_names()[1] == name);
        }
        if name == "green"@ {
            assert(known_style_names()[2] == name);
        }
        if name == "yellow"@ {
            assert(known_style_names()[3] == name);
        }
        if name == "blue"@ {
            assert(known_style_names()[4] == name);
        }
        if name == "magenta"@ {
            assert(known_style_names()[5] == name);
        }
        if name == "cyan"@ {
            assert(known_style_names()[6] == name);
        }
        if name == "white"@ {
            assert(known_style_names()[7] == name);
        }
        if name == "bright_black"@ {
            assert(known_style_names()[8] == name);
        }
        if name == "gray"@ {
            assert(known_style_names()[9] == name);
        }
        if name == "grey"@ {
            assert(known_style_names()[10] == name);
        }
        if name == "bright_red"@ {
            assert(known_style_names()[11] == name);
        }
        if name == "bright_green"@ {
            assert(known_style_names()[12] == name);
        }
        if name == "bright_yellow"@ {
            assert(known_style_names()[13] == name);
        }
        if name == "bright_blue"@ {
            assert(known_style_names()[14] == name);
        }
        if name == "bright_magenta"@ {
            assert(known_style_names()[15] == name);
        }
        if name == "bright_cyan"@ {
            assert(known_style_names()[16] == name);
        }
        if name == "bright_white"@ {
            assert(known_style_names()[17] == name);
        }
        if name == "bold"@ {
            assert(known_style_names()[18] == name);
        }
        if name == "dim"@ {
            assert(known_style_names()[19] == name);
        }
        if name == "italic"@ {
            assert(known_style_names()[20] == name);
        }
        if name == "underline"@ {
            assert(known_style_names()[21] == name);
        }
        if name == "normal"@ {
            assert(known_style_names()[22] == name);
        }
    }
}

/// The strftime specifiers the time format check accepts.
pub open spec fn common_time_specifiers() -> Seq<char> {
    seq!['H', 'M', 'S', 'Y', 'm', 'd', 'A', 'a', 'B', 'b', 'p', 'I', 'Z', 'z', '%', 'f', 'u', 'w', 'j', 'U', 'W', 'c', 'x', 'X']
}

proof fn lemma_common_specifier(c: char)
    ensures
        common_time_specifiers().contains(c) <==> valid_time_specifier(c),
{
    if c == 'H' {
        assert(common_time_specifiers()[0] == c);
    }
    if c == 'M' {
        assert(common_time_specifiers()[1] == c);
    }
    if c == 'S' {
        assert(common_time_specifiers()[2] == c);
    }
    if c == 'Y' {
        assert(common_time_specifiers()[3] == c);
    }
    if c == 'm' {
        assert(common_time_specifiers()[4] == c);
    }
    if c == 'd' {
        assert(common_time_specifiers()[5] == c);
    }
    if c == 'A' {
        assert(common_time_specifiers()[6] == c);
    }
    if c == 'a' {
        assert(common_time_specifiers()[7] == c);
    }
    if c == 'B' {
        assert(common_time_specifiers()[8] == c);
    }
    if c == 'b' {
        assert(common_time_specifiers()[9] == c);
    }
    if c == 'p' {
        assert(common_time_specifiers()[10] == c);
    }
    if c == 'I' {
        assert(common_time_specifiers()[11] == c);
    }
    if c == 'Z' {
        assert(common_time_specifiers()[12] == c);
    }
    if c == 'z' {
        assert(common_time_specifiers()[13] == c);
    }
    if c == '%' {
        assert(common_time_specifiers()[14] == c);
    }
    if c == 'f' {
        assert(common_time_specifiers()[15] == c);
    }
    if c == 'u' {
        assert(common_time_specifiers()[16] == c);
    }
    if c == 'w' {
        assert(common_time_specifiers()[17] == c);
    }
    if c == 'j' {
        assert(common_time_specifiers()[18] == c);
    }
    if c == 'U' {
        assert(common_time_specifiers()[19] == c);
    }
    if c == 'W' {
        assert(common_time_specifiers()[20] == c);
    }
    if c == 'c' {
        assert(common_time_specifiers()[21] == c);
    }
    if c == 'x' {
        assert(common_time_specifiers()[22] == c);
    }
    if c == 'X' {
        assert(common_time_specifiers()[23] == c);
    }
    if common_time_specifiers().contains(c) {
        let k = choose|k: int| 0 <= k < common_time_specifiers().len() && common_time_specifiers()[k] == c;
        assert(valid_time_specifier(common_time_specifiers()[k]));
    }
}

/// The text of a time format written as pieces: `(true, c)` is the specifier `%c`,
/// `(false, c)` the literal character `c`.
pub open spec fn format_from_pieces(pieces: Seq<(bool, char)>) -> Seq<char>
    decreases pieces.len(),
{
    if pieces.len() == 0 {
        Seq::empty()
    } else {
        (if pieces[0].0 {
            seq!['%', pieces[0].1]
        } else {
            seq![pieces[0].1]
        }) + format_from_pieces(pieces.drop_first())
    }
}

proof fn lemma_time_format_shift(x: Seq<char>, y: Seq<char>, i: int)
    requires
        x.len() <= i,
    ensures
        time_format_ok(x + y, i) == time_format_ok(y, i - x.len()),
    decreases (x + y).len() - i,
{
    let t = x + y;
    let j = i - x.len();
    if i < t.len() {
        assert(t[i] == y[j]);
        if i + 1 < t.len() {
            assert(t[i + 1] == y[j + 1]);
        }
        lemma_time_format_shift(x, y, i + 1);
        if i + 1 < t.len() {
            lemma_time_format_shift(x, y, i + 2);
        }
    }
}

/// A time format made of literal text without `%` and of specifiers from
/// `common_time_specifiers` (`%H`, `%M`, `%S`, `%Y`, `%m`, `%d`, `%A`, `%a`, `%B`, `%b`, `%p`,
/// `%I`, `%Z`, `%z`, `%%`, `%f`, `%u`, `%w`, `%j`, `%U`, `%W`, `%c`, `%x`, `%X`), in any order and
/// number, passes the time format check.
pub proof fn law_time_format_accepts(pieces: Seq<(bool, char)>)
    requires
        forall|k: int| 0 <= k < pieces.len() ==> if pieces[k].0 {
            common_time_specifiers().contains(pieces[k].1)
        } else {
            pieces[k].1 != '%'
        },
    ensures
        time_format_ok(format_from_pieces(pieces), 0),
    decreases pieces.len(),
{
    if pieces.len() > 0 {
        let rest = pieces.drop_first();
        assert forall|k: int| 0 <= k < rest.len() implies (if rest[k].0 {
            common_time_specifiers().contains(rest[k].1)
        } else {
            rest[k].1 != '%'
        }) by {
            assert(rest[k] == pieces[k + 1]);
        }
        law_time_format_accepts(rest);
        let c = pieces[0].1;
        if pieces[0].0 {
            let head = seq!['%', c];
            lemma_common_specifier(c);
            lemma_time_format_shift(head, format_from_pieces(rest), 2);
            assert((head + format_from_pieces(rest))[1] == c);
        } else {
            let head = seq![c];
            lemma_time_format_shift(head, format_from_pieces(rest), 1);
            assert((head + format_from_pieces(rest))[0] == c);
        }
    }
}

/// For a time format made of literal text without `%` and of specifiers `%c` with c an
/// ASCII letter or `%`, the check passes exactly when every specifier is one of
/// `common_time_specifiers`.
pub proof fn law_time_format_exact(pieces: Seq<(bool, char)>)
    requires
        forall|k: int| 0 <= k < pieces.len() ==> if pieces[k].0 {
            ('a' <= pieces[k].1 <= 'z') || ('A' <= pieces[k].1 <= 'Z') || pieces[k].1 == '%'
        } else {
            pieces[k].1 != '%'
        },
    ensures
        time_format_ok(format_from_pieces(pieces), 0) <==> (forall|k: int| 0 <= k < pieces.len() && pieces[k].0
            ==> common_time_specifiers().contains(#[trigger] pieces[k].1)),
    decreases pieces.len(),
{
    if pieces.len() > 0 {
        let rest = pieces.drop_first();
        assert forall|k: int| 0 <= k < rest.len() implies (if rest[k].0 {
            ('a' <= rest[k].1 <= 'z') || ('A' <= rest[k].1 <= 'Z') || rest[k].1 == '%'
        } else {
            rest[k].1 != '%'
        }) by {
            assert(rest[k] == pieces[k + 1]);
        }
        law_time_format_exact(rest);
        let c = pieces[0].1;
        lemma_common_specifier(c);
        if pieces[0].0 {
            let head = seq!['%', c];
            lemma_time_format_shift(head, format_from_pieces(rest), 2);
            assert((head + format_from_pieces(rest))[1] == c);
        } else {
            let head = seq![c];
            lemma_time_format_shift(head, format_from_pieces(rest), 1);
            assert((head + format_from_pieces(rest))[0] == c);
        }
        if forall|k: int| 0 <= k < pieces.len() && pieces[k].0 ==> common_time_specifiers().contains(#[trigger] pieces[k].1) {
            assert forall|k: int| 0 <= k < rest.len() && rest[k].0 implies common_time_specifiers().contains(#[trigger] rest[k].1) by {
                assert(rest[k] == pieces[k + 1]);
            }
        }
        if (forall|k: int| 0 <= k < rest.len() && rest[k].0 ==> common_time_specifiers().contains(#[trigger] rest[k].1))
            && (pieces[0].0 ==> common_time_specifiers().contains(c)) {
            assert forall|k: int| 0 <= k < pieces.len() && pieces[k].0 implies common_time_specifiers().contains(#[trigger] pieces[k].1) by {
                if k > 0 {
                    assert(pieces[k] == rest[k - 1]);
                }
            }
        }
    }
}

/// A lone specifier `%c` (c an ASCII letter or `%`) passes the time format check exactly
/// when c is one of `common_time_specifiers`: `%p` and `%I` pass, `%Q` does not.
pub proof fn law_time_specifier_alone(c: char)
    requires
        ('a' <= c <= 'z') || ('A' <= c <= 'Z') || c == '%',
    ensures
        time_format_ok(seq!['%', c], 0) <==> common_time_specifiers().contains(c),
{
    lemma_common_specifier(c);
    let t = seq!['%', c];
    assert(time_format_ok(t, 2));
}

/// The status shown for each charge state is the state's own name, and the battery
/// variables of a reading show that name as `battery_status`; distinct states show
/// distinct names.
pub proof fn law_battery_status(r: BatteryReading, s1: ChargeState, s2: ChargeState)
    ensures
        named_value(battery_entries(Some(r)), "battery_status"@) == Some(match r.state {
            ChargeState::Charging => "Charging"@,
            ChargeState::Discharging => "Discharging"@,
            ChargeState::Full => "Full"@,
            ChargeState::Empty => "Empty"@,
            ChargeState::Unknown => "Unknown"@,
        }),
        s1 != s2 ==> state_name(s1) != state_name(s2),
        named_value(battery_entries(Some(r)), "battery_percentage"@) == Some(dec_text(r.percentage as nat) + "%"@),
        named_value(battery_entries(None), "battery_status"@) is None,
{
    reveal_strlit("battery_percentage");
    reveal_strlit("battery_status");
    reveal_strlit("battery_power");
    reveal_strlit("Charging");
    reveal_strlit("Discharging");
    reveal_strlit("Full");
    reveal_strlit("Empty");
    reveal_strlit("Unknown");
    assert("battery_percentage"@.len() != "battery_status"@.len());
    assert("battery_power"@.len() != "battery_status"@.len());
    assert("Charging"@.len() == 8 && "Discharging"@.len() == 11 && "Full"@.len() == 4);
    assert("Empty"@.len() == 5 && "Unknown"@.len() == 7);
    let head = seq![("battery_percentage"@, dec_text(r.percentage as nat) + "%"@)];
    let st = ("battery_status"@, state_name(r.state));
    let tail = match r.power {
        Some(p) => seq![("battery_power"@, p@)],
        None => Seq::<(Seq<char>, Seq<char>)>::empty(),
    };
    assert(battery_entries(Some(r)) =~= head.push(st) + tail);
    lemma_named_value_at_end(head, st, tail, "battery_status"@);
    lemma_named_value_at_end(head, st, tail, "battery_percentage"@);
    assert(head =~= Seq::<(Seq<char>, Seq<char>)>::empty().push(head[0]));
    lemma_named_value_at_end(Seq::empty(), head[0], Seq::empty(), "battery_percentage"@);
    assert(Seq::<(Seq<char>, Seq<char>)>::empty().push(head[0]) + Seq::<(Seq<char>, Seq<char>)>::empty() =~= head);
}

/// The working directory among the built-in variables is found under the name configured
/// in `[cwd]` (under `cwd` where none is), whatever the other sections are called; it is
/// `?` where the directory could not be read. The time and the host name are found under
/// their configured names (or `time` and `hostname`) where no later section uses the same
/// name.
pub proof fn law_builtin_names(config: Config, time_text: Seq<char>, host: Seq<char>, cwd: Option<Seq<char>>)
    ensures
        config.cwd matches Some(c) ==> named_value(builtin_entries(config, time_text, host, cwd), match c.name {
            Some(n) => n@,
            None => "cwd"@,
        }) == Some(match cwd {
            Some(d) => d,
            None => "?"@,
        }),
        config.time matches Some(t) ==> (
            (config.hostname matches Some(h) ==> crate::providers::builtin::name_or(h.name, "hostname"@)
                != crate::providers::builtin::name_or(t.name, "time"@))
            && (config.cwd matches Some(c) ==> crate::providers::builtin::name_or(c.name, "cwd"@)
                != crate::providers::builtin::name_or(t.name, "time"@))
            ==> named_value(builtin_entries(config, time_text, host, cwd), match t.name {
                Some(n) => n@,
                None => "time"@,
            }) == Some(time_text)),
        config.hostname matches Some(h) ==> (
            (config.cwd matches Some(c) ==> crate::providers::builtin::name_or(c.name, "cwd"@)
                != crate::providers::builtin::name_or(h.name, "hostname"@))
            ==> named_value(builtin_entries(config, time_text, host, cwd), match h.name {
                Some(n) => n@,
                None => "hostname"@,
            }) == Some(crate::text::before_first(host, '.'))),
{
    let a = match config.time {
        Some(t) => seq![(crate::providers::builtin::name_or(t.name, "time"@), time_text)],
        None => Seq::<(Seq<char>, Seq<char>)>::empty(),
    };
    let b = match config.hostname {
        Some(h) => seq![(crate::providers::builtin::name_or(h.name, "hostname"@), crate::text::before_first(host, '.'))],
        None => Seq::<(Seq<char>, Seq<char>)>::empty(),
    };
    let c = match config.cwd {
        Some(cc) => seq![(crate::providers::builtin::name_or(cc.name, "cwd"@), match cwd {
            Some(d) => d,
            None => "?"@,
        })],
        None => Seq::<(Seq<char>, Seq<char>)>::empty(),
    };
    let e = builtin_entries(config, time_text, host, cwd);
    assert(e =~= a + b + c);
    if let Some(cc) = config.cwd {
        let k = crate::providers::builtin::name_or(cc.name, "cwd"@);
        assert(c =~= Seq::<(Seq<char>, Seq<char>)>::empty().push(c[0]));
        lemma_named_value_at_end(a + b, c[0], Seq::empty(), k);
        assert((a + b).push(c[0]) + Seq::<(Seq<char>, Seq<char>)>::empty() =~= e);
    }
    if let Some(t) = config.time {
        let k = crate::providers::builtin::name_or(t.name, "time"@);
        if (config.hostname matches Some(h) ==> crate::providers::builtin::name_or(h.name, "hostname"@) != k)
            && (config.cwd matches Some(cc) ==> crate::providers::builtin::name_or(cc.name, "cwd"@) != k) {
            assert forall|i: int| 0 <= i < (b + c).len() implies (b + c)[i].0 != k by {
                if i < b.len() {
                    assert((b + c)[i] == b[i]);
                } else {
                    assert((b + c)[i] == c[i - b.len()]);
                }
            }
            lemma_named_value_at_end(Seq::empty(), a[0], b + c, k);
            assert(Seq::<(Seq<char>, Seq<char>)>::empty().push(a[0]) =~= a);
            assert(a + (b + c) =~= e);
        }
    }
    if let Some(h) = config.hostname {
        let k = crate::providers::builtin::name_or(h.name, "hostname"@);
        if config.cwd matches Some(cc) ==> crate::providers::builtin::name_or(cc.name, "cwd"@) != k {
            assert forall|i: int| 0 <= i < c.len() implies c[i].0 != k by {}
            lemma_named_value_at_end(a, b[0], c, k);
            assert(a.push(b[0]) =~= a + b);
        }
    }
}

} // verus!
