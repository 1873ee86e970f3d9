//! Checks of a configuration's formats, and the plain rendering used to check that a
//! prompt renders.

use vstd::prelude::*;
use crate::text::{chars_of, extend, find_from, find_char, slice_of, split_char, split_char_exec, string_from, string_views, strings_of, trim, trim_exec, views, str_eq, replace, replace_exec};
use crate::vars::Vars;

verus! {

broadcast use vstd::string::group_string_axioms;

/// The first index at or after `j` holding `}` or `:`.
pub open spec fn name_stop(t: Seq<char>, j: int) -> Option<int>
    decreases t.len() - j,
{
    if j < 0 || j >= t.len() {
        None
    } else if t[j] == '}' || t[j] == ':' {
        Some(j)
    } else {
        name_stop(t, j + 1)
    }
}

/// A placeholder `{name}` or `{name:style}` (name without `}` and `:`, both non-empty)
/// opening at `i`: the end of the name and the index of the closing `}`.
pub open spec fn format_match(t: Seq<char>, i: int) -> Option<(int, int)> {
    if 0 <= i < t.len() && t[i] == '{' {
        match name_stop(t, i + 1) {
            Some(j) => if j <= i + 1 || j >= t.len() {
                None
            } else if t[j] == '}' {
                Some((j, j))
            } else {
                match find_from(t, seq!['}'], j + 1) {
                    Some(k) => if j + 1 < k < t.len() {
                        Some((j, k))
                    } else {
                        None
                    },
                    None => None,
                }
            },
            None => None,
        }
    } else {
        None
    }
}

fn name_stop_exec(t: &[char], j: usize) -> (r: Option<usize>)
    ensures
        match name_stop(t@, j as int) {
            Some(k) => r == Some(k as usize) && j <= k < t@.len() && (t@[k] == '}' || t@[k]
                == ':'),
            None => r is None,
        },
{
    let mut k = j;
    while k < t.len() && t[k] != '}' && t[k] != ':'
        invariant
            j <= k,
            name_stop(t@, j as int) == name_stop(t@, k as int),
        decreases t@.len() - k,
    {
        k = k + 1;
    }
    if k < t.len() {
        Some(k)
    } else {
        None
    }
}

fn format_match_exec(t: &[char], i: usize) -> (r: Option<(usize, usize)>)
    requires
        i < t@.len(),
    ensures
        match format_match(t@, i as int) {
            Some((j, e)) => r == Some((j as usize, e as usize)) && i < j <= e < t@.len(),
            None => r is None,
        },
{
    if t[i] != '{' {
        return None;
    }
    match name_stop_exec(t, i + 1) {
        Some(j) => {
            if j <= i + 1 {
                None
            } else if t[j] == '}' {
                Some((j, j))
            } else {
                match find_char(t, '}', j + 1) {
                    Some(k) => if k > j + 1 {
                        Some((j, k))
                    } else {
                        None
                    },
                    None => None,
                }
            }
        },
        None => None,
    }
}

/// The template variables named by the placeholders of `t` from `i` on (literals and
/// environment variables left out), in order.
pub open spec fn format_names_from(t: Seq<char>, i: int) -> Seq<Seq<char>>
    decreases t.len() - i,
{
    if i < 0 || i >= t.len() {
        Seq::empty()
    } else {
        match format_match(t, i) {
            Some((j, e)) => if i < e {
                let name = t.subrange(i + 1, j);
                (if name[0] != '"' && name[0] != '$' {
                    seq![name]
                } else {
                    Seq::empty()
                }) + format_names_from(t, e + 1)
            } else {
                Seq::empty()
            },
            None => format_names_from(t, i + 1),
        }
    }
}

/// Checks the placeholder syntax of a format and gives the template variables it names.
/// A name is never empty, so this is never an error.
pub fn validate_format_syntax(format: &str) -> (r: Result<Vec<String>, String>)
    ensures
        r matches Ok(v) && string_views(v@) == format_names_from(format@, 0),
{
    let t = chars_of(format);
    let n = t.len();
    let mut out: Vec<Vec<char>> = Vec::new();
    let mut i: usize = 0;
    while i < n
        invariant
            n == t@.len(),
            t@ == format@,
            i <= n,
            views(out@) + format_names_from(t@, i as int) == format_names_from(t@, 0),
        decreases n - i,
    {
        let ghost before = views(out@);
        let ghost i0 = i as int;
        match format_match_exec(&t, i) {
            Some((j, e)) => {
                let name = slice_of(&t, i + 1, j);
                if name[0] != '"' && name[0] != '$' {
                    out.push(name);
                    assert(views(out@) =~= before + seq![name@]);
                } else {
                    assert(views(out@) =~= before + Seq::<Seq<char>>::empty());
                }
                i = e + 1;
            },
            None => {
                i = i + 1;
                assert(views(out@) =~= before);
            },
        }
        proof {
            let piece = views(out@).subrange(before.len() as int, views(out@).len() as int);
            assert(views(out@) =~= before + piece);
            assert(format_names_from(t@, i0) == piece + format_names_from(t@, i as int));
            assert(views(out@) + format_names_from(t@, i as int) =~= before + format_names_from(t@, i0));
        }
    }
    assert(views(out@) =~= views(out@) + format_names_from(t@, n as int));
    Ok(strings_of(&out))
}

} // verus!

verus! {

/// The last index `k` with `lo <= k < hi` holding `c`.
pub open spec fn last_char_in(t: Seq<char>, c: char, lo: int, hi: int) -> Option<int>
    decreases hi - lo,
{
    if hi <= lo {
        None
    } else if t[hi - 1] == c {
        Some(hi - 1)
    } else {
        last_char_in(t, c, lo, hi - 1)
    }
}

/// A placeholder with a style (`{x:style}`, non-empty on both sides of the last `:`)
/// opening at `i`: the index of that `:` and of the closing `}`.
pub open spec fn style_match(t: Seq<char>, i: int) -> Option<(int, int)> {
    if 0 <= i < t.len() && t[i] == '{' {
        match find_from(t, seq!['}'], i + 1) {
            Some(e) => if i < e < t.len() {
                match last_char_in(t, ':', i + 2, e - 1) {
                    Some(c) => Some((c, e)),
                    None => None,
                }
            } else {
                None
            },
            None => None,
        }
    } else {
        None
    }
}

/// The colours and styles that a format may name.
pub open spec fn valid_style_name(p: Seq<char>) -> bool {
    p == "black"@ || p == "red"@ || p == "green"@ || p == "yellow"@ || p == "blue"@ || p
        == "magenta"@ || p == "cyan"@ || p == "white"@ || p == "bright_black"@ || p
        == "bright_red"@ || p == "bright_green"@ || p == "bright_yellow"@ || p == "bright_blue"@
        || p == "bright_magenta"@ || p == "bright_cyan"@ || p == "bright_white"@ || p
        == "bold"@ || p == "italic"@ || p == "underline"@ || p == "dim"@
}

fn valid_style_name_exec(p: &str) -> (b: bool)
    ensures
        b == valid_style_name(p@),
{
    str_eq(p, "black") || str_eq(p, "red") || str_eq(p, "green") || str_eq(p, "yellow")
        || str_eq(p, "blue") || str_eq(p, "magenta") || str_eq(p, "cyan") || str_eq(p, "white")
        || str_eq(p, "bright_black") || str_eq(p, "bright_red") || str_eq(p, "bright_green")
        || str_eq(p, "bright_yellow") || str_eq(p, "bright_blue") || str_eq(p, "bright_magenta")
        || str_eq(p, "bright_cyan") || str_eq(p, "bright_white") || str_eq(p, "bold")
        || str_eq(p, "italic") || str_eq(p, "underline") || str_eq(p, "dim")
}

/// The number of style parts (each trimmed), or the first unknown one.
pub open spec fn check_style_parts(parts: Seq<Seq<char>>) -> Result<nat, Seq<char>>
    decreases parts.len(),
{
    if parts.len() == 0 {
        Ok(0)
    } else if !valid_style_name(trim(parts[0])) {
        Err(trim(parts[0]))
    } else {
        match check_style_parts(parts.drop_first()) {
            Ok(n) => Ok(n + 1),
            Err(p) => Err(p),
        }
    }
}

/// The number of colours and styles named in the styled placeholders of `t` from `i` on,
/// or the first unknown name.
pub open spec fn styles_from(t: Seq<char>, i: int) -> Result<nat, Seq<char>>
    decreases t.len() - i,
{
    if i < 0 || i >= t.len() {
        Ok(0)
    } else {
        match style_match(t, i) {
            Some((c, e)) => if i < e {
                match check_style_parts(split_char(t.subrange(c + 1, e), ',')) {
                    Err(p) => Err(p),
                    Ok(n) => match styles_from(t, e + 1) {
                        Ok(m) => Ok(n + m),
                        Err(p) => Err(p),
                    },
                }
            } else {
                Ok(0)
            },
            None => styles_from(t, i + 1),
        }
    }
}

/// The message for an unknown colour or style.
pub open spec fn unknown_style_message(p: Seq<char>) -> Seq<char> {
    "Unknown color or style: '"@ + p + "'"@
}

proof fn lemma_split_len(s: Seq<char>, c: char)
    ensures
        split_char(s, c).len() <= s.len() + 1,
    decreases s.len(),
{
    crate::text::lemma_find_from(s, seq![c], 0);
    match find_from(s, seq![c], 0) {
        None => {},
        Some(i) => {
            if 0 <= i && i + 1 <= s.len() {
                lemma_split_len(s.subrange(i + 1, s.len() as int), c);
            }
        },
    }
}

proof fn lemma_check_count(parts: Seq<Seq<char>>)
    ensures
        check_style_parts(parts) matches Ok(n) ==> n == parts.len(),
    decreases parts.len(),
{
    if parts.len() > 0 {
        lemma_check_count(parts.drop_first());
    }
}

proof fn lemma_styles_bound(t: Seq<char>, i: int)
    requires
        0 <= i,
    ensures
        styles_from(t, i) matches Ok(n) ==> n <= t.len() + 1 - i || i >= t.len(),
    decreases t.len() - i,
{
    if i < t.len() {
        match style_match(t, i) {
            Some((c, e)) => {
                if i < e {
                    let seg = t.subrange(c + 1, e);
                    lemma_split_len(seg, ',');
                    lemma_check_count(split_char(seg, ','));
                    lemma_styles_bound(t, e + 1);
                    crate::text::lemma_find_from(t, seq!['}'], i + 1);
                    lemma_last_char(t, ':', i + 2, e - 1);
                }
            },
            None => {
                lemma_styles_bound(t, i + 1);
            },
        }
    }
}

proof fn lemma_last_char(t: Seq<char>, c: char, lo: int, hi: int)
    ensures
        last_char_in(t, c, lo, hi) matches Some(k) ==> lo <= k < hi && t[k] == c,
    decreases hi - lo,
{
    if hi > lo && t[hi - 1] != c {
        lemma_last_char(t, c, lo, hi - 1);
    }
}

fn last_char_in_exec(t: &[char], c: char, lo: usize, hi: usize) -> (r: Option<usize>)
    requires
        hi <= t@.len(),
    ensures
        match last_char_in(t@, c, lo as int, hi as int) {
            Some(k) => r == Some(k as usize) && lo <= k < hi,
            None => r is None,
        },
{
    proof {
        lemma_last_char(t@, c, lo as int, hi as int);
    }
    let mut h = hi;
    while h > lo && t[h - 1] != c
        invariant
            h <= hi <= t@.len(),
            last_char_in(t@, c, lo as int, hi as int) == last_char_in(t@, c, lo as int, h as int),
        decreases h,
    {
        h = h - 1;
    }
    if h > lo {
        Some(h - 1)
    } else {
        None
    }
}

fn style_match_exec(t: &[char], i: usize) -> (r: Option<(usize, usize)>)
    requires
        i < t@.len(),
    ensures
        match style_match(t@, i as int) {
            Some((c, e)) => r == Some((c as usize, e as usize)) && i < c < e < t@.len(),
            None => r is None,
        },
{
    if t[i] != '{' {
        return None;
    }
    match find_char(t, '}', i + 1) {
        Some(e) => {
            if e < i + 2 {
                proof {
                    lemma_last_char(t@, ':', i + 2, e - 1);
                }
                return None;
            }
            match last_char_in_exec(t, ':', i + 2, e - 1) {
                Some(c) => Some((c, e)),
                None => None,
            }
        },
        None => None,
    }
}

/// Checks the colours and styles of a format: the number named, or an error naming the
/// first unknown one.
pub fn validate_colors_and_styles(format: &str) -> (r: Result<usize, String>)
    ensures
        match styles_from(format@, 0) {
            Ok(n) => r matches Ok(c) && c == n,
            Err(p) => r matches Err(m) && m@ == unknown_style_message(p),
        },
{
    let t = chars_of(format);
    let n = t.len();
    let mut count: usize = 0;
    let mut i: usize = 0;
    proof {
        lemma_styles_bound(t@, 0);
    }
    while i < n
        invariant
            n == t@.len(),
            t@ == format@,
            i <= n,
            styles_from(t@, 0) == (match styles_from(t@, i as int) {
                Ok(m) => Ok((count + m) as nat),
                Err(p) => Err(p),
            }),
            count <= i + 1,
        decreases n - i,
    {
        let ghost i0 = i as int;
        proof {
            lemma_styles_bound(t@, i0);
        }
        match style_match_exec(&t, i) {
            Some((c, e)) => {
                let parts = split_char_exec(&slice_of(&t, c + 1, e), ',');
                let ghost ps = views(parts@);
                proof {
                    lemma_check_count(ps);
                    lemma_split_len(t@.subrange(c + 1, e as int), ',');
                    lemma_styles_bound(t@, e + 1);
                }
                let mut k: usize = 0;
                assert(ps.skip(0) =~= ps);
                while k < parts.len()
                    invariant
                        k <= parts@.len(),
                        ps == views(parts@),
                        n == t@.len(),
                        t@ == format@,
                        i0 == i,
                        style_match(t@, i0) == Some((c as int, e as int)),
                        i0 < c < e < n,
                        ps == split_char(t@.subrange(c + 1, e as int), ','),
                        styles_from(t@, 0) == (match styles_from(t@, i as int) {
                            Ok(m) => Ok((count + m) as nat),
                            Err(p) => Err(p),
                        }),
                        check_style_parts(ps) == (match check_style_parts(ps.skip(k as int)) {
                            Ok(m) => Ok((m + k) as nat),
                            Err(p) => Err(p),
                        }),
                    decreases parts@.len() - k,
                {
                    let part = string_from(&trim_exec(&parts[k]));
                    proof {
                        assert(ps.skip(k as int)[0] == ps[k as int]);
                        assert(ps.skip(k as int).drop_first() =~= ps.skip(k + 1 as int));
                    }
                    if !valid_style_name_exec(part.as_str()) {
                        proof {
                            assert(check_style_parts(ps.skip(k as int)) == Err::<nat, Seq<char>>(part@));
                            assert(check_style_parts(ps) == Err::<nat, Seq<char>>(part@));
                            assert(styles_from(t@, i0) == Err::<nat, Seq<char>>(part@));
                        }
                        let mut msg = chars_of("Unknown color or style: '");
                        extend(&mut msg, &chars_of(part.as_str()));
                        extend(&mut msg, &chars_of("'"));
                        return Err(string_from(&msg));
                    }
                    k = k + 1;
                }
                assert(ps.skip(k as int) =~= Seq::<Seq<char>>::empty());
                count = count + k;
                i = e + 1;
            },
            None => {
                i = i + 1;
            },
        }
    }
    Ok(count)
}

/// A specifier the time format check accepts.
pub open spec fn valid_time_specifier(c: char) -> bool {
    c == 'H' || c == 'M' || c == 'S' || c == 'Y' || c == 'm' || c == 'd' || c == 'A' || c == 'a'
        || c == 'B' || c == 'b' || c == 'p' || c == 'I' || c == 'Z' || c == 'z' || c == '%' || c
        == 'f' || c == 'u' || c == 'w' || c == 'j' || c == 'U' || c == 'W' || c == 'c' || c == 'x'
        || c == 'X'
}

/// A character that can follow `%` in a specifier: an ASCII letter or `%`.
pub open spec fn specifier_char(c: char) -> bool {
    ('a' <= c <= 'z') || ('A' <= c <= 'Z') || c == '%'
}

/// Every specifier `%x` (x an ASCII letter or `%`) of `t` from `i` on, scanned left to
/// right without overlap, is one of the accepted ones.
pub open spec fn time_format_ok(t: Seq<char>, i: int) -> bool
    decreases t.len() - i,
{
    if i < 0 || i >= t.len() {
        true
    } else if t[i] == '%' && i + 1 < t.len() && specifier_char(t[i + 1]) {
        valid_time_specifier(t[i + 1]) && time_format_ok(t, i + 2)
    } else {
        time_format_ok(t, i + 1)
    }
}

/// Whether a time format uses only the common strftime specifiers.
pub fn validate_time_format(format: &str) -> (b: bool)
    ensures
        b == time_format_ok(format@, 0),
{
    let t = chars_of(format);
    let n = t.len();
    let mut i: usize = 0;
    while i < n
        invariant
            n == t@.len(),
            t@ == format@,
            i <= n + 1,
            time_format_ok(t@, 0) == time_format_ok(t@, i as int),
        decreases n + 1 - i,
    {
        if t[i] == '%' && i + 1 < n && (('a' <= t[i + 1] && t[i + 1] <= 'z') || ('A' <= t[i + 1]
            && t[i + 1] <= 'Z') || t[i + 1] == '%') {
            let c = t[i + 1];
            if !(c == 'H' || c == 'M' || c == 'S' || c == 'Y' || c == 'm' || c == 'd' || c == 'A'
                || c == 'a' || c == 'B' || c == 'b' || c == 'p' || c == 'I' || c == 'Z' || c
                == 'z' || c == '%' || c == 'f' || c == 'u' || c == 'w' || c == 'j' || c == 'U'
                || c == 'W' || c == 'c' || c == 'x' || c == 'X') {
                return false;
            }
            i = i + 2;
        } else {
            i = i + 1;
        }
    }
    true
}

} // verus!

verus! {

/// The end of the parameters of an escape sequence from `k` on: the first index that holds
/// neither a digit nor `;`.
pub open spec fn params_end(t: Seq<char>, k: int) -> int
    decreases t.len() - k,
{
    if 0 <= k < t.len() && (('0' <= t[k] <= '9') || t[k] == ';') {
        params_end(t, k + 1)
    } else {
        k
    }
}

/// An SGR escape sequence `ESC [ params m` opening at `i`: the index of its `m`.
pub open spec fn sgr_end(t: Seq<char>, i: int) -> Option<int> {
    if 0 <= i && i + 1 < t.len() && t[i] == '\x1b' && t[i + 1] == '[' {
        let k = params_end(t, i + 2);
        if i + 2 <= k < t.len() && t[k] == 'm' {
            Some(k)
        } else {
            None
        }
    } else {
        None
    }
}

/// `t` from `i` on without its SGR escape sequences.
pub open spec fn strip_from(t: Seq<char>, i: int) -> Seq<char>
    decreases t.len() - i,
{
    if i < 0 || i >= t.len() {
        Seq::empty()
    } else {
        match sgr_end(t, i) {
            Some(k) => if i < k {
                strip_from(t, k + 1)
            } else {
                Seq::empty()
            },
            None => seq![t[i]] + strip_from(t, i + 1),
        }
    }
}

fn params_end_exec(t: &[char], k: usize) -> (r: usize)
    ensures
        r == params_end(t@, k as int),
        k <= r,
{
    let mut j = k;
    while j < t.len() && (('0' <= t[j] && t[j] <= '9') || t[j] == ';')
        invariant
            k <= j,
            params_end(t@, k as int) == params_end(t@, j as int),
        decreases t@.len() - j,
    {
        j = j + 1;
    }
    j
}

/// The text without its ANSI colour and style escapes (`ESC [ digits-and-; m`).
pub fn strip_ansi_codes(s: &str) -> (out: String)
    ensures
        out@ == strip_from(s@, 0),
{
    let t = chars_of(s);
    let n = t.len();
    let mut out: Vec<char> = Vec::new();
    let mut i: usize = 0;
    while i < n
        invariant
            n == t@.len(),
            t@ == s@,
            i <= n,
            out@ + strip_from(t@, i as int) == strip_from(t@, 0),
        decreases n - i,
    {
        let ghost before = out@;
        let ghost i0 = i as int;
        let mut done = false;
        if i + 1 < n && t[i] == '\x1b' && t[i + 1] == '[' {
            let k = params_end_exec(&t, i + 2);
            if k < n && t[k] == 'm' {
                assert(sgr_end(t@, i0) == Some(k as int));
                i = k + 1;
                done = true;
            }
        }
        if !done {
            assert(sgr_end(t@, i0) is None);
            out.push(t[i]);
            i = i + 1;
        }
        proof {
            let piece = out@.subrange(before.len() as int, out@.len() as int);
            assert(out@ =~= before + piece);
            assert(strip_from(t@, i0) == piece + strip_from(t@, i as int));
            assert(out@ + strip_from(t@, i as int) =~= before + strip_from(t@, i0));
        }
    }
    assert(out@ =~= out@ + strip_from(t@, n as int));
    string_from(&out)
}

/// A name in quotes at both ends: a quoted literal.
pub open spec fn quoted_both(name: Seq<char>) -> bool {
    name.len() > 0 && name[0] == '"' && name.last() == '"'
}

/// What a placeholder name renders to in a plain rendering: a quoted literal its text,
/// `$NAME` the environment variable, another name the variable; empty where unset.
pub open spec fn plain_value(name: Seq<char>, variables: Vars, env: Vars) -> Seq<char> {
    if quoted_both(name) {
        name.subrange(1, name.len() - 1)
    } else {
        let found = if name.len() > 0 && name[0] == '$' {
            env.get_spec(name.drop_first())
        } else {
            variables.get_spec(name)
        };
        match found {
            Some(v) => v,
            None => Seq::empty(),
        }
    }
}

/// No placeholder of `t` from `i` on has the name `"` alone (whose literal text would be
/// cut from index 1 to 0).
pub open spec fn plain_renderable(t: Seq<char>, i: int) -> bool
    decreases t.len() - i,
{
    if i < 0 || i >= t.len() {
        true
    } else {
        match format_match(t, i) {
            Some((j, e)) => if i < e {
                t.subrange(i + 1, j) != seq!['"'] && plain_renderable(t, e + 1)
            } else {
                true
            },
            None => plain_renderable(t, i + 1),
        }
    }
}

/// The plain rendering of `r`, from the placeholders of `t` from `i` on: each placeholder's
/// whole text, in order, replaced everywhere in the text so far by what it renders to.
pub open spec fn plain_render_from(t: Seq<char>, i: int, r: Seq<char>, variables: Vars, env: Vars) -> Seq<char>
    decreases t.len() - i,
{
    if i < 0 || i >= t.len() {
        r
    } else {
        match format_match(t, i) {
            Some((j, e)) => if i < e {
                plain_render_from(
                    t,
                    e + 1,
                    replace(r, t.subrange(i, e + 1), plain_value(t.subrange(i + 1, j), variables, env)),
                    variables,
                    env,
                )
            } else {
                r
            },
            None => plain_render_from(t, i + 1, r, variables, env),
        }
    }
}

/// The prompt rendered without shell formatting and without colour escapes, as a check
/// that the configuration renders.
pub fn render_prompt(template: &str, variables: &Vars, env: &Vars) -> (s: String)
    requires
        plain_renderable(template@, 0),
    ensures
        s@ == strip_from(plain_render_from(template@, 0, template@, *variables, *env), 0),
{
    let t = chars_of(template);
    let n = t.len();
    let mut result = chars_of(template);
    let mut i: usize = 0;
    while i < n
        invariant
            n == t@.len(),
            t@ == template@,
            i <= n,
            plain_renderable(t@, i as int),
            plain_render_from(t@, 0, t@, *variables, *env) == plain_render_from(t@, i as int, result@, *variables, *env),
        decreases n - i,
    {
        match format_match_exec(&t, i) {
            Some((j, e)) => {
                let name = slice_of(&t, i + 1, j);
                let full = slice_of(&t, i, e + 1);
                let value: Vec<char> = if name[0] == '"' && name[name.len() - 1] == '"' {
                    assert(name@ != seq!['"']);
                    assert(name@.len() >= 2) by {
                        if name@.len() == 1 {
                            assert(name@ =~= seq!['"']);
                        }
                    }
                    slice_of(&name, 1, name.len() - 1)
                } else {
                    chars_of(value_or_empty(&name, variables, env).as_str())
                };
                assert(value@ == plain_value(name@, *variables, *env));
                result = replace_exec(&result, &full, &value);
                i = e + 1;
            },
            None => {
                i = i + 1;
            },
        }
    }
    strip_ansi_codes(string_from(&result).as_str())
}

fn value_or_empty(name: &[char], variables: &Vars, env: &Vars) -> (v: String)
    ensures
        v@ == (match (if name@.len() > 0 && name@[0] == '$' {
            env.get_spec(name@.drop_first())
        } else {
            variables.get_spec(name@)
        }) {
            Some(x) => x,
            None => Seq::empty(),
        }),
{
    let found = if name.len() > 0 && name[0] == '$' {
        let rest = slice_of(name, 1, name.len());
        assert(rest@ =~= name@.drop_first());
        env.get(string_from(&rest).as_str())
    } else {
        variables.get(string_from(name).as_str())
    };
    match found {
        Some(v) => string_from(&chars_of(v.as_str())),
        None => String::new(),
    }
}

} // verus!

verus! {

/// Whether the plain rendering can take the template (no placeholder named `"` alone).
pub fn is_plain_renderable(template: &str) -> (b: bool)
    ensures
        b == plain_renderable(template@, 0),
{
    let t = chars_of(template);
    let n = t.len();
    let mut i: usize = 0;
    while i < n
        invariant
            n == t@.len(),
            t@ == template@,
            i <= n,
            plain_renderable(t@, 0) == plain_renderable(t@, i as int),
        decreases n - i,
    {
        match format_match_exec(&t, i) {
            Some((j, e)) => {
                if j == i + 2 && t[i + 1] == '"' {
                    assert(t@.subrange(i + 1, j as int) =~= seq!['"']);
                    return false;
                }
                proof {
                    let sub = t@.subrange(i + 1, j as int);
                    if sub == seq!['"'] {
                        assert(sub.len() == 1);
                        assert(sub[0] == t@[i + 1]);
                        assert(sub[0] == '"');
                    }
                }
                i = e + 1;
            },
            None => {
                i = i + 1;
            },
        }
    }
    true
}

} // verus!
