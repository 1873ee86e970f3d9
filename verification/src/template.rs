//! The template engine: `{name}` and `{name:color,style}` placeholders, quoted literals
//! `{"text":color}`, and the shell-specific colour wrapping of the `tcsh` mode.

use vstd::prelude::*;
use crate::text::{chars_of, extend, is_blank, is_blank_exec, join, join_exec, slice_of, split_char, split_char_exec, string_from, trim, trim_exec, views, eq_chars, find_from, find, find_char, contains, contains_exec, splice, lemma_find_from, occurs_at, replace, replace_exec, rfind, rfind_exec, lines, lines_exec};

verus! {

broadcast use vstd::string::group_string_axioms;

/// What went wrong with a template.
#[derive(Debug)]
pub enum TemplateError {
    InvalidSyntax(String),
}

impl TemplateError {
    /// The message the error shows (`Invalid syntax: ...`).
    pub fn to_string(&self) -> (s: String)
        ensures
            (match self {
                TemplateError::InvalidSyntax(m) => s@ == "Invalid syntax: "@ + m@,
            }),
    {
        match self {
            TemplateError::InvalidSyntax(m) => {
                let mut v = chars_of("Invalid syntax: ");
                extend(&mut v, &chars_of(m.as_str()));
                string_from(&v)
            },
        }
    }
}

/// The ANSI code of a colour or style name, as the template engine knows them.
pub open spec fn color_code(name: Seq<char>) -> Option<Seq<char>> {
    if name == "red"@ {
        Some("31"@)
    } else if name == "green"@ {
        Some("32"@)
    } else if name == "yellow"@ {
        Some("33"@)
    } else if name == "blue"@ {
        Some("34"@)
    } else if name == "magenta"@ {
        Some("35"@)
    } else if name == "cyan"@ {
        Some("36"@)
    } else if name == "white"@ {
        Some("37"@)
    } else if name == "bright_red"@ {
        Some("1;31"@)
    } else if name == "bright_green"@ {
        Some("1;32"@)
    } else if name == "bright_yellow"@ {
        Some("1;33"@)
    } else if name == "bright_blue"@ {
        Some("1;34"@)
    } else if name == "bright_magenta"@ {
        Some("1;35"@)
    } else if name == "bright_cyan"@ {
        Some("1;36"@)
    } else if name == "bright_white"@ {
        Some("1;37"@)
    } else if name == "bold"@ {
        Some("1"@)
    } else if name == "italic"@ {
        Some("3"@)
    } else if name == "normal"@ {
        Some("0"@)
    } else {
        None
    }
}

fn is_name(name: &[char], lit: &str) -> (b: bool)
    ensures
        b == (name@ == lit@),
{
    eq_chars(name, &chars_of(lit))
}

fn code_of(code: &str) -> (v: Option<Vec<char>>)
    ensures
        v matches Some(c) && c@ == code@,
{
    Some(chars_of(code))
}

/// The ANSI code of a colour or style name.
pub fn color_code_exec(name: &[char]) -> (r: Option<Vec<char>>)
    ensures
        match color_code(name@) {
            Some(c) => r matches Some(v) && v@ == c,
            None => r is None,
        },
{
    if is_name(name, "red") {
        code_of("31")
    } else if is_name(name, "green") {
        code_of("32")
    } else if is_name(name, "yellow") {
        code_of("33")
    } else if is_name(name, "blue") {
        code_of("34")
    } else if is_name(name, "magenta") {
        code_of("35")
    } else if is_name(name, "cyan") {
        code_of("36")
    } else if is_name(name, "white") {
        code_of("37")
    } else if is_name(name, "bright_red") {
        code_of("1;31")
    } else if is_name(name, "bright_green") {
        code_of("1;32")
    } else if is_name(name, "bright_yellow") {
        code_of("1;33")
    } else if is_name(name, "bright_blue") {
        code_of("1;34")
    } else if is_name(name, "bright_magenta") {
        code_of("1;35")
    } else if is_name(name, "bright_cyan") {
        code_of("1;36")
    } else if is_name(name, "bright_white") {
        code_of("1;37")
    } else if is_name(name, "bold") {
        code_of("1")
    } else if is_name(name, "italic") {
        code_of("3")
    } else if is_name(name, "normal") {
        code_of("0")
    } else {
        None
    }
}

/// The codes that the comma-separated parts of a format ask for, each part trimmed: in
/// `tcsh` mode unknown names are left out, otherwise they stand for white (`37`).
pub open spec fn format_codes(parts: Seq<Seq<char>>, tcsh: bool) -> Seq<Seq<char>>
    decreases parts.len(),
{
    if parts.len() == 0 {
        Seq::empty()
    } else {
        let rest = format_codes(parts.drop_last(), tcsh);
        match color_code(trim(parts.last())) {
            Some(c) => rest.push(c),
            None => if tcsh {
                rest
            } else {
                rest.push("37"@)
            },
        }
    }
}

/// `text` wrapped in the ANSI codes that `fmt` names (`apply_format`).
pub open spec fn apply_format(text: Seq<char>, fmt: Seq<char>, tcsh: bool) -> Seq<char> {
    if is_blank(fmt) {
        text
    } else {
        let codes = format_codes(split_char(fmt, ','), tcsh);
        if codes.len() == 0 {
            text
        } else if tcsh {
            "%{\x1b["@ + join(codes, ";"@) + "m%}"@ + text + "%{\x1b[0m%}"@
        } else {
            "\x1b["@ + join(codes, ";"@) + "m"@ + text + "\x1b[0m"@
        }
    }
}

/// Wraps `text` in the ANSI codes that `fmt` names.
pub fn apply_format_exec(text: &[char], fmt: &[char], tcsh: bool) -> (out: Vec<char>)
    ensures
        out@ == apply_format(text@, fmt@, tcsh),
{
    if is_blank_exec(fmt) {
        return slice_of(text, 0, text.len());
    }
    let parts = split_char_exec(fmt, ',');
    let mut codes: Vec<Vec<char>> = Vec::new();
    let mut k: usize = 0;
    while k < parts.len()
        invariant
            k <= parts@.len(),
            views(codes@) == format_codes(views(parts@).take(k as int), tcsh),
        decreases parts@.len() - k,
    {
        let p = trim_exec(&parts[k]);
        let ghost before = views(codes@);
        match color_code_exec(&p) {
            Some(c) => {
                codes.push(c);
            },
            None => {
                if !tcsh {
                    codes.push(chars_of("37"));
                }
            },
        }
        k = k + 1;
        assert(views(parts@).take(k as int).drop_last() =~= views(parts@).take(k - 1 as int));
        assert(views(codes@) =~= format_codes(views(parts@).take(k as int), tcsh));
    }
    assert(views(parts@).take(k as int) =~= views(parts@));
    if codes.len() == 0 {
        assert(text@.subrange(0, text@.len() as int) =~= text@);
        return slice_of(text, 0, text.len());
    }
    let joined = join_exec(&codes, &chars_of(";"));
    let mut out: Vec<char>;
    if tcsh {
        out = chars_of("%{\x1b[");
        extend(&mut out, &joined);
        extend(&mut out, &chars_of("m%}"));
        extend(&mut out, text);
        extend(&mut out, &chars_of("%{\x1b[0m%}"));
    } else {
        out = chars_of("\x1b[");
        extend(&mut out, &joined);
        extend(&mut out, &chars_of("m"));
        extend(&mut out, text);
        extend(&mut out, &chars_of("\x1b[0m"));
    }
    out
}


/// The pattern `{name:` that opens a coloured placeholder.
pub open spec fn colored_open(name: Seq<char>) -> Seq<char> {
    seq!['{'] + name + seq![':']
}

/// One coloured-placeholder pass for one variable, from index `pos` on: each `{name:fmt}`
/// becomes the value wrapped in the codes of `fmt` (the bare value where `fmt` holds a
/// space or the placeholder directly follows a `{`), and the scan resumes after the
/// inserted text. `None` where an opening has no `}` after it: the scan never ends there.
pub open spec fn colored_pass(r: Seq<char>, pos: int, name: Seq<char>, value: Seq<char>, tcsh: bool) -> Option<Seq<char>>
    decreases r.len() + 1 - pos,
{
    let pat = colored_open(name);
    if pos < 0 || pos > r.len() {
        None
    } else {
        match find_from(r, pat, pos) {
            None => Some(r),
            Some(start) => if start < pos || start + pat.len() > r.len() {
                None
            } else {
                let after = start + pat.len();
                match find_from(r, seq!['}'], after) {
                    None => None,
                    Some(end) => if end < after || end >= r.len() {
                        None
                    } else {
                        let fmt = r.subrange(after, end);
                        let repl = if contains(fmt, seq![' ']) || (start > 0 && r[start - 1] == '{') {
                            value
                        } else {
                            apply_format(value, fmt, tcsh)
                        };
                        colored_pass(
                            r.subrange(0, start) + repl + r.subrange(end + 1, r.len() as int),
                            start + repl.len(),
                            name,
                            value,
                            tcsh,
                        )
                    },
                }
            },
        }
    }
}

/// Runs the coloured-placeholder pass of one variable over `r`; `None` where the pass
/// never ends (an opening with no `}` after it).
fn colored_pass_exec(r: &[char], name: &[char], value: &[char], tcsh: bool) -> (out: Option<Vec<char>>)
    ensures
        colored_pass(r@, 0, name@, value@, tcsh) == match out {
            Some(o) => Some(o@),
            None => None::<Seq<char>>,
        },
{
    let mut pat: Vec<char> = vec!['{'];
    extend(&mut pat, name);
    pat.push(':');
    assert(pat@ =~= colored_open(name@));
    let ghost r0 = r@;
    let mut res = slice_of(r, 0, r.len());
    assert(r@.subrange(0, r@.len() as int) =~= r@);
    let mut pos: usize = 0;
    loop
        invariant
            r0 == r@,
            pat@ == colored_open(name@),
            pos <= res@.len(),
            colored_pass(res@, pos as int, name@, value@, tcsh) == colored_pass(r0, 0, name@, value@, tcsh),
        decreases res@.len() + 1 - pos,
    {
        proof {
            lemma_find_from(res@, pat@, pos as int);
        }
        match find(&res, &pat, pos) {
            None => {
                assert(find_from(res@, colored_open(name@), pos as int) is None);
                assert(colored_pass(res@, pos as int, name@, value@, tcsh) == Some(res@));
                return Some(res);
            },
            Some(start) => {
                assert(occurs_at(res@, pat@, start as int));
                let n = res.len();
                let after = start + pat.len();
                proof {
                    lemma_find_from(res@, seq!['}'], after as int);
                }
                match find_char(&res, '}', after) {
                    None => {
                        assert(colored_pass(res@, pos as int, name@, value@, tcsh) is None);
                        return None;
                    },
                    Some(end) => {
                        let fmt = slice_of(&res, after, end);
                        let repl = if contains_exec(&fmt, &[' ']) || (start > 0 && res[start - 1] == '{') {
                            slice_of(value, 0, value.len())
                        } else {
                            apply_format_exec(value, &fmt, tcsh)
                        };
                        proof {
                            assert([' ']@ =~= seq![' ']);
                            assert(value@.subrange(0, value@.len() as int) =~= value@);
                        }
                        let next = splice(&res, start, end + 1, &repl);
                        let nl = next.len();
                        assert(start + repl@.len() <= nl);
                        pos = start + repl.len();
                        res = next;
                    },
                }
            },
        }
    }
}


/// The names and values of template variables, as character sequences.
pub open spec fn var_views(vars: Seq<(&str, &str)>) -> Seq<(Seq<char>, Seq<char>)> {
    vars.map_values(|p: (&str, &str)| (p.0@, p.1@))
}

/// The coloured-placeholder passes of all variables, in their order.
pub open spec fn colored_vars(r: Seq<char>, vars: Seq<(Seq<char>, Seq<char>)>, tcsh: bool) -> Option<Seq<char>>
    decreases vars.len(),
{
    if vars.len() == 0 {
        Some(r)
    } else {
        match colored_vars(r, vars.drop_last(), tcsh) {
            None => None,
            Some(r1) => colored_pass(r1, 0, vars.last().0, vars.last().1, tcsh),
        }
    }
}

/// The first `"` at or after `i` that does not follow a backslash.
pub open spec fn closing_quote(r: Seq<char>, i: int) -> Option<int>
    decreases r.len() - i,
{
    if i < 1 || i >= r.len() {
        None
    } else if r[i] == '"' && r[i - 1] != '\\' {
        Some(i)
    } else {
        closing_quote(r, i + 1)
    }
}

/// The text of a quoted literal with each `\"` turned into `"`.
pub open spec fn unescape(t: Seq<char>) -> Seq<char> {
    replace(t, "\\\""@, "\""@)
}

/// The quoted-literal pass from index `pos` on (the part of `r` before `pos` left out):
/// `{"text"}` becomes the text, `{"text":fmt}` the text wrapped in the codes of `fmt`
/// (the bare text where `fmt` holds a space); anything else is kept.
pub open spec fn quoted_from(r: Seq<char>, pos: int, tcsh: bool) -> Seq<char>
    decreases r.len() + 1 - pos,
{
    if pos < 0 || pos > r.len() {
        Seq::empty()
    } else {
        match find_from(r, "{\""@, pos) {
            None => r.subrange(pos, r.len() as int),
            Some(start) => if start < pos || start + 2 > r.len() {
                Seq::empty()
            } else {
                let fallback = r.subrange(pos, start + 1) + quoted_from(r, start + 1, tcsh);
                match closing_quote(r, start + 2) {
                    None => fallback,
                    Some(q) => if q < start + 2 || q >= r.len() {
                        Seq::empty()
                    } else {
                        let text = unescape(r.subrange(start + 2, q));
                        if q + 1 < r.len() && r[q + 1] == ':' {
                            match find_from(r, seq!['}'], q + 1) {
                                None => fallback,
                                Some(end) => if end < q + 2 || end >= r.len() {
                                    Seq::empty()
                                } else {
                                    let color = r.subrange(q + 2, end);
                                    let repl = if contains(color, seq![' ']) {
                                        text
                                    } else {
                                        apply_format(text, color, tcsh)
                                    };
                                    r.subrange(pos, start) + repl + quoted_from(r, end + 1, tcsh)
                                },
                            }
                        } else if q + 1 < r.len() && r[q + 1] == '}' {
                            r.subrange(pos, start) + text + quoted_from(r, q + 2, tcsh)
                        } else {
                            fallback
                        }
                    },
                }
            },
        }
    }
}

/// The first `"` at or after `i` that does not follow a backslash.
fn closing_quote_exec(r: &[char], i: usize) -> (q: Option<usize>)
    requires
        1 <= i,
    ensures
        q matches Some(k) ==> closing_quote(r@, i as int) == Some(k as int) && i <= k < r@.len(),
        q is None ==> closing_quote(r@, i as int) is None,
{
    let mut k = i;
    while k < r.len()
        invariant
            1 <= i <= k,
            closing_quote(r@, i as int) == closing_quote(r@, k as int),
        decreases r@.len() - k,
    {
        if r[k] == '"' && r[k - 1] != '\\' {
            return Some(k);
        }
        k = k + 1;
    }
    None
}


/// One step of the quoted-literal pass at an opening `{"` found at `start`: the text it
/// contributes and the index where the pass goes on.
fn quoted_step(r: &[char], pos: usize, start: usize, tcsh: bool) -> (res: (Vec<char>, usize))
    requires
        pos <= start,
        find_from(r@, "{\""@, pos as int) == Some(start as int),
        occurs_at(r@, "{\""@, start as int),
    ensures
        start < res.1 <= r@.len(),
        res.0@ + quoted_from(r@, res.1 as int, tcsh) == quoted_from(r@, pos as int, tcsh),
{
    let n = r.len();
    let esc_from = ['\\', '"'];
    let esc_to = ['"'];
    assert(esc_from@ =~= "\\\""@) by {
        reveal_strlit("\\\"");
    }
    assert(esc_to@ =~= "\""@) by {
        reveal_strlit("\"");
    }
    assert("{\""@.len() == 2) by {
        reveal_strlit("{\"");
    }
    match closing_quote_exec(r, start + 2) {
        None => {},
        Some(q) => {
            let text = replace_exec(&slice_of(r, start + 2, q), &esc_from, &esc_to);
            if q + 1 < n && r[q + 1] == ':' {
                proof {
                    lemma_find_from(r@, seq!['}'], q + 1);
                }
                match find_char(r, '}', q + 1) {
                    None => {},
                    Some(end) => {
                        let color = slice_of(r, q + 2, end);
                        let repl = if contains_exec(&color, &[' ']) {
                            text
                        } else {
                            apply_format_exec(&text, &color, tcsh)
                        };
                        proof {
                            assert([' ']@ =~= seq![' ']);
                        }
                        let mut piece = slice_of(r, pos, start);
                        extend(&mut piece, &repl);
                        return (piece, end + 1);
                    },
                }
            } else if q + 1 < n && r[q + 1] == '}' {
                let mut piece = slice_of(r, pos, start);
                extend(&mut piece, &text);
                return (piece, q + 2);
            }
        },
    }
    (slice_of(r, pos, start + 1), start + 1)
}

/// Runs the quoted-literal pass over `r`.
fn quoted_exec(r: &[char], tcsh: bool) -> (out: Vec<char>)
    ensures
        out@ == quoted_from(r@, 0, tcsh),
{
    let n = r.len();
    let open = ['{', '"'];
    assert(open@ =~= "{\""@) by {
        reveal_strlit("{\"");
    }
    let mut out: Vec<char> = Vec::new();
    let mut pos: usize = 0;
    loop
        invariant
            n == r@.len(),
            open@ == "{\""@,
            pos <= n,
            out@ + quoted_from(r@, pos as int, tcsh) == quoted_from(r@, 0, tcsh),
        decreases n + 1 - pos,
    {
        proof {
            lemma_find_from(r@, open@, pos as int);
        }
        match find(r, &open, pos) {
            None => {
                let ghost before = out@;
                extend(&mut out, &slice_of(r, pos, n));
                assert(out@ == before + quoted_from(r@, pos as int, tcsh));
                return out;
            },
            Some(start) => {
                let (piece, next) = quoted_step(r, pos, start, tcsh);
                let ghost before = out@;
                extend(&mut out, &piece);
                assert(out@ + quoted_from(r@, next as int, tcsh) =~= before + quoted_from(
                    r@,
                    pos as int,
                    tcsh,
                ));
                pos = next;
            },
        }
    }
}


/// The pattern `{name}` of a plain placeholder.
pub open spec fn plain_pattern(name: Seq<char>) -> Seq<char> {
    seq!['{'] + name + seq!['}']
}

/// `r` after `n` rounds of replacing every `pat` by `val`.
pub open spec fn replace_n(r: Seq<char>, pat: Seq<char>, val: Seq<char>, n: nat) -> Seq<char>
    decreases n,
{
    if n == 0 {
        r
    } else {
        replace(replace_n(r, pat, val, (n - 1) as nat), pat, val)
    }
}

/// After `n` rounds no `pat` is left.
pub open spec fn settles(r: Seq<char>, pat: Seq<char>, val: Seq<char>, n: nat) -> bool {
    !contains(replace_n(r, pat, val, n), pat)
}

/// The plain-placeholder pass of one variable: the occurrences of `{name}` are replaced by
/// the value, round after round, while any is left. `None` where that never stops.
pub open spec fn plain_pass(r: Seq<char>, name: Seq<char>, value: Seq<char>) -> Option<Seq<char>> {
    let pat = plain_pattern(name);
    if exists|n: nat| settles(r, pat, value, n) {
        Some(replace_n(r, pat, value, choose|n: nat| settles(r, pat, value, n)))
    } else {
        None
    }
}

/// The plain-placeholder passes of all variables, in their order.
pub open spec fn plain_vars(r: Seq<char>, vars: Seq<(Seq<char>, Seq<char>)>) -> Option<Seq<char>>
    decreases vars.len(),
{
    if vars.len() == 0 {
        Some(r)
    } else {
        match plain_vars(r, vars.drop_last()) {
            None => None,
            Some(r1) => plain_pass(r1, vars.last().0, vars.last().1),
        }
    }
}

/// All placeholder processing of one piece of template (`process_variables`): coloured
/// placeholders, then quoted literals, then plain placeholders. `None` where a pass would
/// replace a placeholder by text that brings it back, so that the processing never ends.
pub open spec fn process_variables(t: Seq<char>, vars: Seq<(Seq<char>, Seq<char>)>, tcsh: bool) -> Option<Seq<char>> {
    match colored_vars(t, vars, tcsh) {
        None => None,
        Some(r1) => plain_vars(quoted_from(r1, 0, tcsh), vars),
    }
}

proof fn lemma_replace_noop(s: Seq<char>, pat: Seq<char>, val: Seq<char>)
    requires
        pat.len() > 0,
        !contains(s, pat),
    ensures
        replace(s, pat, val) == s,
{
    assert(s.subrange(0, s.len() as int) =~= s);
}

proof fn lemma_settled_stays(r: Seq<char>, pat: Seq<char>, val: Seq<char>, n: nat, m: nat)
    requires
        pat.len() > 0,
        settles(r, pat, val, n),
        n <= m,
    ensures
        replace_n(r, pat, val, m) == replace_n(r, pat, val, n),
    decreases m - n,
{
    if m > n {
        lemma_settled_stays(r, pat, val, n, (m - 1) as nat);
        lemma_replace_noop(replace_n(r, pat, val, n), pat, val);
    }
}

/// Runs the plain-placeholder pass of one variable over `r`.
fn plain_pass_exec(r: &[char], name: &[char], value: &[char]) -> (out: Vec<char>)
    requires
        plain_pass(r@, name@, value@) is Some,
    ensures
        plain_pass(r@, name@, value@) == Some(out@),
{
    let mut pat: Vec<char> = vec!['{'];
    extend(&mut pat, name);
    pat.push('}');
    assert(pat@ =~= plain_pattern(name@));
    let ghost big_n: nat = choose|n: nat| settles(r@, pat@, value@, n);
    let mut res = slice_of(r, 0, r.len());
    assert(r@.subrange(0, r@.len() as int) =~= r@);
    let ghost mut c: nat = 0;
    while contains_exec(&res, &pat)
        invariant
            pat@ == plain_pattern(name@),
            settles(r@, pat@, value@, big_n),
            res@ == replace_n(r@, pat@, value@, c),
            c <= big_n,
        decreases big_n - c,
    {
        proof {
            if c == big_n {
                assert(false);
            }
        }
        res = replace_exec(&res, &pat, value);
        proof {
            c = c + 1;
        }
    }
    proof {
        lemma_settled_stays(r@, pat@, value@, c, big_n);
    }
    res
}

/// Runs all coloured-placeholder passes over `t`.
fn colored_vars_exec(t: &[char], variables: &[(&str, &str)], tcsh: bool) -> (out: Vec<char>)
    requires
        colored_vars(t@, var_views(variables@), tcsh) is Some,
    ensures
        colored_vars(t@, var_views(variables@), tcsh) == Some(out@),
{
    let ghost vs = var_views(variables@);
    let mut res = slice_of(t, 0, t.len());
    assert(t@.subrange(0, t@.len() as int) =~= t@);
    let mut k: usize = 0;
    while k < variables.len()
        invariant
            vs == var_views(variables@),
            k <= variables@.len(),
            colored_vars(t@, vs.take(k as int), tcsh) == Some(res@),
            colored_vars(t@, vs, tcsh) is Some,
        decreases variables@.len() - k,
    {
        proof {
            lemma_colored_vars_prefix(t@, vs, tcsh, k as int + 1);
            assert(vs.take(k + 1 as int).drop_last() =~= vs.take(k as int));
        }
        let (name, value) = variables[k];
        let nc = chars_of(name);
        let vc = chars_of(value);
        res = match colored_pass_exec(&res, &nc, &vc, tcsh) {
            Some(o) => o,
            None => {
                proof {
                    assert(false);
                }
                Vec::new()
            },
        };
        k = k + 1;
    }
    assert(vs.take(k as int) =~= vs);
    res
}

proof fn lemma_colored_vars_prefix(t: Seq<char>, vs: Seq<(Seq<char>, Seq<char>)>, tcsh: bool, k: int)
    requires
        0 <= k <= vs.len(),
        colored_vars(t, vs, tcsh) is Some,
    ensures
        colored_vars(t, vs.take(k), tcsh) is Some,
    decreases vs.len() - k,
{
    if k < vs.len() {
        lemma_colored_vars_prefix(t, vs, tcsh, k + 1);
        assert(vs.take(k + 1).drop_last() =~= vs.take(k));
    } else {
        assert(vs.take(k) =~= vs);
    }
}

proof fn lemma_plain_vars_prefix(t: Seq<char>, vs: Seq<(Seq<char>, Seq<char>)>, k: int)
    requires
        0 <= k <= vs.len(),
        plain_vars(t, vs) is Some,
    ensures
        plain_vars(t, vs.take(k)) is Some,
    decreases vs.len() - k,
{
    if k < vs.len() {
        lemma_plain_vars_prefix(t, vs, k + 1);
        assert(vs.take(k + 1).drop_last() =~= vs.take(k));
    } else {
        assert(vs.take(k) =~= vs);
    }
}

/// Runs all plain-placeholder passes over `t`.
fn plain_vars_exec(t: &[char], variables: &[(&str, &str)]) -> (out: Vec<char>)
    requires
        plain_vars(t@, var_views(variables@)) is Some,
    ensures
        plain_vars(t@, var_views(variables@)) == Some(out@),
{
    let ghost vs = var_views(variables@);
    let mut res = slice_of(t, 0, t.len());
    assert(t@.subrange(0, t@.len() as int) =~= t@);
    let mut k: usize = 0;
    while k < variables.len()
        invariant
            vs == var_views(variables@),
            k <= variables@.len(),
            plain_vars(t@, vs.take(k as int)) == Some(res@),
            plain_vars(t@, vs) is Some,
        decreases variables@.len() - k,
    {
        proof {
            lemma_plain_vars_prefix(t@, vs, k as int + 1);
            assert(vs.take(k + 1 as int).drop_last() =~= vs.take(k as int));
        }
        let (name, value) = variables[k];
        let nc = chars_of(name);
        let vc = chars_of(value);
        res = plain_pass_exec(&res, &nc, &vc);
        k = k + 1;
    }
    assert(vs.take(k as int) =~= vs);
    res
}

/// All placeholder processing of one piece of template.
fn process_variables_exec(t: &[char], variables: &[(&str, &str)], tcsh: bool) -> (out: Vec<char>)
    requires
        process_variables(t@, var_views(variables@), tcsh) is Some,
    ensures
        process_variables(t@, var_views(variables@), tcsh) == Some(out@),
{
    let r1 = colored_vars_exec(t, variables, tcsh);
    let r2 = quoted_exec(&r1, tcsh);
    plain_vars_exec(&r2, variables)
}


/// Every `{` from index `pos` on has a `}` after it, scanning as `validate_variables` does.
pub open spec fn braces_closed_from(t: Seq<char>, pos: int) -> bool
    decreases t.len() + 1 - pos,
{
    if pos < 0 || pos > t.len() {
        true
    } else {
        match find_from(t, seq!['{'], pos) {
            None => true,
            Some(s) => if s < pos || s >= t.len() {
                true
            } else {
                match find_from(t, seq!['}'], s) {
                    None => false,
                    Some(e) => if e < s || e >= t.len() {
                        true
                    } else {
                        braces_closed_from(t, e + 1)
                    },
                }
            },
        }
    }
}

/// Every `{` of the template is closed by a later `}`.
fn braces_closed_exec(t: &[char]) -> (b: bool)
    ensures
        b == braces_closed_from(t@, 0),
{
    let n = t.len();
    let mut pos: usize = 0;
    loop
        invariant
            n == t@.len(),
            pos <= n,
            braces_closed_from(t@, pos as int) == braces_closed_from(t@, 0),
        decreases n + 1 - pos,
    {
        match find_char(t, '{', pos) {
            None => {
                return true;
            },
            Some(s) => {
                proof {
                    lemma_find_from(t@, seq!['}'], s as int);
                }
                match find_char(t, '}', s) {
                    None => {
                        return false;
                    },
                    Some(e) => {
                        pos = e + 1;
                    },
                }
            },
        }
    }
}

/// Each newline replaced by a backslash and an `n`.
pub open spec fn escape_newlines(s: Seq<char>) -> Seq<char>
    decreases s.len(),
{
    if s.len() == 0 {
        Seq::empty()
    } else {
        escape_newlines(s.drop_last()) + if s.last() == '\n' {
            seq!['\\', 'n']
        } else {
            seq![s.last()]
        }
    }
}

fn escape_newlines_exec(s: &[char]) -> (out: Vec<char>)
    ensures
        out@ == escape_newlines(s@),
{
    let mut out: Vec<char> = Vec::new();
    let mut k: usize = 0;
    while k < s.len()
        invariant
            k <= s@.len(),
            out@ == escape_newlines(s@.take(k as int)),
        decreases s@.len() - k,
    {
        if s[k] == '\n' {
            out.push('\\');
            out.push('n');
        } else {
            out.push(s[k]);
        }
        k = k + 1;
        assert(s@.take(k as int).drop_last() =~= s@.take(k - 1 as int));
        assert(out@ =~= escape_newlines(s@.take(k as int)));
    }
    assert(s@.take(k as int) =~= s@);
    out
}

/// Whether output ending in `last` still has a colour switched on: a colour opening after
/// the last reset, or colour somewhere while the last line has none.
pub open spec fn needs_reset(f: Seq<char>, last: Seq<char>, has_last: bool, color: Seq<char>, reset: Seq<char>) -> bool {
    (contains(f, color) && has_last && !contains(last, color)) || (match rfind(f, color) {
        Some(c) => match rfind(f, reset) {
            Some(r) => r < c,
            None => true,
        },
        None => false,
    })
}

/// The `tcsh` output of processed text: newlines escaped and, where a colour opened after
/// the last reset is still on, a final reset. A plain last line after coloured ones gets
/// none.
pub open spec fn tcsh_finish(r: Seq<char>) -> Seq<char> {
    let f = escape_newlines(r);
    if needs_reset(f, Seq::empty(), false, "%{\x1b["@, "%{\x1b[0m%}"@) {
        f + "%{\x1b[0m%}"@
    } else {
        f
    }
}

fn needs_reset_exec(f: &[char], last: &[char], has_last: bool, color: &[char], reset: &[char]) -> (b: bool)
    ensures
        b == needs_reset(f@, last@, has_last, color@, reset@),
{
    if contains_exec(f, color) && has_last && !contains_exec(last, color) {
        return true;
    }
    match rfind_exec(f, color) {
        Some(c) => match rfind_exec(f, reset) {
            Some(r) => r < c,
            None => true,
        },
        None => false,
    }
}

fn tcsh_finish_exec(r: &[char]) -> (out: Vec<char>)
    ensures
        out@ == tcsh_finish(r@),
{
    let f = escape_newlines_exec(r);
    let color = chars_of("%{\x1b[");
    let reset = chars_of("%{\x1b[0m%}");
    let mut out = f;
    let none: Vec<char> = Vec::new();
    assert(none@ =~= Seq::<char>::empty());
    if needs_reset_exec(&out, &none, false, &color, &reset) {
        extend(&mut out, &reset);
    }
    out
}

/// Each line processed, in order; `None` where the processing of one never ends.
pub open spec fn process_lines(ls: Seq<Seq<char>>, vars: Seq<(Seq<char>, Seq<char>)>) -> Option<Seq<Seq<char>>>
    decreases ls.len(),
{
    if ls.len() == 0 {
        Some(Seq::empty())
    } else {
        match process_lines(ls.drop_last(), vars) {
            None => None,
            Some(p) => match process_variables(ls.last(), vars, false) {
                None => None,
                Some(x) => Some(p.push(x)),
            },
        }
    }
}

/// Some line holds an ANSI escape.
pub open spec fn any_colored(ps: Seq<Seq<char>>) -> bool {
    exists|i: int| 0 <= i < ps.len() && contains(#[trigger] ps[i], "\x1b["@)
}

/// The lines that are not blank, in order.
pub open spec fn non_blank(ps: Seq<Seq<char>>) -> Seq<Seq<char>>
    decreases ps.len(),
{
    if ps.len() == 0 {
        Seq::empty()
    } else if is_blank(ps.last()) {
        non_blank(ps.drop_last())
    } else {
        non_blank(ps.drop_last()).push(ps.last())
    }
}

/// The output of the processed lines outside `tcsh` mode: joined by newlines (blank lines
/// left out unless some line has colour) and, where a colour is left on, a final reset.
pub open spec fn plain_finish(ps: Seq<Seq<char>>) -> Seq<char> {
    let result = if any_colored(ps) {
        join(ps, "\n"@)
    } else {
        join(non_blank(ps), "\n"@)
    };
    let ls = lines(result);
    if needs_reset(result, if ls.len() > 0 { ls.last() } else { Seq::empty() }, ls.len() > 0, "\x1b["@, "\x1b[0m"@) {
        result + "\x1b[0m"@
    } else {
        result
    }
}

/// The mode names the `tcsh` shell.
pub open spec fn is_tcsh(mode: Option<&str>) -> bool {
    mode matches Some(m) && m@ == "tcsh"@
}

/// What `format_template` gives: `Some(Err(()))` for an unclosed `{`, `Some(Ok(output))`,
/// or `None` where the placeholder processing never ends.
pub open spec fn format_template_spec(t: Seq<char>, vars: Seq<(Seq<char>, Seq<char>)>, tcsh: bool) -> Option<Result<Seq<char>, ()>> {
    if !braces_closed_from(t, 0) {
        Some(Err(()))
    } else if tcsh {
        match process_variables(t, vars, true) {
            None => None,
            Some(r) => Some(Ok(tcsh_finish(r))),
        }
    } else {
        match process_lines(lines(t), vars) {
            None => None,
            Some(ps) => Some(Ok(plain_finish(ps))),
        }
    }
}


proof fn lemma_process_lines_prefix(ls: Seq<Seq<char>>, vs: Seq<(Seq<char>, Seq<char>)>, k: int)
    requires
        0 <= k <= ls.len(),
        process_lines(ls, vs) is Some,
    ensures
        process_lines(ls.take(k), vs) is Some,
        k < ls.len() ==> process_variables(ls[k], vs, false) is Some,
    decreases ls.len() - k,
{
    if k < ls.len() {
        lemma_process_lines_prefix(ls, vs, k + 1);
        assert(ls.take(k + 1).drop_last() =~= ls.take(k));
        assert(ls.take(k + 1).last() == ls[k]);
    } else {
        assert(ls.take(k) =~= ls);
    }
}

fn plain_finish_exec(ps: &Vec<Vec<char>>) -> (out: Vec<char>)
    ensures
        out@ == plain_finish(views(ps@)),
{
    let ghost vps = views(ps@);
    let esc = chars_of("\x1b[");
    let mut colored = false;
    let mut kept: Vec<Vec<char>> = Vec::new();
    let mut k: usize = 0;
    while k < ps.len()
        invariant
            vps == views(ps@),
            esc@ == "\x1b["@,
            k <= ps@.len(),
            colored == exists|i: int| 0 <= i < k && contains(#[trigger] vps[i], "\x1b["@),
            views(kept@) == non_blank(vps.take(k as int)),
        decreases ps@.len() - k,
    {
        if contains_exec(&ps[k], &esc) {
            colored = true;
        }
        if !is_blank_exec(&ps[k]) {
            kept.push(slice_of(&ps[k], 0, ps[k].len()));
        }
        proof {
            assert(ps@[k as int]@.subrange(0, ps@[k as int]@.len() as int) =~= ps@[k as int]@);
            assert(vps.take(k + 1 as int).drop_last() =~= vps.take(k as int));
            assert(vps.take(k + 1 as int).last() == vps[k as int]);
            assert(views(kept@) =~= non_blank(vps.take(k + 1 as int)));
        }
        k = k + 1;
    }
    assert(vps.take(k as int) =~= vps);
    let nl = chars_of("\n");
    let result = if colored {
        join_exec(ps, &nl)
    } else {
        join_exec(&kept, &nl)
    };
    let rls = lines_exec(&result);
    let nrl = rls.len();
    let last = if nrl > 0 {
        slice_of(&rls[nrl - 1], 0, rls[nrl - 1].len())
    } else {
        Vec::new()
    };
    proof {
        if nrl > 0 {
            assert(views(rls@).last() == rls@[nrl - 1]@);
            assert(rls@[nrl - 1]@.subrange(0, rls@[nrl - 1]@.len() as int) =~= rls@[nrl - 1]@);
        } else {
            assert(last@ =~= Seq::<char>::empty());
        }
    }
    let reset = chars_of("\x1b[0m");
    let mut out = result;
    if needs_reset_exec(&out, &last, nrl > 0, &esc, &reset) {
        extend(&mut out, &reset);
    }
    out
}

/// Formats `template` with the given variables: `{name}` becomes the value of `name`,
/// `{name:color,style}` the value wrapped in ANSI codes, `{"text"}` and `{"text":color}`
/// literal text. In `tcsh` mode the codes are wrapped in `%{...%}` and newlines are
/// written as `\n`; otherwise each line is processed on its own and, where no line has
/// colour, blank lines are dropped. A colour left on at the end is reset. An unclosed `{`
/// is an error. `show_warnings` asks for notes on standard error about unknown colours,
/// styles and modes; none are written here.
pub fn format_template(
    template: &str,
    variables: &[(&str, &str)],
    show_warnings: bool,
    mode: Option<&str>,
) -> (r: Result<String, TemplateError>)
    requires
        format_template_spec(template@, var_views(variables@), is_tcsh(mode)) is Some,
    ensures
        match format_template_spec(template@, var_views(variables@), is_tcsh(mode)) {
            Some(Ok(s)) => r matches Ok(o) && o@ == s,
            Some(Err(())) => r matches Err(TemplateError::InvalidSyntax(m)) && m@ == "Unclosed variable"@,
            None => false,
        },
{
    let t = chars_of(template);
    if !braces_closed_exec(&t) {
        return Err(TemplateError::InvalidSyntax(string_from(&chars_of("Unclosed variable"))));
    }
    let tcsh = match mode {
        Some(m) => eq_chars(&chars_of(m), &chars_of("tcsh")),
        None => false,
    };
    if tcsh {
        let r = process_variables_exec(&t, variables, true);
        let out = tcsh_finish_exec(&r);
        Ok(string_from(&out))
    } else {
        let ls = lines_exec(&t);
        let ghost vls = views(ls@);
        let ghost vs = var_views(variables@);
        let mut ps: Vec<Vec<char>> = Vec::new();
        let mut k: usize = 0;
        while k < ls.len()
            invariant
                vls == views(ls@),
                vls == lines(t@),
                vs == var_views(variables@),
                k <= ls@.len(),
                process_lines(vls, vs) is Some,
                process_lines(vls.take(k as int), vs) == Some(views(ps@)),
            decreases ls@.len() - k,
        {
            proof {
                lemma_process_lines_prefix(vls, vs, k as int);
                assert(vls.take(k + 1 as int).drop_last() =~= vls.take(k as int));
                assert(vls.take(k + 1 as int).last() == vls[k as int]);
            }
            let p = process_variables_exec(&ls[k], variables, false);
            ps.push(p);
            proof {
                assert(views(ps@) =~= views(ps@).drop_last().push(p@));
            }
            k = k + 1;
        }
        assert(vls.take(k as int) =~= vls);
        let out = plain_finish_exec(&ps);
        Ok(string_from(&out))
    }
}

} // verus!

verus! {

/// The plain-placeholder pass of one variable where it settles within `r.len()` rounds;
/// `None` where it needs more (or never settles).
pub open spec fn plain_pass_within(r: Seq<char>, name: Seq<char>, value: Seq<char>) -> Option<Seq<char>> {
    let pat = plain_pattern(name);
    if exists|n: nat| n <= r.len() && settles(r, pat, value, n) {
        Some(replace_n(r, pat, value, choose|n: nat| n <= r.len() && settles(r, pat, value, n)))
    } else {
        None
    }
}

/// The plain-placeholder passes of all variables, each within its bound.
pub open spec fn plain_vars_within(r: Seq<char>, vars: Seq<(Seq<char>, Seq<char>)>) -> Option<Seq<char>>
    decreases vars.len(),
{
    if vars.len() == 0 {
        Some(r)
    } else {
        match plain_vars_within(r, vars.drop_last()) {
            None => None,
            Some(r1) => plain_pass_within(r1, vars.last().0, vars.last().1),
        }
    }
}

/// `process_variables` with each plain pass held to its bound.
pub open spec fn process_variables_within(t: Seq<char>, vars: Seq<(Seq<char>, Seq<char>)>, tcsh: bool) -> Option<Seq<char>> {
    match colored_vars(t, vars, tcsh) {
        None => None,
        Some(r1) => plain_vars_within(quoted_from(r1, 0, tcsh), vars),
    }
}

/// `process_lines` with each plain pass held to its bound.
pub open spec fn process_lines_within(ls: Seq<Seq<char>>, vars: Seq<(Seq<char>, Seq<char>)>) -> Option<Seq<Seq<char>>>
    decreases ls.len(),
{
    if ls.len() == 0 {
        Some(Seq::empty())
    } else {
        match process_lines_within(ls.drop_last(), vars) {
            None => None,
            Some(p) => match process_variables_within(ls.last(), vars, false) {
                None => None,
                Some(x) => Some(p.push(x)),
            },
        }
    }
}

/// `format_template_spec` with each plain pass held to its bound: `None` where a coloured
/// pass never ends or a plain pass does not settle within its bound.
pub open spec fn format_template_within(t: Seq<char>, vars: Seq<(Seq<char>, Seq<char>)>, tcsh: bool) -> Option<Result<Seq<char>, ()>> {
    if !braces_closed_from(t, 0) {
        Some(Err(()))
    } else if tcsh {
        match process_variables_within(t, vars, true) {
            None => None,
            Some(r) => Some(Ok(tcsh_finish(r))),
        }
    } else {
        match process_lines_within(lines(t), vars) {
            None => None,
            Some(ps) => Some(Ok(plain_finish(ps))),
        }
    }
}

proof fn lemma_pass_within(r: Seq<char>, name: Seq<char>, value: Seq<char>)
    requires
        plain_pass_within(r, name, value) is Some,
    ensures
        plain_pass(r, name, value) == plain_pass_within(r, name, value),
{
    let pat = plain_pattern(name);
    let a = choose|n: nat| n <= r.len() && settles(r, pat, value, n);
    assert(exists|n: nat| settles(r, pat, value, n));
    let b = choose|n: nat| settles(r, pat, value, n);
    if a <= b {
        lemma_settled_stays(r, pat, value, a, b);
    } else {
        lemma_settled_stays(r, pat, value, b, a);
    }
}

proof fn lemma_vars_within(r: Seq<char>, vs: Seq<(Seq<char>, Seq<char>)>)
    requires
        plain_vars_within(r, vs) is Some,
    ensures
        plain_vars(r, vs) == plain_vars_within(r, vs),
    decreases vs.len(),
{
    if vs.len() > 0 {
        lemma_vars_within(r, vs.drop_last());
        let r1 = plain_vars_within(r, vs.drop_last())->0;
        lemma_pass_within(r1, vs.last().0, vs.last().1);
    }
}

proof fn lemma_lines_within(ls: Seq<Seq<char>>, vs: Seq<(Seq<char>, Seq<char>)>)
    requires
        process_lines_within(ls, vs) is Some,
    ensures
        process_lines(ls, vs) == process_lines_within(ls, vs),
    decreases ls.len(),
{
    if ls.len() > 0 {
        lemma_lines_within(ls.drop_last(), vs);
        let r1 = colored_vars(ls.last(), vs, false)->0;
        lemma_vars_within(quoted_from(r1, 0, false), vs);
    }
}

/// Where the bounded processing gives a result, it is the processing's result.
pub proof fn lemma_format_template_within(t: Seq<char>, vs: Seq<(Seq<char>, Seq<char>)>, tcsh: bool)
    requires
        format_template_within(t, vs, tcsh) is Some,
    ensures
        format_template_spec(t, vs, tcsh) == format_template_within(t, vs, tcsh),
{
    if braces_closed_from(t, 0) {
        if tcsh {
            let r1 = colored_vars(t, vs, true)->0;
            lemma_vars_within(quoted_from(r1, 0, true), vs);
        } else {
            lemma_lines_within(lines(t), vs);
        }
    }
}

/// The plain-placeholder pass of one variable, held to `r.len()` rounds.
fn plain_pass_bounded(r: &[char], name: &[char], value: &[char]) -> (out: Option<Vec<char>>)
    ensures
        plain_pass_within(r@, name@, value@) == match out {
            Some(o) => Some(o@),
            None => None::<Seq<char>>,
        },
{
    let mut pat: Vec<char> = vec!['{'];
    extend(&mut pat, name);
    pat.push('}');
    assert(pat@ =~= plain_pattern(name@));
    let bound = r.len();
    let mut res = slice_of(r, 0, r.len());
    assert(r@.subrange(0, r@.len() as int) =~= r@);
    let mut c: usize = 0;
    while contains_exec(&res, &pat)
        invariant
            pat@ == plain_pattern(name@),
            bound == r@.len(),
            res@ == replace_n(r@, pat@, value@, c as nat),
            c <= bound,
            forall|m: nat| m < c ==> !settles(r@, pat@, value@, m),
        decreases bound - c,
    {
        assert(!settles(r@, pat@, value@, c as nat));
        if c >= bound {
            proof {
                assert forall|n: nat| n <= r@.len() implies !settles(r@, pat@, value@, n) by {
                    assert(n <= c);
                }
            }
            return None;
        }
        res = replace_exec(&res, &pat, value);
        c = c + 1;
    }
    assert(settles(r@, pat@, value@, c as nat));
    let ghost a = choose|n: nat| n <= r@.len() && settles(r@, pat@, value@, n);
    proof {
        if a <= c {
            lemma_settled_stays(r@, pat@, value@, a, c as nat);
        } else {
            lemma_settled_stays(r@, pat@, value@, c as nat, a);
        }
    }
    Some(res)
}

/// Runs all plain-placeholder passes over `t`, each held to its bound.
fn plain_vars_bounded(t: &[char], variables: &[(&str, &str)]) -> (out: Option<Vec<char>>)
    ensures
        plain_vars_within(t@, var_views(variables@)) == match out {
            Some(o) => Some(o@),
            None => None::<Seq<char>>,
        },
{
    let ghost vs = var_views(variables@);
    let mut res = slice_of(t, 0, t.len());
    assert(t@.subrange(0, t@.len() as int) =~= t@);
    let mut k: usize = 0;
    while k < variables.len()
        invariant
            vs == var_views(variables@),
            k <= variables@.len(),
            plain_vars_within(t@, vs.take(k as int)) == Some(res@),
        decreases variables@.len() - k,
    {
        assert(vs.take(k + 1 as int).drop_last() =~= vs.take(k as int));
        let (name, value) = variables[k];
        let nc = chars_of(name);
        let vc = chars_of(value);
        match plain_pass_bounded(&res, &nc, &vc) {
            Some(o) => {
                res = o;
            },
            None => {
                proof {
                    lemma_within_prefix_none(t@, vs, k as int + 1);
                }
                return None;
            },
        }
        k = k + 1;
    }
    assert(vs.take(k as int) =~= vs);
    Some(res)
}

proof fn lemma_within_prefix_none(t: Seq<char>, vs: Seq<(Seq<char>, Seq<char>)>, k: int)
    requires
        0 <= k <= vs.len(),
        plain_vars_within(t, vs.take(k)) is None,
    ensures
        plain_vars_within(t, vs) is None,
    decreases vs.len() - k,
{
    if k < vs.len() {
        assert(vs.take(k + 1).drop_last() =~= vs.take(k));
        lemma_within_prefix_none(t, vs, k + 1);
    } else {
        assert(vs.take(k) =~= vs);
    }
}

proof fn lemma_colored_prefix_none(t: Seq<char>, vs: Seq<(Seq<char>, Seq<char>)>, tcsh: bool, k: int)
    requires
        0 <= k <= vs.len(),
        colored_vars(t, vs.take(k), tcsh) is None,
    ensures
        colored_vars(t, vs, tcsh) is None,
    decreases vs.len() - k,
{
    if k < vs.len() {
        assert(vs.take(k + 1).drop_last() =~= vs.take(k));
        lemma_colored_prefix_none(t, vs, tcsh, k + 1);
    } else {
        assert(vs.take(k) =~= vs);
    }
}

/// Runs all coloured-placeholder passes over `t`; `None` where one never ends.
fn colored_vars_checked(t: &[char], variables: &[(&str, &str)], tcsh: bool) -> (out: Option<Vec<char>>)
    ensures
        colored_vars(t@, var_views(variables@), tcsh) == match out {
            Some(o) => Some(o@),
            None => None::<Seq<char>>,
        },
{
    let ghost vs = var_views(variables@);
    let mut res = slice_of(t, 0, t.len());
    assert(t@.subrange(0, t@.len() as int) =~= t@);
    let mut k: usize = 0;
    while k < variables.len()
        invariant
            vs == var_views(variables@),
            k <= variables@.len(),
            colored_vars(t@, vs.take(k as int), tcsh) == Some(res@),
        decreases variables@.len() - k,
    {
        assert(vs.take(k + 1 as int).drop_last() =~= vs.take(k as int));
        let (name, value) = variables[k];
        let nc = chars_of(name);
        let vc = chars_of(value);
        match colored_pass_exec(&res, &nc, &vc, tcsh) {
            Some(o) => {
                res = o;
            },
            None => {
                proof {
                    lemma_colored_prefix_none(t@, vs, tcsh, k as int + 1);
                }
                return None;
            },
        }
        k = k + 1;
    }
    assert(vs.take(k as int) =~= vs);
    Some(res)
}

/// All placeholder processing of one piece of template, each plain pass held to its bound.
fn process_variables_bounded(t: &[char], variables: &[(&str, &str)], tcsh: bool) -> (out: Option<Vec<char>>)
    ensures
        process_variables_within(t@, var_views(variables@), tcsh) == match out {
            Some(o) => Some(o@),
            None => None::<Seq<char>>,
        },
{
    match colored_vars_checked(t, variables, tcsh) {
        None => None,
        Some(r1) => {
            let r2 = quoted_exec(&r1, tcsh);
            plain_vars_bounded(&r2, variables)
        },
    }
}

/// As `format_template`, for every input: `None` where the placeholder processing does not
/// end within its bound (see `format_template_within`): a coloured placeholder whose
/// opening has no `}` after it, or a plain placeholder still present after as many
/// replacement rounds as the text has characters. Where it gives a result, the result is
/// `format_template`'s.
pub fn format_template_checked(
    template: &str,
    variables: &[(&str, &str)],
    show_warnings: bool,
    mode: Option<&str>,
) -> (r: Option<Result<String, TemplateError>>)
    ensures
        match format_template_within(template@, var_views(variables@), is_tcsh(mode)) {
            Some(Ok(s)) => r matches Some(Ok(o)) && o@ == s,
            Some(Err(())) => r matches Some(Err(TemplateError::InvalidSyntax(m))) && m@ == "Unclosed variable"@,
            None => r is None,
        },
        format_template_within(template@, var_views(variables@), is_tcsh(mode)) matches Some(w)
            ==> format_template_spec(template@, var_views(variables@), is_tcsh(mode)) == Some(w),
{
    proof {
        if format_template_within(template@, var_views(variables@), is_tcsh(mode)) is Some {
            lemma_format_template_within(template@, var_views(variables@), is_tcsh(mode));
        }
    }
    let t = chars_of(template);
    if !braces_closed_exec(&t) {
        return Some(Err(TemplateError::InvalidSyntax(string_from(&chars_of("Unclosed variable")))));
    }
    let tcsh = match mode {
        Some(m) => eq_chars(&chars_of(m), &chars_of("tcsh")),
        None => false,
    };
    assert(tcsh == is_tcsh(mode));
    if tcsh {
        match process_variables_bounded(&t, variables, true) {
            None => None,
            Some(r) => Some(Ok(string_from(&tcsh_finish_exec(&r)))),
        }
    } else {
        let ls = lines_exec(&t);
        let ghost vls = views(ls@);
        let ghost vs = var_views(variables@);
        let mut ps: Vec<Vec<char>> = Vec::new();
        let mut k: usize = 0;
        while k < ls.len()
            invariant
                vls == views(ls@),
                vls == lines(t@),
                vs == var_views(variables@),
                t@ == template@,
                braces_closed_from(t@, 0),
                !is_tcsh(mode),
                k <= ls@.len(),
                process_lines_within(vls.take(k as int), vs) == Some(views(ps@)),
            decreases ls@.len() - k,
        {
            assert(vls.take(k + 1 as int).drop_last() =~= vls.take(k as int));
            assert(vls.take(k + 1 as int).last() == vls[k as int]);
            assert(ls@[k as int]@ == vls[k as int]);
            match process_variables_bounded(&ls[k], variables, false) {
                Some(p) => {
                    ps.push(p);
                    assert(views(ps@) =~= views(ps@).drop_last().push(p@));
                },
                None => {
                    proof {
                        lemma_lines_prefix_none(vls, vs, k as int + 1);
                    }
                    return None;
                },
            }
            k = k + 1;
        }
        assert(vls.take(k as int) =~= vls);
        Some(Ok(string_from(&plain_finish_exec(&ps))))
    }
}

proof fn lemma_lines_prefix_none(ls: Seq<Seq<char>>, vs: Seq<(Seq<char>, Seq<char>)>, k: int)
    requires
        0 <= k <= ls.len(),
        process_lines_within(ls.take(k), vs) is None,
    ensures
        process_lines_within(ls, vs) is None,
    decreases ls.len() - k,
{
    if k < ls.len() {
        assert(ls.take(k + 1).drop_last() =~= ls.take(k));
        lemma_lines_prefix_none(ls, vs, k + 1);
    } else {
        assert(ls.take(k) =~= ls);
    }
}

} // verus!
