//! Rendering a prompt template: conditional spaces, placeholders, literals and colours.

use vstd::prelude::*;
use crate::text::{chars_of, extend, string_from, slice_of, find_from, find_char, first_non_ws, is_ws_exec, split_char, split_char_exec, trim, trim_exec, join, join_exec, views, str_eq, lemma_split_nonempty, string_views, strings_of, contains_chars};
use crate::vars::Vars;
use crate::shell::ShellFormatter;

verus! {

broadcast use vstd::string::group_string_axioms;

/// `c` up to its first `:` (`split(':').next()`).
pub open spec fn before_colon(c: Seq<char>) -> Seq<char> {
    match find_from(c, seq![':'], 0) {
        None => c,
        Some(i) => if 0 <= i <= c.len() {
            c.subrange(0, i)
        } else {
            c
        },
    }
}

fn before_colon_exec(c: &[char]) -> (out: Vec<char>)
    ensures
        out@ == before_colon(c@),
{
    match find_char(c, ':', 0) {
        None => {
            assert(c@.subrange(0, c@.len() as int) =~= c@);
            slice_of(c, 0, c.len())
        },
        Some(i) => slice_of(c, 0, i),
    }
}

/// The name in the first placeholder of `s` after leading whitespace: `None` where `s`
/// does not start (after whitespace) with a closed `{...}`, or where that holds a quoted
/// literal.
pub open spec fn next_variable(s: Seq<char>) -> Option<Seq<char>> {
    let pos = first_non_ws(s, 0);
    if pos < 0 || pos >= s.len() || s[pos] != '{' {
        None
    } else {
        match find_from(s, seq!['}'], pos + 1) {
            None => None,
            Some(end) => if end < pos + 1 || end > s.len() {
                None
            } else {
                let content = s.subrange(pos + 1, end);
                if content.len() > 0 && content[0] == '"' {
                    None
                } else {
                    Some(before_colon(content))
                }
            },
        }
    }
}

/// The variable name of the next `{var}` or `{var:color}` in `chars` (after whitespace).
pub fn extract_next_variable(chars: &[char]) -> (r: Option<String>)
    ensures
        match next_variable(chars@) {
            Some(v) => r matches Some(s) && s@ == v,
            None => r is None,
        },
{
    let n = chars.len();
    let mut pos: usize = 0;
    while pos < n && is_ws_exec(chars[pos])
        invariant
            n == chars@.len(),
            pos <= n,
            first_non_ws(chars@, 0) == first_non_ws(chars@, pos as int),
        decreases n - pos,
    {
        pos = pos + 1;
    }
    if pos >= n || chars[pos] != '{' {
        return None;
    }
    match find_char(chars, '}', pos + 1) {
        None => None,
        Some(end) => {
            let content = slice_of(chars, pos + 1, end);
            if content.len() > 0 && content[0] == '"' {
                None
            } else {
                Some(string_from(&before_colon_exec(&content)))
            }
        },
    }
}

/// Whether a variable has a non-empty value: `$NAME` in the environment, other names among
/// the variables.
pub open spec fn has_value(name: Seq<char>, variables: Vars, env: Vars) -> bool {
    if name.len() > 0 && name[0] == '$' {
        env.get_spec(name.drop_first()) matches Some(v) && v.len() > 0
    } else {
        variables.get_spec(name) matches Some(v) && v.len() > 0
    }
}

/// Whether the variable (or, for `$NAME`, the environment variable) has a non-empty value.
pub fn variable_has_value(var_name: &str, variables: &Vars, env: &Vars) -> (b: bool)
    ensures
        b == has_value(var_name@, *variables, *env),
{
    let c = chars_of(var_name);
    if c.len() > 0 && c[0] == '$' {
        let rest = slice_of(&c, 1, c.len());
        assert(rest@ =~= var_name@.drop_first());
        match env.get(string_from(&rest).as_str()) {
            Some(v) => chars_of(v.as_str()).len() > 0,
            None => false,
        }
    } else {
        match variables.get(var_name) {
            Some(v) => chars_of(v.as_str()).len() > 0,
            None => false,
        }
    }
}

/// The template with each conditional space resolved, from index `i` on: `\~` is a literal
/// `~`; `~` before a placeholder is a space where that variable has a value and nothing
/// where it has none; a `~` before anything else stays.
pub open spec fn cond_spaces_from(t: Seq<char>, i: int, variables: Vars, env: Vars) -> Seq<char>
    decreases t.len() - i,
{
    if i < 0 || i >= t.len() {
        Seq::empty()
    } else if t[i] == '\\' && i + 1 < t.len() && t[i + 1] == '~' {
        seq!['~'] + cond_spaces_from(t, i + 2, variables, env)
    } else if t[i] == '~' {
        (match next_variable(t.subrange(i + 1, t.len() as int)) {
            Some(v) => if has_value(v, variables, env) {
                seq![' ']
            } else {
                Seq::empty()
            },
            None => seq!['~'],
        }) + cond_spaces_from(t, i + 1, variables, env)
    } else {
        seq![t[i]] + cond_spaces_from(t, i + 1, variables, env)
    }
}

/// Resolves the conditional spaces (`~`) of a template.
pub fn process_conditional_spaces(template: &str, variables: &Vars, env: &Vars) -> (s: String)
    ensures
        s@ == cond_spaces_from(template@, 0, *variables, *env),
{
    let t = chars_of(template);
    let n = t.len();
    let mut out: Vec<char> = Vec::new();
    let mut i: usize = 0;
    while i < n
        invariant
            n == t@.len(),
            t@ == template@,
            i <= n + 1,
            out@ + cond_spaces_from(t@, i as int, *variables, *env) == cond_spaces_from(t@, 0, *variables, *env),
        decreases n + 1 - i,
    {
        let ghost before = out@;
        let ghost i0 = i as int;
        if t[i] == '\\' && i + 1 < n && t[i + 1] == '~' {
            out.push('~');
            i = i + 2;
        } else if t[i] == '~' {
            let rest = slice_of(&t, i + 1, n);
            match extract_next_variable(&rest) {
                Some(v) => {
                    if variable_has_value(v.as_str(), variables, env) {
                        out.push(' ');
                    }
                },
                None => {
                    out.push('~');
                },
            }
            i = i + 1;
        } else {
            out.push(t[i]);
            i = i + 1;
        }
        proof {
            let piece = out@.subrange(before.len() as int, out@.len() as int);
            assert(out@ =~= before + piece);
            assert(cond_spaces_from(t@, i0, *variables, *env) == piece + cond_spaces_from(t@, i as int, *variables, *env));
            assert(out@ + cond_spaces_from(t@, i as int, *variables, *env) =~= before + cond_spaces_from(t@, i0, *variables, *env));
        }
    }
    string_from(&out)
}

} // verus!

verus! {

/// The ANSI code of a colour or style name.
pub open spec fn ansi_code(name: Seq<char>) -> Option<Seq<char>> {
    if name == "black"@ {
        Some("30"@)
    } else if name == "red"@ {
        Some("31"@)
    } else if name == "green"@ {
        Some("32"@)
    } else if name == "yellow"@ {
        Some("33"@)
    } else if name == "blue"@ {
        Some("34"@)
    } else if name == "magenta"@ {
        Some("35"@)
    } else if name == "cyan"@ {
        Some("36"@)
    } else if name == "white"@ {
        Some("37"@)
    } else if name == "bright_black"@ || name == "gray"@ || name == "grey"@ {
        Some("90"@)
    } else if name == "bright_red"@ {
        Some("91"@)
    } else if name == "bright_green"@ {
        Some("92"@)
    } else if name == "bright_yellow"@ {
        Some("93"@)
    } else if name == "bright_blue"@ {
        Some("94"@)
    } else if name == "bright_magenta"@ {
        Some("95"@)
    } else if name == "bright_cyan"@ {
        Some("96"@)
    } else if name == "bright_white"@ {
        Some("97"@)
    } else if name == "bold"@ {
        Some("1"@)
    } else if name == "dim"@ {
        Some("2"@)
    } else if name == "italic"@ {
        Some("3"@)
    } else if name == "underline"@ {
        Some("4"@)
    } else if name == "normal"@ {
        Some("0"@)
    } else {
        None
    }
}

/// The ANSI code of a colour or style name (`None` for an unknown name).
pub fn get_ansi_code(name: &str) -> (r: Option<&'static str>)
    ensures
        match ansi_code(name@) {
            Some(c) => r matches Some(s) && s@ == c,
            None => r is None,
        },
{
    if str_eq(name, "black") {
        Some("30")
    } else if str_eq(name, "red") {
        Some("31")
    } else if str_eq(name, "green") {
        Some("32")
    } else if str_eq(name, "yellow") {
        Some("33")
    } else if str_eq(name, "blue") {
        Some("34")
    } else if str_eq(name, "magenta") {
        Some("35")
    } else if str_eq(name, "cyan") {
        Some("36")
    } else if str_eq(name, "white") {
        Some("37")
    } else if str_eq(name, "bright_black") || str_eq(name, "gray") || str_eq(name, "grey") {
        Some("90")
    } else if str_eq(name, "bright_red") {
        Some("91")
    } else if str_eq(name, "bright_green") {
        Some("92")
    } else if str_eq(name, "bright_yellow") {
        Some("93")
    } else if str_eq(name, "bright_blue") {
        Some("94")
    } else if str_eq(name, "bright_magenta") {
        Some("95")
    } else if str_eq(name, "bright_cyan") {
        Some("96")
    } else if str_eq(name, "bright_white") {
        Some("97")
    } else if str_eq(name, "bold") {
        Some("1")
    } else if str_eq(name, "dim") {
        Some("2")
    } else if str_eq(name, "italic") {
        Some("3")
    } else if str_eq(name, "underline") {
        Some("4")
    } else if str_eq(name, "normal") {
        Some("0")
    } else {
        None
    }
}

/// The codes of the known names among the comma-separated parts (each trimmed), in order.
pub open spec fn style_codes(parts: Seq<Seq<char>>) -> Seq<Seq<char>>
    decreases parts.len(),
{
    if parts.len() == 0 {
        Seq::empty()
    } else {
        let before = style_codes(parts.drop_last());
        match ansi_code(trim(parts.last())) {
            Some(c) => before.push(c),
            None => before,
        }
    }
}

/// `text` coloured by a style list such as `red,bold`: unchanged where no name in it is
/// known, else wrapped by the formatter in the escape of the known codes joined with `;`
/// and the reset escape.
pub open spec fn colorized<F: ShellFormatter>(f: &F, text: Seq<char>, style: Seq<char>) -> Seq<char> {
    let codes = style_codes(split_char(style, ','));
    if codes.len() == 0 {
        text
    } else {
        f.ansi_spec("\x1b["@ + join(codes, ";"@) + "m"@, text, "\x1b[0m"@)
    }
}

/// Applies the colours and styles of `style_spec` (such as `red,bold`) to `text`.
pub fn colorize<F: ShellFormatter>(text: &str, style_spec: &str, formatter: &F) -> (s: String)
    ensures
        s@ == colorized(formatter, text@, style_spec@),
{
    let parts = split_char_exec(&chars_of(style_spec), ',');
    let mut codes: Vec<Vec<char>> = Vec::new();
    let mut k: usize = 0;
    while k < parts.len()
        invariant
            k <= parts@.len(),
            views(parts@) == split_char(style_spec@, ','),
            views(codes@) == style_codes(views(parts@).take(k as int)),
        decreases parts@.len() - k,
    {
        let name = string_from(&trim_exec(&parts[k]));
        let ghost before = views(codes@);
        match get_ansi_code(name.as_str()) {
            Some(c) => {
                codes.push(chars_of(c));
                assert(views(codes@) =~= before.push(c@));
            },
            None => {},
        }
        proof {
            assert(views(parts@).take(k + 1 as int).drop_last() =~= views(parts@).take(k as int));
            assert(views(parts@).take(k + 1 as int).last() == parts@[k as int]@);
        }
        k = k + 1;
    }
    assert(views(parts@).take(k as int) =~= views(parts@));
    if codes.len() == 0 {
        string_from(&chars_of(text))
    } else {
        let mut code = chars_of("\x1b[");
        extend(&mut code, &join_exec(&codes, &chars_of(";")));
        extend(&mut code, &chars_of("m"));
        formatter.format_ansi(string_from(&code).as_str(), text, "\x1b[0m")
    }
}

/// `s` without its leading and trailing `"` characters (`trim_matches('"')`).
pub open spec fn trim_quotes(s: Seq<char>) -> Seq<char>
    decreases s.len(),
{
    if s.len() > 0 && s[0] == '"' {
        trim_quotes(s.drop_first())
    } else if s.len() > 0 && s.last() == '"' {
        trim_quotes(s.drop_last())
    } else {
        s
    }
}

fn trim_quotes_exec(s: &[char]) -> (out: Vec<char>)
    ensures
        out@ == trim_quotes(s@),
{
    let mut lo: usize = 0;
    let mut hi: usize = s.len();
    assert(s@.subrange(0, s@.len() as int) =~= s@);
    while lo < hi && s[lo] == '"'
        invariant
            lo <= hi == s@.len(),
            trim_quotes(s@) == trim_quotes(s@.subrange(lo as int, hi as int)),
        decreases hi - lo,
    {
        assert(s@.subrange(lo as int, hi as int).drop_first() =~= s@.subrange(lo + 1, hi as int));
        lo = lo + 1;
    }
    while hi > lo && s[hi - 1] == '"'
        invariant
            lo <= hi <= s@.len(),
            lo < hi ==> s@[lo as int] != '"',
            trim_quotes(s@) == trim_quotes(s@.subrange(lo as int, hi as int)),
        decreases hi - lo,
    {
        assert(s@.subrange(lo as int, hi as int).drop_last() =~= s@.subrange(lo as int, hi - 1));
        hi = hi - 1;
    }
    slice_of(s, lo, hi)
}

/// The text of a literal placeholder `"text"` or `"text":style`.
pub open spec fn literal_text<F: ShellFormatter>(f: &F, content: Seq<char>) -> Seq<char> {
    match find_from(content, seq![':'], 0) {
        Some(p) => if 0 <= p < content.len() {
            colorized(f, trim_quotes(content.subrange(0, p)), content.subrange(p + 1, content.len() as int))
        } else {
            trim_quotes(content)
        },
        None => trim_quotes(content),
    }
}

/// The text of a literal placeholder: `"text"` without its quotes, `"text":style` coloured.
pub fn handle_literal<F: ShellFormatter>(content: &str, formatter: &F) -> (s: String)
    ensures
        s@ == literal_text(formatter, content@),
{
    let c = chars_of(content);
    let n = c.len();
    match find_char(&c, ':', 0) {
        Some(p) => {
            let text = string_from(&trim_quotes_exec(&slice_of(&c, 0, p)));
            let style = string_from(&slice_of(&c, p + 1, n));
            colorize(text.as_str(), style.as_str(), formatter)
        },
        None => string_from(&trim_quotes_exec(&c)),
    }
}

/// The value of a variable (`$NAME`: of the environment variable): empty where it is unset.
pub open spec fn variable_value(name: Seq<char>, variables: Vars, env: Vars) -> Seq<char> {
    let found = if name.len() > 0 && name[0] == '$' {
        env.get_spec(name.drop_first())
    } else {
        variables.get_spec(name)
    };
    match found {
        Some(v) => v,
        None => Seq::empty(),
    }
}

/// The text of a variable placeholder `name` or `name:style`: its value, coloured by the
/// style between the first and a second `:`.
pub open spec fn variable_text<F: ShellFormatter>(f: &F, content: Seq<char>, variables: Vars, env: Vars) -> Seq<char> {
    let parts = split_char(content, ':');
    let value = variable_value(parts[0], variables, env);
    if parts.len() > 1 {
        colorized(f, value, parts[1])
    } else {
        value
    }
}

fn value_of(name: &[char], variables: &Vars, env: &Vars) -> (v: String)
    ensures
        v@ == variable_value(name@, *variables, *env),
{
    let found = if name.len() > 0 && name[0] == '$' {
        let rest = slice_of(name, 1, name.len());
        assert(rest@ =~= name@.drop_first());
        env.get(string_from(&rest).as_str())
    } else {
        variables.get(string_from(name).as_str())
    };
    match found {
        Some(v) => string_from(&chars_of(v.as_str())),
        None => String::new(),
    }
}

/// The text of a variable placeholder: the value, coloured where a style follows a `:`.
pub fn handle_variable<F: ShellFormatter>(content: &str, variables: &Vars, env: &Vars, formatter: &F) -> (s: String)
    ensures
        s@ == variable_text(formatter, content@, *variables, *env),
{
    let parts = split_char_exec(&chars_of(content), ':');
    proof {
        lemma_split_nonempty(content@, ':');
        assert(views(parts@).len() == parts@.len());
    }
    let value = value_of(&parts[0], variables, env);
    if parts.len() > 1 {
        colorize(value.as_str(), string_from(&parts[1]).as_str(), formatter)
    } else {
        value
    }
}

/// The text that a placeholder with the given content becomes.
pub open spec fn placeholder_text<F: ShellFormatter>(f: &F, content: Seq<char>, variables: Vars, env: Vars) -> Seq<char> {
    if content.len() > 0 && content[0] == '"' {
        literal_text(f, content)
    } else {
        variable_text(f, content, variables, env)
    }
}

/// The end of a placeholder `{...}` with non-empty content opening at `i` (the first `}`
/// after it).
pub open spec fn placeholder_end(t: Seq<char>, i: int) -> Option<int> {
    if 0 <= i < t.len() && t[i] == '{' {
        match find_from(t, seq!['}'], i + 1) {
            Some(e) => if i + 1 < e < t.len() {
                Some(e)
            } else {
                None
            },
            None => None,
        }
    } else {
        None
    }
}

/// `t` from index `i` on with each placeholder replaced by its text, left to right.
pub open spec fn subst_from<F: ShellFormatter>(f: &F, t: Seq<char>, i: int, variables: Vars, env: Vars) -> Seq<char>
    decreases t.len() - i,
{
    if i < 0 || i >= t.len() {
        Seq::empty()
    } else {
        match placeholder_end(t, i) {
            Some(e) => if i < e {
                placeholder_text(f, t.subrange(i + 1, e), variables, env) + subst_from(f, t, e + 1, variables, env)
            } else {
                Seq::empty()
            },
            None => seq![t[i]] + subst_from(f, t, i + 1, variables, env),
        }
    }
}

/// The rendered template: conditional spaces resolved, then every placeholder replaced.
pub open spec fn substituted<F: ShellFormatter>(f: &F, template: Seq<char>, variables: Vars, env: Vars) -> Seq<char> {
    subst_from(f, cond_spaces_from(template, 0, variables, env), 0, variables, env)
}

/// Renders a template: `{var}`, `{var:style}`, `{"text":style}`, `{$ENV}` and the
/// conditional spaces `~`, with the colour codes wrapped by the formatter.
pub fn substitute_variables<F: ShellFormatter>(template: &str, variables: &Vars, env: &Vars, formatter: &F) -> (s: String)
    ensures
        s@ == substituted(formatter, template@, *variables, *env),
{
    let spaced = process_conditional_spaces(template, variables, env);
    let t = chars_of(spaced.as_str());
    let n = t.len();
    let mut out: Vec<char> = Vec::new();
    let mut i: usize = 0;
    while i < n
        invariant
            n == t@.len(),
            t@ == cond_spaces_from(template@, 0, *variables, *env),
            i <= n,
            out@ + subst_from(formatter, t@, i as int, *variables, *env) == subst_from(formatter, t@, 0, *variables, *env),
        decreases n - i,
    {
        let ghost before = out@;
        let ghost i0 = i as int;
        let mut done = false;
        if t[i] == '{' {
            match find_char(&t, '}', i + 1) {
                Some(e) => {
                    if e > i + 1 {
                        assert(placeholder_end(t@, i0) == Some(e as int));
                        let cc = slice_of(&t, i + 1, e);
                        let content = string_from(&cc);
                        let piece = if cc.len() > 0 && cc[0] == '"' {
                            handle_literal(content.as_str(), formatter)
                        } else {
                            handle_variable(content.as_str(), variables, env, formatter)
                        };
                        assert(piece@ == placeholder_text(formatter, t@.subrange(i0 + 1, e as int), *variables, *env));
                        extend(&mut out, &chars_of(piece.as_str()));
                        i = e + 1;
                        done = true;
                    } else {
                        assert(placeholder_end(t@, i0) is None);
                    }
                },
                None => {
                    assert(placeholder_end(t@, i0) is None);
                },
            }
        } else {
            assert(placeholder_end(t@, i0) is None);
        }
        if !done {
            out.push(t[i]);
            i = i + 1;
        }
        proof {
            let piece = out@.subrange(before.len() as int, out@.len() as int);
            assert(out@ =~= before + piece);
            assert(subst_from(formatter, t@, i0, *variables, *env) == piece + subst_from(formatter, t@, i as int, *variables, *env));
            assert(out@ + subst_from(formatter, t@, i as int, *variables, *env) =~= before + subst_from(formatter, t@, i0, *variables, *env));
        }
    }
    string_from(&out)
}

} // verus!

verus! {

/// The end of a brace pair opening at `i`: the first `}` after it (the content may be empty).
pub open spec fn brace_end(t: Seq<char>, i: int) -> Option<int> {
    if 0 <= i < t.len() && t[i] == '{' {
        match find_from(t, seq!['}'], i + 1) {
            Some(e) => if i < e < t.len() {
                Some(e)
            } else {
                None
            },
            None => None,
        }
    } else {
        None
    }
}

/// A placeholder content that names a template variable: neither a literal (`"`) nor an
/// environment variable (`$`).
pub open spec fn names_variable(content: Seq<char>) -> bool {
    !(content.len() > 0 && (content[0] == '"' || content[0] == '$'))
}

/// The variables named in `t` from index `i` on, in order, each name once per brace pair
/// (literals, environment variables and empty names left out).
pub open spec fn vars_from(t: Seq<char>, i: int) -> Seq<Seq<char>>
    decreases t.len() - i,
{
    if i < 0 || i >= t.len() {
        Seq::empty()
    } else {
        match brace_end(t, i) {
            Some(e) => if i < e {
                let content = t.subrange(i + 1, e);
                let name = before_colon(content);
                (if names_variable(content) && name.len() > 0 {
                    seq![name]
                } else {
                    Seq::empty()
                }) + vars_from(t, e + 1)
            } else {
                Seq::empty()
            },
            None => vars_from(t, i + 1),
        }
    }
}

/// The template variables of a template, in order of appearance (repeats kept).
pub fn extract_all_variables(template: &str) -> (v: Vec<String>)
    ensures
        string_views(v@) == vars_from(template@, 0),
{
    let t = chars_of(template);
    let n = t.len();
    let mut out: Vec<Vec<char>> = Vec::new();
    let mut i: usize = 0;
    while i < n
        invariant
            n == t@.len(),
            t@ == template@,
            i <= n,
            views(out@) + vars_from(t@, i as int) == vars_from(t@, 0),
        decreases n - i,
    {
        let ghost before = views(out@);
        let ghost i0 = i as int;
        let mut done = false;
        if t[i] == '{' {
            match find_char(&t, '}', i + 1) {
                Some(e) => {
                    assert(brace_end(t@, i0) == Some(e as int));
                    let content = slice_of(&t, i + 1, e);
                    let name = before_colon_exec(&content);
                    if !(content.len() > 0 && (content[0] == '"' || content[0] == '$')) && name.len() > 0 {
                        out.push(name);
                        assert(views(out@) =~= before + seq![name@]);
                    }
                    i = e + 1;
                    done = true;
                },
                None => {
                    assert(brace_end(t@, i0) is None);
                },
            }
        } else {
            assert(brace_end(t@, i0) is None);
        }
        if !done {
            i = i + 1;
        }
        proof {
            let piece = views(out@).subrange(before.len() as int, views(out@).len() as int);
            assert(views(out@) =~= before + piece);
            assert(vars_from(t@, i0) == piece + vars_from(t@, i as int));
            assert(views(out@) + vars_from(t@, i as int) =~= before + vars_from(t@, i0));
        }
    }
    assert(views(out@) =~= views(out@) + vars_from(t@, n as int));
    strings_of(&out)
}

/// The names in placeholders `{...}` (non-empty content) of `t` from index `i` on, in
/// order with repeats; literals and environment variables left out.
pub open spec fn placeholder_names_from(t: Seq<char>, i: int) -> Seq<Seq<char>>
    decreases t.len() - i,
{
    if i < 0 || i >= t.len() {
        Seq::empty()
    } else {
        match placeholder_end(t, i) {
            Some(e) => if i < e {
                let content = t.subrange(i + 1, e);
                (if names_variable(content) {
                    seq![before_colon(content)]
                } else {
                    Seq::empty()
                }) + placeholder_names_from(t, e + 1)
            } else {
                Seq::empty()
            },
            None => placeholder_names_from(t, i + 1),
        }
    }
}

/// `s` with each item after its first occurrence left out.
pub open spec fn dedup(s: Seq<Seq<char>>) -> Seq<Seq<char>>
    decreases s.len(),
{
    if s.len() == 0 {
        Seq::empty()
    } else {
        let d = dedup(s.drop_last());
        if d.contains(s.last()) {
            d
        } else {
            d.push(s.last())
        }
    }
}

fn placeholder_names(t: &[char]) -> (v: Vec<Vec<char>>)
    ensures
        views(v@) == placeholder_names_from(t@, 0),
{
    let n = t.len();
    let mut out: Vec<Vec<char>> = Vec::new();
    let mut i: usize = 0;
    while i < n
        invariant
            n == t@.len(),
            i <= n,
            views(out@) + placeholder_names_from(t@, i as int) == placeholder_names_from(t@, 0),
        decreases n - i,
    {
        let ghost before = views(out@);
        let ghost i0 = i as int;
        let mut done = false;
        if t[i] == '{' {
            match find_char(t, '}', i + 1) {
                Some(e) => {
                    if e > i + 1 {
                        assert(placeholder_end(t@, i0) == Some(e as int));
                        let content = slice_of(t, i + 1, e);
                        if !(content.len() > 0 && (content[0] == '"' || content[0] == '$')) {
                            let name = before_colon_exec(&content);
                            out.push(name);
                            assert(views(out@) =~= before + seq![name@]);
                        }
                        i = e + 1;
                        done = true;
                    } else {
                        assert(placeholder_end(t@, i0) is None);
                    }
                },
                None => {
                    assert(placeholder_end(t@, i0) is None);
                },
            }
        } else {
            assert(placeholder_end(t@, i0) is None);
        }
        if !done {
            i = i + 1;
        }
        proof {
            let piece = views(out@).subrange(before.len() as int, views(out@).len() as int);
            assert(views(out@) =~= before + piece);
            assert(placeholder_names_from(t@, i0) == piece + placeholder_names_from(t@, i as int));
            assert(views(out@) + placeholder_names_from(t@, i as int) =~= before + placeholder_names_from(t@, i0));
        }
    }
    assert(views(out@) =~= views(out@) + placeholder_names_from(t@, n as int));
    out
}

/// The variables a template uses, each once, in order of first use (literals and
/// environment variables left out).
pub fn discover_variables(template: &str) -> (v: Vec<String>)
    ensures
        string_views(v@) == dedup(placeholder_names_from(template@, 0)),
{
    let names = placeholder_names(&chars_of(template));
    let mut out: Vec<Vec<char>> = Vec::new();
    let mut k: usize = 0;
    while k < names.len()
        invariant
            k <= names@.len(),
            views(names@) == placeholder_names_from(template@, 0),
            views(out@) == dedup(views(names@).take(k as int)),
        decreases names@.len() - k,
    {
        proof {
            assert(views(names@).take(k + 1 as int).drop_last() =~= views(names@).take(k as int));
            assert(views(names@).take(k + 1 as int).last() == names@[k as int]@);
        }
        if !contains_chars(&out, &names[k]) {
            let ghost before = views(out@);
            out.push(slice_of(&names[k], 0, names[k].len()));
            assert(names@[k as int]@.subrange(0, names@[k as int]@.len() as int) =~= names@[k as int]@);
            assert(views(out@) =~= before.push(names@[k as int]@));
        }
        k = k + 1;
    }
    assert(views(names@).take(k as int) =~= views(names@));
    strings_of(&out)
}

} // verus!
