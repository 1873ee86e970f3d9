//! Named variables of the sections of a configuration, and their replacement in a format.

use vstd::prelude::*;
use crate::template::{format_template, format_template_spec, var_views};
use crate::text::{chars_of, extend, string_from, contains, contains_exec, find_from, find_char, slice_of, before_first, before_first_exec};
use crate::numbers::{dec_string, u64_to_string};
use crate::vars::Vars;
use std::time::Duration;

verus! {

broadcast use vstd::string::group_string_axioms;

/// A configuration with a variable name and the text shown where its value fails.
pub trait ConfigWithName {
    /// The variable name, where one is configured.
    spec fn name_spec(&self) -> Option<Seq<char>>;

    /// The text shown where the value cannot be had.
    spec fn error_spec(&self) -> Seq<char>;

    /// The variable name, where one is configured.
    fn name(&self) -> (r: Option<&str>)
        ensures
            match self.name_spec() {
                Some(n) => r matches Some(s) && s@ == n,
                None => r is None,
            },
    ;

    /// The text shown where the value cannot be had.
    fn error(&self) -> (r: &str)
        ensures
            r@ == self.error_spec(),
    ;
}

/// A source of one value per configured section, read with the environment given.
pub trait VariableProvider {
    type Error;
    type Config: ConfigWithName;

    /// The value for one configuration, or `None` where it cannot be had.
    spec fn value_spec(config: Self::Config, env: Vars) -> Option<Seq<char>>;

    /// The name of the section.
    spec fn section_spec() -> Seq<char>;

    /// The value for one configuration.
    fn get_value(config: &Self::Config, env: &Vars) -> (r: Result<String, Self::Error>)
        ensures
            match Self::value_spec(*config, *env) {
                Some(v) => r matches Ok(s) && s@ == v,
                None => r is Err,
            },
    ;

    /// The name of the section.
    fn section_name() -> (s: &'static str)
        ensures
            s@ == Self::section_spec(),
    ;
}

/// The variables a section gave and how long it took.
pub struct ProcessingResult {
    pub variables: Vec<(String, String)>,
    pub duration: Duration,
}

/// The entries for the variables among `names` that the format uses, in order, each with
/// its value; `None` where the value of one of them cannot be had.
pub open spec fn needed_entries(names: Seq<Seq<char>>, format: Seq<char>, value: spec_fn(Seq<char>) -> Option<Seq<char>>) -> Option<Seq<(Seq<char>, Seq<char>)>>
    decreases names.len(),
{
    if names.len() == 0 {
        Some(Seq::empty())
    } else {
        match needed_entries(names.drop_last(), format, value) {
            None => None,
            Some(e) => if uses_variable(format, names.last()) {
                match value(names.last()) {
                    Some(v) => Some(e.push((names.last(), v))),
                    None => None,
                }
            } else {
                Some(e)
            },
        }
    }
}

/// A source of named variables, each read only where a format uses it.
pub trait LazyVariables {
    type Error;

    /// The value of a variable, or `None` where it cannot be had.
    spec fn variable_spec(name: Seq<char>, env: Vars) -> Option<Seq<char>>;

    /// The names of the variables it knows.
    spec fn names_spec() -> Seq<Seq<char>>;

    /// The value of one variable.
    fn get_variable(name: &str, env: &Vars) -> (r: Result<String, Self::Error>)
        ensures
            match Self::variable_spec(name@, *env) {
                Some(v) => r matches Ok(s) && s@ == v,
                None => r is Err,
            },
    ;

    /// The names of the variables it knows.
    fn variable_names() -> (v: Vec<&'static str>)
        ensures
            crate::text::str_views(v@) == Self::names_spec(),
    ;

    /// The values of the variables that the format uses (plain or styled); the first
    /// failure where one cannot be had.
    fn get_needed_variables(format: &str, env: &Vars) -> (r: Result<Vars, Self::Error>)
        ensures
            match needed_entries(Self::names_spec(), format@, |n: Seq<char>| Self::variable_spec(n, *env)) {
                Some(e) => r matches Ok(v) && v@ == e,
                None => r is Err,
            },
    {
        let names = Self::variable_names();
        let ghost ns = crate::text::str_views(names@);
        let ghost value = |n: Seq<char>| Self::variable_spec(n, *env);
        let mut vars = Vars::new();
        let mut k: usize = 0;
        while k < names.len()
            invariant
                k <= names@.len(),
                ns == crate::text::str_views(names@),
                ns == Self::names_spec(),
                value == (|n: Seq<char>| Self::variable_spec(n, *env)),
                needed_entries(ns.take(k as int), format@, value) == Some(vars@),
            decreases names@.len() - k,
        {
            proof {
                assert(ns.take(k + 1 as int).drop_last() =~= ns.take(k as int));
                assert(ns.take(k + 1 as int).last() == names@[k as int]@);
            }
            let name = names[k];
            if format_uses_variable(format, name) {
                match Self::get_variable(name, env) {
                    Ok(v) => {
                        vars.insert(string_from(&chars_of(name)), v);
                    },
                    Err(e) => {
                        proof {
                            lemma_needed_prefix_fails(ns, format@, value, k as int + 1);
                        }
                        return Err(e);
                    },
                }
            }
            k = k + 1;
        }
        assert(ns.take(k as int) =~= ns);
        Ok(vars)
    }
}

proof fn lemma_needed_prefix_fails(names: Seq<Seq<char>>, format: Seq<char>, value: spec_fn(Seq<char>) -> Option<Seq<char>>, k: int)
    requires
        0 <= k <= names.len(),
        needed_entries(names.take(k), format, value) is None,
    ensures
        needed_entries(names, format, value) is None,
    decreases names.len() - k,
{
    if k < names.len() {
        assert(names.take(k + 1).drop_last() =~= names.take(k));
        lemma_needed_prefix_fails(names, format, value, k + 1);
    } else {
        assert(names.take(k) =~= names);
    }
}

/// The placeholder `{name}` or the start `{name:` of a styled one.
pub open spec fn uses_variable(format: Seq<char>, name: Seq<char>) -> bool {
    contains(format, seq!['{'] + name + seq!['}']) || contains(format, seq!['{'] + name + seq![':'])
}

/// Whether the format uses the variable, plain (`{name}`) or styled (`{name:...}`).
pub fn format_uses_variable(format: &str, var_name: &str) -> (b: bool)
    ensures
        b == uses_variable(format@, var_name@),
{
    let f = chars_of(format);
    let mut plain = vec!['{'];
    extend(&mut plain, &chars_of(var_name));
    let mut styled = slice_of(&plain, 0, plain.len());
    plain.push('}');
    styled.push(':');
    assert(plain@ =~= seq!['{'] + var_name@ + seq!['}']);
    assert(styled@ =~= seq!['{'] + var_name@ + seq![':']);
    contains_exec(&f, &plain) || contains_exec(&f, &styled)
}

/// The debug note on whether a section is processed, given only when validating: it is
/// processed where the format uses its variable, skipped otherwise.
pub fn debug_variable_usage(format: &str, section: &str, var_name: &str, validate: bool) -> (note: Option<String>)
    ensures
        !validate ==> note is None,
        validate ==> (note matches Some(n) && n@ == if uses_variable(format@, var_name@) {
            "Debug: Will process "@ + section@ + " section for variable '"@ + var_name@ + "'"@
        } else {
            "Debug: Skipping "@ + section@ + " section - variable '"@ + var_name@ + "' not used"@
        }),
{
    if !validate {
        return None;
    }
    let (head, middle, tail) = if format_uses_variable(format, var_name) {
        ("Debug: Will process ", " section for variable '", "'")
    } else {
        ("Debug: Skipping ", " section - variable '", "' not used")
    };
    let mut v = chars_of(head);
    extend(&mut v, &chars_of(section));
    extend(&mut v, &chars_of(middle));
    extend(&mut v, &chars_of(var_name));
    extend(&mut v, &chars_of(tail));
    Some(string_from(&v))
}

/// The variable name of the `index`-th configuration of a section: its configured name,
/// else the section name for the first and `section_N` (N = index + 1) for the others.
pub open spec fn var_name_of(name: Option<Seq<char>>, section: Seq<char>, index: nat) -> Seq<char> {
    match name {
        Some(n) => n,
        None => if index == 0 {
            section
        } else {
            section + "_"@ + dec_string(index + 1)
        },
    }
}

/// The variable name of the `index`-th configuration of a section.
pub fn get_var_name<T: ConfigWithName>(config: &T, section_name: &str, index: usize) -> (s: String)
    requires
        index < usize::MAX,
    ensures
        s@ == var_name_of(config.name_spec(), section_name@, index as nat),
{
    match config.name() {
        Some(n) => string_from(&chars_of(n)),
        None => if index == 0 {
            string_from(&chars_of(section_name))
        } else {
            let mut v = chars_of(section_name);
            extend(&mut v, &chars_of("_"));
            extend(&mut v, &chars_of(u64_to_string((index + 1) as u64).as_str()));
            string_from(&v)
        },
    }
}

/// The `(name, value)` pairs for the placeholders of `t` from `i` on that name a variable
/// with a value: each `{...}` up to the first `}` with non-empty content, the name before
/// its first `:`; an unclosed `{` ends the scan.
pub open spec fn specs_from(t: Seq<char>, i: int, vars: Vars) -> Seq<(Seq<char>, Seq<char>)>
    decreases t.len() - i,
{
    if i < 0 || i >= t.len() {
        Seq::empty()
    } else if t[i] == '{' {
        match find_from(t, seq!['}'], i + 1) {
            Some(e) => if i < e < t.len() {
                (if e > i + 1 {
                    match vars.get_spec(before_first(t.subrange(i + 1, e), ':')) {
                        Some(v) => seq![(before_first(t.subrange(i + 1, e), ':'), v)],
                        None => Seq::empty(),
                    }
                } else {
                    Seq::empty()
                }) + specs_from(t, e + 1, vars)
            } else {
                Seq::empty()
            },
            None => Seq::empty(),
        }
    } else {
        specs_from(t, i + 1, vars)
    }
}

/// What `replace_variables` gives: the template formatted with the variables it names,
/// or the format unchanged where the template is invalid.
pub open spec fn replaced(format: Seq<char>, vars: Vars) -> Seq<char> {
    match format_template_spec(format, specs_from(format, 0, vars), false) {
        Some(Ok(s)) => s,
        _ => format,
    }
}

/// The template engine can process the format with the variables it names (it does not
/// run forever on it).
pub open spec fn replaceable(format: Seq<char>, vars: Vars) -> bool {
    format_template_spec(format, specs_from(format, 0, vars), false) is Some
}

fn var_specs(t: &[char], vars: &Vars) -> (out: Vec<(String, String)>)
    ensures
        crate::vars::entry_views(out@) == specs_from(t@, 0, *vars),
{
    let n = t.len();
    let mut out: Vec<(String, String)> = Vec::new();
    let mut i: usize = 0;
    while i < n
        invariant
            n == t@.len(),
            i <= n + 1,
            crate::vars::entry_views(out@) + specs_from(t@, i as int, *vars) == specs_from(t@, 0, *vars),
        decreases n + 1 - i,
    {
        let ghost before = crate::vars::entry_views(out@);
        let ghost i0 = i as int;
        if t[i] == '{' {
            match find_char(t, '}', i + 1) {
                Some(e) => {
                    if e > i + 1 {
                        let name = string_from(&before_first_exec(&slice_of(t, i + 1, e), ':'));
                        match vars.get(name.as_str()) {
                            Some(v) => {
                                let ghost pair = (name@, v@);
                                out.push((name, string_from(&chars_of(v.as_str()))));
                                assert(crate::vars::entry_views(out@) =~= before + seq![pair]);
                            },
                            None => {
                                assert(crate::vars::entry_views(out@) =~= before + Seq::<(Seq<char>, Seq<char>)>::empty());
                            },
                        }
                    } else {
                        assert(crate::vars::entry_views(out@) =~= before + Seq::<(Seq<char>, Seq<char>)>::empty());
                    }
                    i = e + 1;
                },
                None => {
                    assert(crate::vars::entry_views(out@) =~= crate::vars::entry_views(out@) + specs_from(t@, i0, *vars));
                    return out;
                },
            }
        } else {
            i = i + 1;
        }
        proof {
            let piece = crate::vars::entry_views(out@).subrange(before.len() as int, crate::vars::entry_views(out@).len() as int);
            assert(crate::vars::entry_views(out@) =~= before + piece);
            assert(specs_from(t@, i0, *vars) == piece + specs_from(t@, i as int, *vars));
            assert(crate::vars::entry_views(out@) + specs_from(t@, i as int, *vars) =~= before + specs_from(t@, i0, *vars));
        }
    }
    assert(crate::vars::entry_views(out@) =~= crate::vars::entry_views(out@) + specs_from(t@, i as int, *vars));
    out
}

/// Formats `format` with the variables it names that have values (plain mode), leaving
/// the format unchanged where the template engine rejects it.
pub fn replace_variables(format: &str, vars: &Vars) -> (s: String)
    requires
        replaceable(format@, *vars),
    ensures
        s@ == replaced(format@, *vars),
{
    let specs = var_specs(&chars_of(format), vars);
    let mut refs: Vec<(&str, &str)> = Vec::new();
    let mut k: usize = 0;
    while k < specs.len()
        invariant
            k <= specs@.len(),
            var_views(refs@) == crate::vars::entry_views(specs@).take(k as int),
        decreases specs@.len() - k,
    {
        let ghost before = var_views(refs@);
        let a = specs[k].0.as_str();
        let b = specs[k].1.as_str();
        assert(a@ == specs@[k as int].0@ && b@ == specs@[k as int].1@);
        refs.push((a, b));
        assert(var_views(refs@) =~= before.push((a@, b@)));
        assert(crate::vars::entry_views(specs@).take(k + 1 as int) =~= crate::vars::entry_views(specs@).take(k as int).push(crate::vars::entry_views(specs@)[k as int]));
        k = k + 1;
    }
    assert(crate::vars::entry_views(specs@).take(k as int) =~= crate::vars::entry_views(specs@));
    match format_template(format, refs.as_slice(), false, None) {
        Ok(s) => s,
        Err(_) => string_from(&chars_of(format)),
    }
}

} // verus!

verus! {

/// The variables of a section's configurations that the format uses: the name of the
/// `k`-th (configured, or the section name numbered from the second on) and its value, or
/// the configuration's error text where the value cannot be had. No variable where the
/// format has no `{` at all.
pub open spec fn section_entries<P: VariableProvider>(configs: Seq<P::Config>, format: Seq<char>, env: Vars) -> Seq<(Seq<char>, Seq<char>)> {
    if !contains(format, seq!['{']) {
        Seq::empty()
    } else {
        section_entries_upto::<P>(configs, format, env, configs.len() as int)
    }
}

/// The entries of the first `k` configurations.
pub open spec fn section_entries_upto<P: VariableProvider>(configs: Seq<P::Config>, format: Seq<char>, env: Vars, k: int) -> Seq<(Seq<char>, Seq<char>)>
    decreases k,
{
    if k <= 0 || k > configs.len() {
        Seq::empty()
    } else {
        let c = configs[k - 1];
        let name = var_name_of(c.name_spec(), P::section_spec(), (k - 1) as nat);
        section_entries_upto::<P>(configs, format, env, k - 1) + (if uses_variable(format, name) {
            seq![(name, match P::value_spec(c, env) {
                Some(v) => v,
                None => c.error_spec(),
            })]
        } else {
            Seq::empty()
        })
    }
}

/// The variables of one section: for each configuration that the format uses, its name
/// and its value (its error text where the value cannot be had), with the time it took.
/// The diagnostics that validation prints to stderr are not produced here.
pub fn process_section<P: VariableProvider>(configs: &[P::Config], format: &str, validate: bool, env: &Vars) -> (r: ProcessingResult)
    ensures
        crate::vars::entry_views(r.variables@) == section_entries::<P>(configs@, format@, *env),
{
    let start = crate::system::instant_now();
    let mut variables: Vec<(String, String)> = Vec::new();
    let f = chars_of(format);
    let brace = vec!['{'];
    if !contains_exec(&f, &brace) {
        assert(brace@ =~= seq!['{']);
        return ProcessingResult { variables, duration: crate::system::elapsed_since(&start) };
    }
    assert(brace@ =~= seq!['{']);
    let section = P::section_name();
    let mut i: usize = 0;
    while i < configs.len()
        invariant
            i <= configs@.len(),
            section@ == P::section_spec(),
            contains(format@, seq!['{']),
            crate::vars::entry_views(variables@) == section_entries_upto::<P>(configs@, format@, *env, i as int),
        decreases configs@.len() - i,
    {
        let config = &configs[i];
        let var_name = get_var_name(config, section, i);
        if format_uses_variable(format, var_name.as_str()) {
            let value = match P::get_value(config, env) {
                Ok(v) => v,
                Err(_) => string_from(&chars_of(config.error())),
            };
            let ghost before = crate::vars::entry_views(variables@);
            let ghost pair = (var_name@, value@);
            variables.push((var_name, value));
            assert(crate::vars::entry_views(variables@) =~= before.push(pair));
        }
        i = i + 1;
    }
    ProcessingResult { variables, duration: crate::system::elapsed_since(&start) }
}

} // verus!
