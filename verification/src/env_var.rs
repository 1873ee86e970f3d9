//! A section whose value is an environment variable, written with or without `$`.

use vstd::prelude::*;
use crate::text::{chars_of, extend, string_from, slice_of};
use crate::vars::Vars;
use crate::variable::{ConfigWithName, VariableProvider, LazyVariables};

verus! {

broadcast use vstd::string::group_string_axioms;

/// The environment variable is not set.
#[derive(Debug)]
pub enum EnvError {
    NotFound(String),
}

impl EnvError {
    /// The message of the error.
    pub fn to_string(&self) -> (s: String)
        ensures
            (match self {
                EnvError::NotFound(v) => s@ == "Environment variable not found: "@ + v@,
            }),
    {
        match self {
            EnvError::NotFound(v) => {
                let mut m = chars_of("Environment variable not found: ");
                extend(&mut m, &chars_of(v.as_str()));
                string_from(&m)
            },
        }
    }
}

/// The name of the environment variable (`$` allowed before it) and the text shown where
/// it is not set.
pub struct Config {
    pub name: String,
    pub error: String,
}

impl Default for Config {
    fn default() -> (c: Self)
        ensures
            c.name@ == Seq::<char>::empty(),
            c.error@ == Seq::<char>::empty(),
    {
        Config { name: String::new(), error: String::new() }
    }
}

impl ConfigWithName for Config {
    open spec fn name_spec(&self) -> Option<Seq<char>> {
        Some(self.name@)
    }

    open spec fn error_spec(&self) -> Seq<char> {
        self.error@
    }

    fn name(&self) -> (r: Option<&str>) {
        Some(self.name.as_str())
    }

    fn error(&self) -> (r: &str) {
        self.error.as_str()
    }
}

/// `name` without one leading `$`.
pub open spec fn without_dollar(name: Seq<char>) -> Seq<char> {
    if name.len() > 0 && name[0] == '$' {
        name.drop_first()
    } else {
        name
    }
}

fn without_dollar_exec(name: &str) -> (s: String)
    ensures
        s@ == without_dollar(name@),
{
    let c = chars_of(name);
    if c.len() > 0 && c[0] == '$' {
        let r = slice_of(&c, 1, c.len());
        assert(r@ =~= name@.drop_first());
        string_from(&r)
    } else {
        string_from(&c)
    }
}

/// The value of an environment variable named with or without `$`.
pub open spec fn env_lookup(name: Seq<char>, env: Vars) -> Result<Seq<char>, Seq<char>> {
    match env.get_spec(without_dollar(name)) {
        Some(v) => Ok(v),
        None => Err(without_dollar(name)),
    }
}

/// The provider of the `env` section.
pub struct EnvProvider;

impl EnvProvider {
    /// The value of the environment variable `name` (a leading `$` dropped).
    pub fn variable(name: &str, env: &Vars) -> (r: Result<String, EnvError>)
        ensures
            match env_lookup(name@, *env) {
                Ok(v) => r matches Ok(s) && s@ == v,
                Err(n) => r matches Err(EnvError::NotFound(m)) && m@ == n,
            },
    {
        let var_name = without_dollar_exec(name);
        match env.get(var_name.as_str()) {
            Some(v) => Ok(string_from(&chars_of(v.as_str()))),
            None => Err(EnvError::NotFound(var_name)),
        }
    }

    /// The value for a configuration: its name with one `$` dropped, then looked up as
    /// `variable` does (which drops one more).
    pub fn value_of(config: &Config, env: &Vars) -> (r: Result<String, EnvError>)
        ensures
            match env_lookup(without_dollar(config.name@), *env) {
                Ok(v) => r matches Ok(s) && s@ == v,
                Err(n) => r matches Err(EnvError::NotFound(m)) && m@ == n,
            },
    {
        let n = without_dollar_exec(config.name.as_str());
        Self::variable(n.as_str(), env)
    }
}

impl LazyVariables for EnvProvider {
    type Error = EnvError;

    open spec fn variable_spec(name: Seq<char>, env: Vars) -> Option<Seq<char>> {
        match env_lookup(name, env) {
            Ok(v) => Some(v),
            Err(_) => None,
        }
    }

    open spec fn names_spec() -> Seq<Seq<char>> {
        Seq::empty()
    }

    fn get_variable(name: &str, env: &Vars) -> (r: Result<String, EnvError>) {
        Self::variable(name, env)
    }

    fn variable_names() -> (v: Vec<&'static str>) {
        let v: Vec<&'static str> = Vec::new();
        assert(crate::text::str_views(v@) =~= Seq::<Seq<char>>::empty());
        v
    }
}

impl VariableProvider for EnvProvider {
    type Error = EnvError;
    type Config = Config;

    open spec fn value_spec(config: Config, env: Vars) -> Option<Seq<char>> {
        match env_lookup(without_dollar(config.name@), env) {
            Ok(v) => Some(v),
            Err(_) => None,
        }
    }

    open spec fn section_spec() -> Seq<char> {
        "env"@
    }

    fn get_value(config: &Config, env: &Vars) -> (r: Result<String, EnvError>) {
        Self::value_of(config, env)
    }

    fn section_name() -> (s: &'static str) {
        "env"
    }
}

} // verus!
