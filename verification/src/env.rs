//! A section whose value is an environment variable, named exactly.

use vstd::prelude::*;
use crate::text::{chars_of, extend, string_from};
use crate::vars::Vars;
use crate::variable::{ConfigWithName, VariableProvider};

verus! {

broadcast use vstd::string::group_string_axioms;

/// The environment variable is not set.
#[derive(Debug)]
pub enum EnvError {
    NotFound(String),
}

impl EnvError {
    /// The message of the error.
    pub fn to_string(&self) -> (s: String)
        ensures
            (match self {
                EnvError::NotFound(v) => s@ == "Environment variable not found: "@ + v@,
            }),
    {
        match self {
            EnvError::NotFound(v) => {
                let mut m = chars_of("Environment variable not found: ");
                extend(&mut m, &chars_of(v.as_str()));
                string_from(&m)
            },
        }
    }
}

/// The name of the environment variable and the text shown where it is not set.
pub struct Config {
    pub name: String,
    pub error: String,
}

impl Default for Config {
    fn default() -> (c: Self)
        ensures
            c.name@ == Seq::<char>::empty(),
            c.error@ == Seq::<char>::empty(),
    {
        Config { name: String::new(), error: String::new() }
    }
}

impl ConfigWithName for Config {
    open spec fn name_spec(&self) -> Option<Seq<char>> {
        Some(self.name@)
    }

    open spec fn error_spec(&self) -> Seq<char> {
        self.error@
    }

    fn name(&self) -> (r: Option<&str>) {
        Some(self.name.as_str())
    }

    fn error(&self) -> (r: &str) {
        self.error.as_str()
    }
}

/// The provider of the `env` section.
pub struct EnvProvider;

impl EnvProvider {
    /// The value of the environment variable named exactly by the configuration.
    pub fn value_of(config: &Config, env: &Vars) -> (r: Result<String, EnvError>)
        ensures
            match env.get_spec(config.name@) {
                Some(v) => r matches Ok(s) && s@ == v,
                None => r matches Err(EnvError::NotFound(n)) && n@ == config.name@,
            },
    {
        match env.get(config.name.as_str()) {
            Some(v) => Ok(string_from(&chars_of(v.as_str()))),
            None => Err(EnvError::NotFound(string_from(&chars_of(config.name.as_str())))),
        }
    }
}

impl VariableProvider for EnvProvider {
    type Error = EnvError;
    type Config = Config;

    open spec fn value_spec(config: Config, env: Vars) -> Option<Seq<char>> {
        env.get_spec(config.name@)
    }

    open spec fn section_spec() -> Seq<char> {
        "env"@
    }

    fn get_value(config: &Config, env: &Vars) -> (r: Result<String, EnvError>) {
        Self::value_of(config, env)
    }

    fn section_name() -> (s: &'static str) {
        "env"
    }
}

} // verus!
