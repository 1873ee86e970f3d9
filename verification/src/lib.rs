//! twig: a shell prompt generator. Templates such as `{time:cyan} {cwd:green}` are filled
//! with the variables of providers and written for a shell; the contracts of the functions
//! here say what each gives, and `laws` states what holds across them.

use vstd::prelude::*;

pub mod text;
pub mod template;
pub mod shell;
pub mod config;
pub mod vars;
pub mod render;
pub mod providers;
pub mod validate;
pub mod numbers;
pub mod system;
pub mod sections;
pub mod variable;
pub mod env;
pub mod env_var;
pub mod hostname;
pub mod time;
pub mod cwd;
pub mod ip;
pub mod host;
pub mod power;
pub mod cache;
pub mod colors;
pub mod git;
pub mod daemon;
pub mod report;
pub mod cli;
pub mod laws;
