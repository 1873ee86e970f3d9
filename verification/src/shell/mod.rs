//! Shell-specific wrapping of ANSI codes and final post-processing of a prompt.

use vstd::prelude::*;


pub mod bash;
pub mod raw;
pub mod tcsh;
pub mod zsh;

pub use bash::BashFormatter;
pub use raw::RawFormatter;
pub use tcsh::TcshFormatter;
pub use zsh::ZshFormatter;

verus! {

broadcast use vstd::string::group_string_axioms;

/// Shell-specific formatting of ANSI escape codes.
pub trait ShellFormatter {
    /// The text that `format_ansi` gives.
    spec fn ansi_spec(&self, ansi_code: Seq<char>, text: Seq<char>, reset_code: Seq<char>) -> Seq<char>;

    /// The text that `finalize` gives.
    spec fn finalize_spec(&self, output: Seq<char>) -> Seq<char>;

    /// `text` between `ansi_code` and `reset_code`, each code wrapped as the shell needs.
    fn format_ansi(&self, ansi_code: &str, text: &str, reset_code: &str) -> (s: String)
        ensures
            s@ == self.ansi_spec(ansi_code@, text@, reset_code@),
    ;

    /// The complete prompt post-processed for the shell.
    fn finalize(&self, output: &str) -> (s: String)
        ensures
            s@ == self.finalize_spec(output@),
    ;
}

/// Shell output modes.
#[derive(Debug, Clone, Copy, PartialEq, Eq, Structural)]
pub enum ShellMode {
    /// Raw ANSI codes with no wrapping
    Raw,
    /// Bash format with `\[...\]` wrapping
    Bash,
    /// Zsh format with `%{...%}` wrapping
    Zsh,
    /// TCSH format with `%{...%}` wrapping
    Tcsh,
}

/// The formatter of one of the shell modes.
pub enum Formatter {
    Raw(RawFormatter),
    Bash(BashFormatter),
    Zsh(ZshFormatter),
    Tcsh(TcshFormatter),
}

/// The formatter for a shell mode.
pub fn get_formatter(mode: ShellMode) -> (f: Formatter)
    ensures
        match mode {
            ShellMode::Raw => f is Raw,
            ShellMode::Bash => f is Bash,
            ShellMode::Zsh => f is Zsh,
            ShellMode::Tcsh => f is Tcsh,
        },
{
    match mode {
        ShellMode::Raw => Formatter::Raw(RawFormatter),
        ShellMode::Bash => Formatter::Bash(BashFormatter),
        ShellMode::Zsh => Formatter::Zsh(ZshFormatter),
        ShellMode::Tcsh => Formatter::Tcsh(TcshFormatter),
    }
}

impl ShellFormatter for Formatter {
    open spec fn ansi_spec(&self, ansi_code: Seq<char>, text: Seq<char>, reset_code: Seq<char>) -> Seq<char> {
        match self {
            Formatter::Raw(f) => f.ansi_spec(ansi_code, text, reset_code),
            Formatter::Bash(f) => f.ansi_spec(ansi_code, text, reset_code),
            Formatter::Zsh(f) => f.ansi_spec(ansi_code, text, reset_code),
            Formatter::Tcsh(f) => f.ansi_spec(ansi_code, text, reset_code),
        }
    }

    open spec fn finalize_spec(&self, output: Seq<char>) -> Seq<char> {
        match self {
            Formatter::Raw(f) => f.finalize_spec(output),
            Formatter::Bash(f) => f.finalize_spec(output),
            Formatter::Zsh(f) => f.finalize_spec(output),
            Formatter::Tcsh(f) => f.finalize_spec(output),
        }
    }

    fn format_ansi(&self, ansi_code: &str, text: &str, reset_code: &str) -> (s: String) {
        match self {
            Formatter::Raw(f) => f.format_ansi(ansi_code, text, reset_code),
            Formatter::Bash(f) => f.format_ansi(ansi_code, text, reset_code),
            Formatter::Zsh(f) => f.format_ansi(ansi_code, text, reset_code),
            Formatter::Tcsh(f) => f.format_ansi(ansi_code, text, reset_code),
        }
    }

    fn finalize(&self, output: &str) -> (s: String) {
        match self {
            Formatter::Raw(f) => f.finalize(output),
            Formatter::Bash(f) => f.finalize(output),
            Formatter::Zsh(f) => f.finalize(output),
            Formatter::Tcsh(f) => f.finalize(output),
        }
    }
}

} // verus!
