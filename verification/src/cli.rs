//! The choices the command line makes from its flags: the shell mode, how the prompt is
//! shown, and the `terminal_width` variable.

use vstd::prelude::*;
use crate::numbers::{dec_string, u64_to_string};
use crate::shell::ShellMode;
use crate::text::{owned, str_eq, joined3};

verus! {

broadcast use vstd::string::group_string_axioms;

/// How the rendered prompt is shown.
#[derive(Debug, Clone, Copy, PartialEq, Eq, Structural)]
pub enum OutputStyle {
    /// In a box, with the configuration path and the timings (the default).
    Boxed,
    /// The debug box on standard error, then the bare prompt.
    DebugThenPrompt,
    /// The bare prompt, for a shell to use.
    Prompt,
}

/// The shell mode and the way of showing the prompt.
#[derive(Debug, Clone, Copy, PartialEq, Eq, Structural)]
pub struct OutputPlan {
    pub mode: ShellMode,
    pub style: OutputStyle,
}

/// The shell mode that `--mode` names.
pub open spec fn mode_named(name: Seq<char>) -> Option<ShellMode> {
    if name == "tcsh"@ {
        Some(ShellMode::Tcsh)
    } else if name == "bash"@ {
        Some(ShellMode::Bash)
    } else if name == "zsh"@ {
        Some(ShellMode::Zsh)
    } else {
        None
    }
}

/// The message for a `--mode` that names no shell.
pub open spec fn unknown_mode_message(name: Seq<char>) -> Seq<char> {
    "Unknown shell mode: "@ + name + ". Valid options: tcsh, bash, zsh"@
}

/// The plan for the given flags: with `--mode`, that shell's formatter and the bare prompt,
/// after the debug box where debugging is asked for (`--debug` or `TWIG_DEBUG`); without
/// it, raw escapes, bare with `--prompt` and boxed otherwise. An unknown mode is an error.
pub open spec fn planned(mode: Option<Seq<char>>, prompt_only: bool, debug: bool) -> Result<OutputPlan, Seq<char>> {
    match mode {
        Some(m) => match mode_named(m) {
            Some(sm) => Ok(
                OutputPlan {
                    mode: sm,
                    style: if debug {
                        OutputStyle::DebugThenPrompt
                    } else {
                        OutputStyle::Prompt
                    },
                },
            ),
            None => Err(unknown_mode_message(m)),
        },
        None => Ok(
            OutputPlan {
                mode: ShellMode::Raw,
                style: if prompt_only {
                    OutputStyle::Prompt
                } else {
                    OutputStyle::Boxed
                },
            },
        ),
    }
}

/// Chooses the shell mode and the way of showing the prompt (see `planned`); the error is
/// the message to print before exiting.
pub fn plan_output(mode: Option<&str>, prompt_only: bool, debug: bool) -> (r: Result<OutputPlan, String>)
    ensures
        match planned(
            match mode {
                Some(m) => Some(m@),
                None => None,
            },
            prompt_only,
            debug,
        ) {
            Ok(p) => r == Ok::<OutputPlan, String>(p),
            Err(e) => r matches Err(s) && s@ == e,
        },
{
    match mode {
        Some(m) => {
            let shell = if str_eq(m, "tcsh") {
                ShellMode::Tcsh
            } else if str_eq(m, "bash") {
                ShellMode::Bash
            } else if str_eq(m, "zsh") {
                ShellMode::Zsh
            } else {
                return Err(joined3("Unknown shell mode: ", m, ". Valid options: tcsh, bash, zsh"));
            };
            let style = if debug {
                OutputStyle::DebugThenPrompt
            } else {
                OutputStyle::Prompt
            };
            Ok(OutputPlan { mode: shell, style })
        },
        None => {
            let style = if prompt_only {
                OutputStyle::Prompt
            } else {
                OutputStyle::Boxed
            };
            Ok(OutputPlan { mode: ShellMode::Raw, style })
        },
    }
}

/// The value of the `terminal_width` variable: the detected width, or `N/A`.
pub fn width_text(width: Option<u16>) -> (s: String)
    ensures
        s@ == match width {
            Some(w) => dec_string(w as nat),
            None => "N/A"@,
        },
{
    match width {
        Some(w) => u64_to_string(w as u64),
        None => owned("N/A"),
    }
}

} // verus!
