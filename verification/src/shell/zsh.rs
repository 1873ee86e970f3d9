use vstd::prelude::*;
use super::ShellFormatter;
use crate::text::{chars_of, extend, string_from, replace, replace_exec};

verus! {

broadcast use vstd::string::group_string_axioms;

/// Zsh formatter: each code wrapped in `%{...%}`, which Zsh reads as taking no space; the
/// final prompt has its newlines written as `\n`, as Zsh needs.
pub struct ZshFormatter;

impl ShellFormatter for ZshFormatter {
    open spec fn ansi_spec(&self, ansi_code: Seq<char>, text: Seq<char>, reset_code: Seq<char>) -> Seq<char> {
        "%{"@ + ansi_code + "%}"@ + text + "%{"@ + reset_code + "%}"@
    }

    open spec fn finalize_spec(&self, output: Seq<char>) -> Seq<char> {
        replace(output, "\n"@, "\\n"@)
    }

    fn format_ansi(&self, ansi_code: &str, text: &str, reset_code: &str) -> (s: String) {
        let mut v = chars_of("%{");
        extend(&mut v, &chars_of(ansi_code));
        extend(&mut v, &chars_of("%}"));
        extend(&mut v, &chars_of(text));
        extend(&mut v, &chars_of("%{"));
        extend(&mut v, &chars_of(reset_code));
        extend(&mut v, &chars_of("%}"));
        string_from(&v)
    }

    fn finalize(&self, output: &str) -> (s: String) {
        proof {
            reveal_strlit("\n");
        }
        string_from(&replace_exec(&chars_of(output), &chars_of("\n"), &chars_of("\\n")))
    }
}

} // verus!
