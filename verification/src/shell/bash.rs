use vstd::prelude::*;
use super::ShellFormatter;
use crate::text::{chars_of, extend, string_from};

verus! {

broadcast use vstd::string::group_string_axioms;

/// Bash formatter: each code wrapped in `\[...\]`, which Bash reads as non-printing.
pub struct BashFormatter;

impl ShellFormatter for BashFormatter {
    open spec fn ansi_spec(&self, ansi_code: Seq<char>, text: Seq<char>, reset_code: Seq<char>) -> Seq<char> {
        "\\["@ + ansi_code + "\\]"@ + text + "\\["@ + reset_code + "\\]"@
    }

    open spec fn finalize_spec(&self, output: Seq<char>) -> Seq<char> {
        output
    }

    fn format_ansi(&self, ansi_code: &str, text: &str, reset_code: &str) -> (s: String) {
        let mut v = chars_of("\\[");
        extend(&mut v, &chars_of(ansi_code));
        extend(&mut v, &chars_of("\\]"));
        extend(&mut v, &chars_of(text));
        extend(&mut v, &chars_of("\\["));
        extend(&mut v, &chars_of(reset_code));
        extend(&mut v, &chars_of("\\]"));
        string_from(&v)
    }

    fn finalize(&self, output: &str) -> (s: String) {
        string_from(&chars_of(output))
    }
}

} // verus!
