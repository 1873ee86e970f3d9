use vstd::prelude::*;
use super::ShellFormatter;
use crate::text::{chars_of, extend, string_from, replace, replace_exec};

verus! {

broadcast use vstd::string::group_string_axioms;

/// TCSH formatter: each code wrapped in `%{...%}`; the final prompt has its newlines
/// written as `\n`, `!` escaped against history expansion and `%` doubled.
pub struct TcshFormatter;

/// The post-processing that a TCSH prompt needs: newlines as `\n`, `!` as `\!`, `%` as
/// `%%` except in the `%{` and `%}` wrappers, and a space between a `%}` and a `\n`.
pub open spec fn tcsh_finalize(output: Seq<char>) -> Seq<char> {
    let o1 = replace(output, "\n"@, "\\n"@);
    let o2 = replace(o1, "!"@, "\\!"@);
    let o3 = replace(o2, "%"@, "%%"@);
    let o4 = replace(o3, "%%{"@, "%{"@);
    let o5 = replace(o4, "%%}"@, "%}"@);
    replace(o5, "%}\\n"@, "%} \\n"@)
}

fn replace_lit(s: &[char], pat: &str, val: &str) -> (out: Vec<char>)
    requires
        pat@.len() > 0,
    ensures
        out@ == replace(s@, pat@, val@),
{
    replace_exec(s, &chars_of(pat), &chars_of(val))
}

impl ShellFormatter for TcshFormatter {
    open spec fn ansi_spec(&self, ansi_code: Seq<char>, text: Seq<char>, reset_code: Seq<char>) -> Seq<char> {
        "%{"@ + ansi_code + "%}"@ + text + "%{"@ + reset_code + "%}"@
    }

    open spec fn finalize_spec(&self, output: Seq<char>) -> Seq<char> {
        tcsh_finalize(output)
    }

    fn format_ansi(&self, ansi_code: &str, text: &str, reset_code: &str) -> (s: String) {
        let mut v = chars_of("%{");
        extend(&mut v, &chars_of(ansi_code));
        extend(&mut v, &chars_of("%}"));
        extend(&mut v, &chars_of(text));
        extend(&mut v, &chars_of("%{"));
        extend(&mut v, &chars_of(reset_code));
        extend(&mut v, &chars_of("%}"));
        string_from(&v)
    }

    fn finalize(&self, output: &str) -> (s: String) {
        proof {
            reveal_strlit("\n");
            reveal_strlit("!");
            reveal_strlit("%");
            reveal_strlit("%%{");
            reveal_strlit("%%}");
            reveal_strlit("%}\\n");
        }
        let o1 = replace_lit(&chars_of(output), "\n", "\\n");
        let o2 = replace_lit(&o1, "!", "\\!");
        let o3 = replace_lit(&o2, "%", "%%");
        let o4 = replace_lit(&o3, "%%{", "%{");
        let o5 = replace_lit(&o4, "%%}", "%}");
        let o6 = replace_lit(&o5, "%}\\n", "%} \\n");
        string_from(&o6)
    }
}

} // verus!
