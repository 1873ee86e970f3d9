use twig::shell::{get_formatter, BashFormatter, Formatter, RawFormatter, ShellFormatter, ShellMode, TcshFormatter, ZshFormatter};

#[test]
fn test_bash_formatter() {
    let formatter = BashFormatter;
    let result = formatter.format_ansi("\x1b[36m", "test", "\x1b[0m");
    assert_eq!(result, "\\[\x1b[36m\\]test\\[\x1b[0m\\]");
}

#[test]
fn test_raw_formatter() {
    let formatter = RawFormatter;
    let result = formatter.format_ansi("\x1b[36m", "test", "\x1b[0m");
    assert_eq!(result, "\x1b[36mtest\x1b[0m");
}

#[test]
fn test_zsh_formatter() {
    let formatter = ZshFormatter;
    let result = formatter.format_ansi("\x1b[36m", "test", "\x1b[0m");
    assert_eq!(result, "%{\x1b[36m%}test%{\x1b[0m%}");
}

#[test]
fn test_tcsh_formatter() {
    let formatter = TcshFormatter;
    let result = formatter.format_ansi("\x1b[36m", "test", "\x1b[0m");
    assert_eq!(result, "%{\x1b[36m%}test%{\x1b[0m%}");
}

#[test]
fn test_tcsh_finalize_newline() {
    let formatter = TcshFormatter;
    assert_eq!(formatter.finalize("line1\nline2"), "line1\\nline2");
}

#[test]
fn test_tcsh_finalize_edge_case() {
    let formatter = TcshFormatter;
    let input = "%{\x1b[32m%}/path%{\x1b[0m%}\n$ ";
    let expected = "%{\x1b[32m%}/path%{\x1b[0m%} \\n$ ";
    assert_eq!(formatter.finalize(input), expected);
}

#[test]
fn test_tcsh_finalize_exclamation_escaping() {
    let formatter = TcshFormatter;
    let input = "! ";
    let expected = "\\! ";
    assert_eq!(formatter.finalize(input), expected);

    let input = "%{\x1b[37m\x1b[1m%}!%{\x1b[0m%} ";
    let expected = "%{\x1b[37m\x1b[1m%}\\!%{\x1b[0m%} ";
    assert_eq!(formatter.finalize(input), expected);
}

#[test]
fn test_tcsh_finalize_percent_escaping() {
    let formatter = TcshFormatter;
    let input = "%{\x1b[33m%}85%%{\x1b[0m%}";
    let expected = "%{\x1b[33m%}85%%%{\x1b[0m%}";
    assert_eq!(formatter.finalize(input), expected);

    let input = "100% complete";
    let expected = "100%% complete";
    assert_eq!(formatter.finalize(input), expected);
}

#[test]
fn test_get_formatter_modes() {
    assert!(matches!(get_formatter(ShellMode::Raw), Formatter::Raw(_)));
    assert!(matches!(get_formatter(ShellMode::Bash), Formatter::Bash(_)));
    assert!(matches!(get_formatter(ShellMode::Zsh), Formatter::Zsh(_)));
    assert!(matches!(get_formatter(ShellMode::Tcsh), Formatter::Tcsh(_)));
}

#[test]
fn test_finalize_leaves_raw_bash_unchanged() {
    let text = "a!b%c\nd";
    assert_eq!(RawFormatter.finalize(text), text);
    assert_eq!(get_formatter(ShellMode::Bash).finalize(text), text);
}

#[test]
fn test_zsh_finalize_writes_newlines_as_backslash_n() {
    assert_eq!(ZshFormatter.finalize("line1\nline2"), "line1\\nline2");
    assert_eq!(get_formatter(ShellMode::Zsh).finalize("a!b%c\nd\n"), "a!b%c\\nd\\n");
    assert_eq!(ZshFormatter.finalize("plain"), "plain");
}
