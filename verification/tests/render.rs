use twig::render::{
    colorize, discover_variables, extract_all_variables, extract_next_variable, get_ansi_code, handle_literal,
    handle_variable, process_conditional_spaces, substitute_variables, variable_has_value,
};
use twig::shell::{RawFormatter, ShellFormatter, TcshFormatter};
use twig::validate::{render_prompt, strip_ansi_codes, validate_colors_and_styles, validate_format_syntax, validate_time_format};
use twig::vars::Vars;

fn make_vars(pairs: &[(&str, &str)]) -> Vars {
    let mut vars = Vars::new();
    for (k, v) in pairs {
        vars.insert(k.to_string(), v.to_string());
    }
    vars
}

fn no_env() -> Vars {
    Vars::new()
}

#[test]
fn test_conditional_space_with_value() {
    let vars = make_vars(&[("cwd", "/home/user"), ("git_branch", "main")]);
    let result = substitute_variables("{cwd}~{git_branch}", &vars, &no_env(), &RawFormatter);
    assert_eq!(result, "/home/user main");
}

#[test]
fn test_conditional_space_without_value() {
    let vars = make_vars(&[("cwd", "/home/user")]);
    let result = substitute_variables("{cwd}~{git_branch}", &vars, &no_env(), &RawFormatter);
    assert_eq!(result, "/home/user");
}

#[test]
fn test_conditional_space_empty_value() {
    let vars = make_vars(&[("cwd", "/home/user"), ("git_branch", "")]);
    let result = substitute_variables("{cwd}~{git_branch}", &vars, &no_env(), &RawFormatter);
    assert_eq!(result, "/home/user");
}

#[test]
fn test_multiple_conditional_spaces() {
    let vars = make_vars(&[("hostname", "laptop"), ("git_branch", "main"), ("cwd", "/home/user")]);
    let result = substitute_variables("{hostname}~{git_branch}~{cwd}", &vars, &no_env(), &RawFormatter);
    assert_eq!(result, "laptop main /home/user");
}

#[test]
fn test_multiple_conditional_spaces_partial() {
    let vars = make_vars(&[("hostname", "laptop"), ("cwd", "/home/user")]);
    let result = substitute_variables("{hostname}~{git_branch}~{cwd}", &vars, &no_env(), &RawFormatter);
    assert_eq!(result, "laptop /home/user");
}

#[test]
fn test_escaped_tilde() {
    let vars = make_vars(&[("cwd", "/home/user")]);
    let result = substitute_variables("{cwd}\\~{git_branch}", &vars, &no_env(), &RawFormatter);
    assert_eq!(result, "/home/user~");
}

#[test]
fn test_conditional_space_with_color() {
    let vars = make_vars(&[("cwd", "/home/user"), ("git_branch", "main")]);
    let result = substitute_variables("{cwd:green}~{git_branch:yellow}", &vars, &no_env(), &RawFormatter);
    assert!(result.contains("/home/user"));
    assert!(result.contains("main"));
    assert!(result.contains(" "));
}

#[test]
fn test_conditional_space_in_complex_prompt() {
    let vars = make_vars(&[
        ("time", "10:38:02"),
        ("hostname", "jeffjose2.mtv.corp.google.com"),
        ("cwd", "/usr/local/google/home/jeffjose/scripts/twig"),
        ("git_branch", "main"),
    ]);
    let template = "-({time} {hostname} {cwd}~{git_branch})-";
    let result = substitute_variables(template, &vars, &no_env(), &RawFormatter);
    assert_eq!(
        result,
        "-(10:38:02 jeffjose2.mtv.corp.google.com /usr/local/google/home/jeffjose/scripts/twig main)-"
    );
}

#[test]
fn test_conditional_space_in_complex_prompt_no_git() {
    let vars = make_vars(&[
        ("time", "10:38:02"),
        ("hostname", "jeffjose2.mtv.corp.google.com"),
        ("cwd", "/usr/local/google/home/jeffjose/scripts"),
    ]);
    let template = "-({time} {hostname} {cwd}~{git_branch})-";
    let result = substitute_variables(template, &vars, &no_env(), &RawFormatter);
    assert_eq!(result, "-(10:38:02 jeffjose2.mtv.corp.google.com /usr/local/google/home/jeffjose/scripts)-");
    assert!(!result.contains(" )-"));
}

#[test]
fn test_conditional_space_with_literal() {
    let vars = make_vars(&[("git_branch", "main")]);
    let result = substitute_variables("{\">>\":white}~{git_branch}", &vars, &no_env(), &RawFormatter);
    assert!(result.contains(">>"));
    assert!(result.contains("main"));
}

#[test]
fn test_regular_space_still_works() {
    let vars = make_vars(&[("cwd", "/home/user"), ("git_branch", "")]);
    let result = substitute_variables("{cwd} {git_branch}", &vars, &no_env(), &RawFormatter);
    assert_eq!(result, "/home/user ");
}

fn chars(s: &str) -> Vec<char> {
    s.chars().collect()
}

#[test]
fn test_extract_next_variable() {
    assert_eq!(extract_next_variable(&chars("{var}")), Some("var".to_string()));
    assert_eq!(extract_next_variable(&chars("{var:red}")), Some("var".to_string()));
    assert_eq!(extract_next_variable(&chars("  {var}")), Some("var".to_string()));
    assert_eq!(extract_next_variable(&chars("{\"text\":color}")), None);
    assert_eq!(extract_next_variable(&chars("no var here")), None);
    assert_eq!(extract_next_variable(&chars("{$USER}")), Some("$USER".to_string()));
}

#[test]
fn test_variable_has_value() {
    let vars = make_vars(&[("key", "value"), ("empty", "")]);
    let env = make_vars(&[("TEST_VAR", "test_value"), ("TEST_VAR_EMPTY", "")]);
    assert!(variable_has_value("key", &vars, &env));
    assert!(!variable_has_value("empty", &vars, &env));
    assert!(!variable_has_value("missing", &vars, &env));
    assert!(variable_has_value("$TEST_VAR", &vars, &env));
    assert!(!variable_has_value("$TEST_VAR_EMPTY", &vars, &env));
}

#[test]
fn test_validate_format_syntax_valid() {
    let vars = validate_format_syntax("{time:cyan} {hostname:yellow} {cwd:green} $ ").unwrap();
    assert_eq!(vars.len(), 3);
    assert!(vars.contains(&"time".to_string()));
    assert!(vars.contains(&"hostname".to_string()));
    assert!(vars.contains(&"cwd".to_string()));
}

#[test]
fn test_validate_format_syntax_with_literals() {
    let vars = validate_format_syntax("{time:cyan} {\"@\":yellow} {hostname:magenta} $ ").unwrap();
    assert_eq!(vars.len(), 2);
}

#[test]
fn test_validate_format_syntax_with_env_vars() {
    let vars = validate_format_syntax("{time:cyan} {$USER:yellow} {cwd:green} $ ").unwrap();
    assert_eq!(vars.len(), 2);
}

#[test]
fn test_validate_colors_and_styles_valid() {
    let result = validate_colors_and_styles("{time:cyan} {hostname:yellow,bold} {cwd:green} $ ");
    assert_eq!(result.unwrap(), 4);
}

#[test]
fn test_validate_colors_and_styles_invalid() {
    let result = validate_colors_and_styles("{time:invalid_color} {hostname:yellow} $ ");
    assert!(result.is_err());
    assert!(result.unwrap_err().contains("invalid_color"));
}

#[test]
fn test_validate_colors_and_styles_bright_colors() {
    let result = validate_colors_and_styles("{time:bright_cyan} {hostname:bright_yellow} $ ");
    assert_eq!(result.unwrap(), 2);
}

#[test]
fn test_validate_time_format_valid() {
    assert!(validate_time_format("%H:%M:%S"));
    assert!(validate_time_format("%Y-%m-%d"));
    assert!(validate_time_format("%H:%M"));
}

#[test]
fn test_validate_time_format_invalid() {
    assert!(!validate_time_format("%Q"));
    assert!(!validate_time_format("%K"));
}

#[test]
fn test_validate_time_format_with_literal() {
    assert!(validate_time_format("Time: %H:%M:%S"));
    assert!(validate_time_format("%H%%"));
}

#[test]
fn test_tcsh_exclamation_mark_escaping() {
    let vars = make_vars(&[("cwd", "/home/user")]);
    let formatter = TcshFormatter;
    let result = substitute_variables("{cwd} {\"!\":white,bold}", &vars, &no_env(), &formatter);
    let result = formatter.finalize(&result);
    assert!(result.contains("\\!"), "Expected escaped \\! but got: {}", result);
    assert!(!result.contains("%}!%{"), "Found unescaped ! in tcsh output: {}", result);
}

#[test]
fn test_tcsh_exclamation_in_prompt() {
    let vars = make_vars(&[("cwd", "/home/user"), ("git_branch", "main")]);
    let formatter = TcshFormatter;
    let result = substitute_variables("{cwd}~{git_branch} {\"!\":bold} ", &vars, &no_env(), &formatter);
    let result = formatter.finalize(&result);
    assert!(result.contains("\\!"), "Exclamation mark should be escaped in tcsh mode: {}", result);
    assert!(result.contains("/home/user"));
    assert!(result.contains("main"));
}

#[test]
fn test_extract_all_variables() {
    assert_eq!(extract_all_variables("{cwd} {git_branch}"), vec!["cwd", "git_branch"]);
    assert_eq!(extract_all_variables("{cwd:green} {git_branch:magenta}"), vec!["cwd", "git_branch"]);
    assert_eq!(extract_all_variables("{cwd} {\"!\": bold}"), vec!["cwd"]);
    assert_eq!(extract_all_variables("{cwd} {$USER}"), vec!["cwd"]);
    assert_eq!(
        extract_all_variables("{time:cyan} {hostname:yellow} {cwd:green}~{git_branch:magenta}{git_status_clean:green}"),
        vec!["time", "hostname", "cwd", "git_branch", "git_status_clean"]
    );
}

#[test]
fn test_get_ansi_code_table() {
    assert_eq!(get_ansi_code("black"), Some("30"));
    assert_eq!(get_ansi_code("grey"), Some("90"));
    assert_eq!(get_ansi_code("gray"), Some("90"));
    assert_eq!(get_ansi_code("bright_white"), Some("97"));
    assert_eq!(get_ansi_code("underline"), Some("4"));
    assert_eq!(get_ansi_code("normal"), Some("0"));
    assert_eq!(get_ansi_code("dim"), Some("2"));
}

#[test]
fn test_colorize_joins_known_codes() {
    assert_eq!(colorize("hi", "red, bold ,nope", &RawFormatter), "\x1b[31;1mhi\x1b[0m");
    assert_eq!(colorize("hi", "nope", &RawFormatter), "hi");
    assert_eq!(colorize("hi", "cyan", &TcshFormatter), "%{\x1b[36m%}hi%{\x1b[0m%}");
}

#[test]
fn test_handle_literal_and_variable() {
    assert_eq!(handle_literal("\"text\"", &RawFormatter), "text");
    assert_eq!(handle_literal("\"\"x\"\"", &RawFormatter), "x");
    assert_eq!(handle_literal("\"@\":yellow", &RawFormatter), "\x1b[33m@\x1b[0m");
    let vars = make_vars(&[("a", "1")]);
    let env = make_vars(&[("HOME", "/root")]);
    assert_eq!(handle_variable("a", &vars, &env, &RawFormatter), "1");
    assert_eq!(handle_variable("$HOME", &vars, &env, &RawFormatter), "/root");
    assert_eq!(handle_variable("missing:red", &vars, &env, &RawFormatter), "\x1b[31m\x1b[0m");
    assert_eq!(handle_variable("a:red:bold", &vars, &env, &RawFormatter), "\x1b[31m1\x1b[0m");
}

#[test]
fn test_substitute_placeholder_edges() {
    let vars = make_vars(&[("a", "1")]);
    assert_eq!(substitute_variables("{}{a}", &vars, &no_env(), &RawFormatter), "{}1");
    assert_eq!(substitute_variables("{a", &vars, &no_env(), &RawFormatter), "{a");
    assert_eq!(substitute_variables("~x", &vars, &no_env(), &RawFormatter), "~x");
    assert_eq!(process_conditional_spaces("a~{b}\\~", &vars, &no_env()), "a{b}~");
}

#[test]
fn test_discover_variables_deduplicates() {
    assert_eq!(discover_variables("{a} {b:red} {a} {$E} {\"x\"} {}"), vec!["a", "b"]);
}

#[test]
fn test_strip_ansi_codes_and_render_prompt() {
    assert_eq!(strip_ansi_codes("\x1b[31;1mred\x1b[0m \x1b[x"), "red \x1b[x");
    let vars = make_vars(&[("cwd", "/tmp")]);
    let env = make_vars(&[("USER", "me")]);
    assert_eq!(render_prompt("{$USER}@{cwd:green} {\"$\"} {nope}", &vars, &env), "me@/tmp $ ");
}

#[test]
fn test_plain_text_renders_unchanged() {
    let vars = make_vars(&[("a", "1")]);
    let text = "no placeholders: a \\ b } : \"q\"";
    assert_eq!(substitute_variables(text, &vars, &no_env(), &RawFormatter), text);
    assert_eq!(substitute_variables(text, &vars, &no_env(), &TcshFormatter), text);
}

#[test]
fn test_tcsh_prompt_has_no_raw_newline() {
    let out = TcshFormatter.finalize("a\nb!\n%}\nc\r\n");
    assert!(!out.contains('\n'));
    assert_eq!(out, "a\\nb\\!\\n%} \\nc\r\\n");
}

#[test]
fn test_strip_undoes_colorize() {
    for style in ["red", "bold,underline", "nope", "grey, italic"] {
        assert_eq!(strip_ansi_codes(&colorize("some text", style, &RawFormatter)), "some text");
    }
}

#[test]
fn test_tcsh_reference_prompt() {
    let vars = make_vars(&[("time", "23:17:49"), ("hostname", "nomad"), ("cwd", "/home/jeffjose/scripts/twig")]);
    let template = "-({time:cyan} {hostname:magenta} {cwd:green})-\n{\"$\":white,bold} ";
    let formatter = TcshFormatter;
    let substituted = substitute_variables(template, &vars, &no_env(), &formatter);
    assert_eq!(
        substituted,
        "-(%{\x1b[36m%}23:17:49%{\x1b[0m%} %{\x1b[35m%}nomad%{\x1b[0m%} %{\x1b[32m%}/home/jeffjose/scripts/twig%{\x1b[0m%})-\n%{\x1b[37;1m%}$%{\x1b[0m%} "
    );
    assert_eq!(
        formatter.finalize(&substituted),
        "-(%{\x1b[36m%}23:17:49%{\x1b[0m%} %{\x1b[35m%}nomad%{\x1b[0m%} %{\x1b[32m%}/home/jeffjose/scripts/twig%{\x1b[0m%})-\\n%{\x1b[37;1m%}$%{\x1b[0m%} "
    );
    let broken = "-({cwd:green}\n{\"$\":white,bold} ";
    let out = formatter.finalize(&substitute_variables(broken, &vars, &no_env(), &formatter));
    assert!(out.contains("%} \\n"));
}
