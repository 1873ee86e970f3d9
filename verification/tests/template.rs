use twig::template::format_template;

fn check(template: &str, expected: &str, vars: Vec<(&str, &str)>, mode: Option<&str>) {
    let output = format_template(template, &vars, false, mode).ok().unwrap();
    assert_eq!(
        output, expected,
        "Template {:?} with vars {:?} in mode {:?} produced unexpected output",
        template, vars, mode
    );
}

#[test]
fn test_noncolor_substitution_basic_var() {
    check("{var}", "value", vec![("var", "value")], None);
}

#[test]
fn test_noncolor_substitution_multiple_vars() {
    check("{a}{b}", "12", vec![("a", "1"), ("b", "2")], None);
}

#[test]
fn test_noncolor_substitution_env_var() {
    check("{$USER}", "testuser", vec![("$USER", "testuser")], None);
}

#[test]
fn test_noncolor_substitution_quoted_text() {
    check("{\"hello\"}", "hello", vec![], None);
}

#[test]
fn test_noncolor_substitution_quoted_with_var() {
    check("{\"prefix-\"}{var}", "prefix-value", vec![("var", "value")], None);
}

#[test]
fn test_noncolor_substitution_repeated_var() {
    check("{var} {var}", "test test", vec![("var", "test")], None);
}

#[test]
fn test_noncolor_substitution_with_punctuation() {
    check("Hello, {name}!", "Hello, world!", vec![("name", "world")], None);
}

#[test]
fn test_noncolor_substitution_plain_text() {
    check("plain text", "plain text", vec![], None);
}

#[test]
fn test_noncolor_substitution_wrapped_var() {
    check("({var})", "(value)", vec![("var", "value")], None);
}

#[test]
fn test_noncolor_substitution_multiple_env_vars() {
    check("{$USER}@{$HOST}", "testuser@testhost", vec![("$USER", "testuser"), ("$HOST", "testhost")], None);
}

#[test]
fn test_noncolor_substitution_empty_template() {
    check("", "", vec![], None);
}

#[test]
fn test_noncolor_substitution_invalid_var() {
    check("{}", "{}", vec![], None);
}

#[test]
fn test_noncolor_substitution_nested_braces() {
    check("{{var}}", "{value}", vec![("var", "value")], None);
}

#[test]
fn test_noncolor_substitution_triple_var() {
    check("{var}{var}{var}", "valuevaluevalue", vec![("var", "value")], None);
}

#[test]
fn test_noncolor_substitution_invalid_var_spaces() {
    check("{ var }", "{ var }", vec![("var", "value")], None);
}

#[test]
fn test_noncolor_substitution_unicode_arrow() {
    check("{\"→\"}", "→", vec![], None);
}

#[test]
fn test_noncolor_substitution_escaped_quotes() {
    check("{\"\\\"\"}", "\"", vec![], None);
}

#[test]
fn test_noncolor_substitution_repeated_with_colon() {
    check("{var}:{var}", "test:test", vec![("var", "test")], None);
}

#[test]
fn test_noncolor_substitution_prefix_suffix() {
    check("pre{var}post", "prevaluepost", vec![("var", "value")], None);
}

#[test]
fn test_noncolor_substitution_multiple_with_dash() {
    check("{a}-{b}-{c}", "1-2-3", vec![("a", "1"), ("b", "2"), ("c", "3")], None);
}

#[test]
fn test_noncolor_substitution_path_var() {
    check("{$PATH}", "/usr/bin", vec![("$PATH", "/usr/bin")], None);
}

#[test]
fn test_noncolor_substitution_home_and_user() {
    check("{$HOME}/{$USER}", "/home/testuser", vec![("$HOME", "/home"), ("$USER", "testuser")], None);
}

#[test]
fn test_noncolor_substitution_shell_and_term() {
    check("{$SHELL}-{$TERM}", "bash-xterm", vec![("$SHELL", "bash"), ("$TERM", "xterm")], None);
}

#[test]
fn test_noncolor_substitution_quoted_var_quoted() {
    check("{\"prefix\"}{var}{\"suffix\"}", "prefixvaluesuffix", vec![("var", "value")], None);
}

#[test]
fn test_noncolor_substitution_vars_with_quoted() {
    check("{a}{\"mid\"}{b}", "1mid2", vec![("a", "1"), ("b", "2")], None);
}

#[test]
fn test_noncolor_multiline_basic_two_lines() {
    check("line1\nline2", "line1\nline2", vec![], None);
}

#[test]
fn test_noncolor_multiline_var_in_both_lines() {
    check("hello {name}\nbye {name}", "hello world\nbye world", vec![("name", "world")], None);
}

#[test]
fn test_noncolor_multiline_filter_empty_middle() {
    check("line1\n\nline2", "line1\nline2", vec![], None);
}

#[test]
fn test_noncolor_multiline_tcsh_basic() {
    check("line1\nline2", "line1\\nline2", vec![], Some("tcsh"));
}

#[test]
fn test_noncolor_multiline_tcsh_with_env_vars() {
    check("{$USER}\n{$HOST}", "testuser\\ntesthost", vec![("$USER", "testuser"), ("$HOST", "testhost")], Some("tcsh"));
}

#[test]
fn test_noncolor_multiline_preserve_indent() {
    check("line1\n  line2\n    line3", "line1\n  line2\n    line3", vec![], None);
}

#[test]
fn test_noncolor_multiline_all_empty() {
    check("\n\n\n", "", vec![], None);
}

#[test]
fn test_noncolor_multiline_all_whitespace() {
    check("  \n  \n  ", "", vec![], None);
}

#[test]
fn test_noncolor_multiline_multiple_empty_lines() {
    check("start\n\n\nend", "start\nend", vec![], None);
}

#[test]
fn test_noncolor_multiline_increasing_spaces() {
    check("  a\n    b\n      c", "  a\n    b\n      c", vec![], None);
}

#[test]
fn test_noncolor_multiline_increasing_tabs() {
    check("\ta\n\t\tb\n\t\t\tc", "\ta\n\t\tb\n\t\t\tc", vec![], None);
}

#[test]
fn test_noncolor_multiline_var_at_line_start() {
    check("{var}\n{var}", "value\nvalue", vec![("var", "value")], None);
}

#[test]
fn test_noncolor_multiline_var_mixed_position() {
    check("start {var}\n{var} end", "start value\nvalue end", vec![("var", "value")], None);
}

#[test]
fn test_noncolor_multiline_three_sections() {
    check("Title\n---\nContent", "Title\n---\nContent", vec![], None);
}

#[test]
fn test_noncolor_multiline_markdown_headers() {
    check("# {title}\n## {subtitle}", "# Header\n## Subheader", vec![("title", "Header"), ("subtitle", "Subheader")], None);
}

#[test]
fn test_noncolor_multiline_tcsh_three_lines() {
    check("a\nb\nc", "a\\nb\\nc", vec![], Some("tcsh"));
}

#[test]
fn test_noncolor_multiline_tcsh_repeated_var() {
    check("{var}\n{var}", "value\\nvalue", vec![("var", "value")], Some("tcsh"));
}

#[test]
fn test_noncolor_multiline_tcsh_preserve_spaces() {
    check("  spaces  \n  matter  ", "  spaces  \\n  matter  ", vec![], Some("tcsh"));
}

#[test]
fn test_noncolor_multiline_quoted_arrows() {
    check("{\">\"}\n{var}\n{\"<\"}", ">\nvalue\n<", vec![("var", "value")], None);
}

#[test]
fn test_noncolor_multiline_numbered_lines() {
    check("Line 1 {a}\nLine 2 {b}\nLine 3 {c}", "Line 1 1\nLine 2 2\nLine 3 3", vec![("a", "1"), ("b", "2"), ("c", "3")], None);
}

#[test]
fn test_noncolor_multiline_markdown_doc() {
    check("# {title}\n\n## {subtitle}\n\n{content}", "# Header\n## Subheader\nText", vec![("title", "Header"), ("subtitle", "Subheader"), ("content", "Text")], None);
}

#[test]
fn test_noncolor_multiline_single_newline() {
    check("\n", "", vec![], None);
}

#[test]
fn test_noncolor_multiline_trailing_newline() {
    check("a\n", "a", vec![], None);
}

#[test]
fn test_noncolor_multiline_leading_newline() {
    check("\na", "a", vec![], None);
}

#[test]
fn test_noncolor_multiline_multiple_empty_groups() {
    check("a\n\nb\n\nc", "a\nb\nc", vec![], None);
}

#[test]
fn test_color_substitution_red_var() {
    check("{var:red}", "\u{1b}[31mvalue\u{1b}[0m", vec![("var", "value")], None);
}

#[test]
fn test_color_substitution_green_var() {
    check("{var:green}", "\u{1b}[32mvalue\u{1b}[0m", vec![("var", "value")], None);
}

#[test]
fn test_color_substitution_yellow_var() {
    check("{var:yellow}", "\u{1b}[33mvalue\u{1b}[0m", vec![("var", "value")], None);
}

#[test]
fn test_color_substitution_blue_var() {
    check("{var:blue}", "\u{1b}[34mvalue\u{1b}[0m", vec![("var", "value")], None);
}

#[test]
fn test_color_substitution_magenta_var() {
    check("{var:magenta}", "\u{1b}[35mvalue\u{1b}[0m", vec![("var", "value")], None);
}

#[test]
fn test_color_substitution_cyan_var() {
    check("{var:cyan}", "\u{1b}[36mvalue\u{1b}[0m", vec![("var", "value")], None);
}

#[test]
fn test_color_substitution_white_var() {
    check("{var:white}", "\u{1b}[37mvalue\u{1b}[0m", vec![("var", "value")], None);
}

#[test]
fn test_color_substitution_bright_red() {
    check("{var:bright_red}", "\u{1b}[1;31mvalue\u{1b}[0m", vec![("var", "value")], None);
}

#[test]
fn test_color_substitution_bright_green() {
    check("{var:bright_green}", "\u{1b}[1;32mvalue\u{1b}[0m", vec![("var", "value")], None);
}

#[test]
fn test_color_substitution_bright_yellow() {
    check("{var:bright_yellow}", "\u{1b}[1;33mvalue\u{1b}[0m", vec![("var", "value")], None);
}

#[test]
fn test_color_substitution_bright_blue() {
    check("{var:bright_blue}", "\u{1b}[1;34mvalue\u{1b}[0m", vec![("var", "value")], None);
}

#[test]
fn test_color_substitution_bright_magenta() {
    check("{var:bright_magenta}", "\u{1b}[1;35mvalue\u{1b}[0m", vec![("var", "value")], None);
}

#[test]
fn test_color_substitution_bright_cyan() {
    check("{var:bright_cyan}", "\u{1b}[1;36mvalue\u{1b}[0m", vec![("var", "value")], None);
}

#[test]
fn test_color_substitution_bright_white() {
    check("{var:bright_white}", "\u{1b}[1;37mvalue\u{1b}[0m", vec![("var", "value")], None);
}

#[test]
fn test_color_substitution_bold_text() {
    check("{var:bold}", "\u{1b}[1mvalue\u{1b}[0m", vec![("var", "value")], None);
}

#[test]
fn test_color_substitution_italic_text() {
    check("{var:italic}", "\u{1b}[3mvalue\u{1b}[0m", vec![("var", "value")], None);
}

#[test]
fn test_color_substitution_normal_text() {
    check("{var:normal}", "\u{1b}[0mvalue\u{1b}[0m", vec![("var", "value")], None);
}

#[test]
fn test_color_substitution_bold_red() {
    check("{var:red,bold}", "\u{1b}[31;1mvalue\u{1b}[0m", vec![("var", "value")], None);
}

#[test]
fn test_color_substitution_italic_blue() {
    check("{var:blue,italic}", "\u{1b}[34;3mvalue\u{1b}[0m", vec![("var", "value")], None);
}

#[test]
fn test_color_substitution_bright_bold() {
    check("{var:bright_green,bold}", "\u{1b}[1;32;1mvalue\u{1b}[0m", vec![("var", "value")], None);
}

#[test]
fn test_color_substitution_multiple_vars_colors() {
    check("({a:red}){b:blue}", "(\u{1b}[31m1\u{1b}[0m)\u{1b}[34m2\u{1b}[0m", vec![("a", "1"), ("b", "2")], None);
}

#[test]
fn test_color_substitution_quoted_with_color() {
    check("{\"→\":cyan} {var:red}", "\u{1b}[36m→\u{1b}[0m \u{1b}[31mvalue\u{1b}[0m", vec![("var", "value")], None);
}

#[test]
fn test_color_substitution_env_var_color() {
    check("{$USER:green}", "\u{1b}[32mtestuser\u{1b}[0m", vec![("$USER", "testuser")], None);
}

#[test]
fn test_color_substitution_mixed_styles() {
    check("{var:bold,red,italic}", "\u{1b}[1;31;3mvalue\u{1b}[0m", vec![("var", "value")], None);
}

#[test]
fn test_color_substitution_unknown_color() {
    check("{var:unknown}", "\u{1b}[37mvalue\u{1b}[0m", vec![("var", "value")], None);
}

#[test]
fn test_color_substitution_empty_color() {
    check("{var:}", "value", vec![("var", "value")], None);
}

#[test]
fn test_color_substitution_multiple_same_var() {
    check("{var:red} and {var:blue}", "\u{1b}[31mvalue\u{1b}[0m and \u{1b}[34mvalue\u{1b}[0m", vec![("var", "value")], None);
}

#[test]
fn test_color_substitution_nested_color_ignored() {
    check("{{var:red}:blue}", "{value:blue}", vec![("var", "value")], None);
}

#[test]
fn test_color_substitution_space_in_format() {
    check("{var: red }", "value", vec![("var", "value")], None);
}

#[test]
fn test_color_substitution_color_then_plain() {
    check("{var:red} plain", "\u{1b}[31mvalue\u{1b}[0m plain", vec![("var", "value")], None);
}

#[test]
fn test_color_substitution_plain_then_color() {
    check("plain {var:red}", "plain \u{1b}[31mvalue\u{1b}[0m", vec![("var", "value")], None);
}

#[test]
fn test_color_substitution_multiple_colors_with_plain() {
    check("{var1:red} plain {var2:blue}", "\u{1b}[31mvalue1\u{1b}[0m plain \u{1b}[34mvalue2\u{1b}[0m", vec![("var1", "value1"), ("var2", "value2")], None);
}

#[test]
fn test_color_substitution_multiple_styles_ending() {
    check("{var:bold,red} plain", "\u{1b}[1;31mvalue\u{1b}[0m plain", vec![("var", "value")], None);
}

#[test]
fn test_color_substitution_multiple_vars_same_color() {
    check("{var1:red}{var2:red}", "\u{1b}[31mvalue1\u{1b}[0m\u{1b}[31mvalue2\u{1b}[0m", vec![("var1", "value1"), ("var2", "value2")], None);
}

#[test]
fn test_multiline_color_substitution_multiline_red() {
    check("line1\n{var:red}", "line1\n\u{1b}[31mvalue\u{1b}[0m", vec![("var", "value")], None);
}

#[test]
fn test_multiline_color_substitution_multiline_green_blue() {
    check("line1\n{var1:green}\nline2\n{var2:blue}", "line1\n\u{1b}[32mvalue1\u{1b}[0m\nline2\n\u{1b}[34mvalue2\u{1b}[0m", vec![("var1", "value1"), ("var2", "value2")], None);
}

#[test]
fn test_multiline_color_substitution_multiline_all_colors() {
    check("{var1:red}\n{var2:green}\n{var3:blue}\n{var4:yellow}\n{var5:magenta}\n{var6:cyan}\n{var7:white}",
        "\u{1b}[31mvalue\u{1b}[0m\n\u{1b}[32mvalue\u{1b}[0m\n\u{1b}[34mvalue\u{1b}[0m\n\u{1b}[33mvalue\u{1b}[0m\n\u{1b}[35mvalue\u{1b}[0m\n\u{1b}[36mvalue\u{1b}[0m\n\u{1b}[37mvalue\u{1b}[0m",
        vec![("var1", "value"), ("var2", "value"), ("var3", "value"), ("var4", "value"), ("var5", "value"), ("var6", "value"), ("var7", "value")],
        None);
}

#[test]
fn test_multiline_color_substitution_multiline_bold_colors() {
    check("{var1:bold,red}\n{var2:bold,green}\n{var3:bold,blue}",
        "\u{1b}[1;31mvalue\u{1b}[0m\n\u{1b}[1;32mvalue\u{1b}[0m\n\u{1b}[1;34mvalue\u{1b}[0m",
        vec![("var1", "value"), ("var2", "value"), ("var3", "value")],
        None);
}

#[test]
fn test_multiline_color_substitution_multiline_italic_colors() {
    check("{var1:italic,red}\n{var2:italic,green}\n{var3:italic,blue}",
        "\u{1b}[3;31mvalue\u{1b}[0m\n\u{1b}[3;32mvalue\u{1b}[0m\n\u{1b}[3;34mvalue\u{1b}[0m",
        vec![("var1", "value"), ("var2", "value"), ("var3", "value")],
        None);
}

#[test]
fn test_multiline_color_substitution_multiline_bright_colors() {
    check("{var1:bright_red}\n{var2:bright_green}\n{var3:bright_blue}",
        "\u{1b}[1;31mvalue\u{1b}[0m\n\u{1b}[1;32mvalue\u{1b}[0m\n\u{1b}[1;34mvalue\u{1b}[0m",
        vec![("var1", "value"), ("var2", "value"), ("var3", "value")],
        None);
}

#[test]
fn test_multiline_color_substitution_multiline_mixed_plain() {
    check("plain1\n{var1:red}\nplain2\n{var2:blue}\nplain3",
        "plain1\n\u{1b}[31mvalue\u{1b}[0m\nplain2\n\u{1b}[34mvalue\u{1b}[0m\nplain3\u{1b}[0m",
        vec![("var1", "value"), ("var2", "value")],
        None);
}

#[test]
fn test_multiline_color_substitution_multiline_indented() {
    check("  {var1:red}\n    {var2:blue}\n      {var3:green}",
        "  \u{1b}[31mvalue\u{1b}[0m\n    \u{1b}[34mvalue\u{1b}[0m\n      \u{1b}[32mvalue\u{1b}[0m",
        vec![("var1", "value"), ("var2", "value"), ("var3", "value")],
        None);
}

#[test]
fn test_multiline_color_substitution_multiline_quoted() {
    check("{\"text1\":red}\n{\"text2\":blue}\n{\"text3\":green}",
        "\u{1b}[31mtext1\u{1b}[0m\n\u{1b}[34mtext2\u{1b}[0m\n\u{1b}[32mtext3\u{1b}[0m",
        vec![],
        None);
}

#[test]
fn test_multiline_color_substitution_multiline_mixed_quoted() {
    check("{var1:red}\n{\"text\":blue}\n{var2:green}",
        "\u{1b}[31mvalue1\u{1b}[0m\n\u{1b}[34mtext\u{1b}[0m\n\u{1b}[32mvalue2\u{1b}[0m",
        vec![("var1", "value1"), ("var2", "value2")],
        None);
}

#[test]
fn test_multiline_color_substitution_multiline_empty_lines() {
    check("{var1:red}\n\n{var2:blue}\n\n{var3:green}",
        "\u{1b}[31mvalue\u{1b}[0m\n\n\u{1b}[34mvalue\u{1b}[0m\n\n\u{1b}[32mvalue\u{1b}[0m",
        vec![("var1", "value"), ("var2", "value"), ("var3", "value")],
        None);
}

#[test]
fn test_multiline_color_substitution_multiline_multiple_per_line() {
    check("{var1:red} and {var2:blue}\n{var3:green} and {var4:yellow}",
        "\u{1b}[31mvalue\u{1b}[0m and \u{1b}[34mvalue\u{1b}[0m\n\u{1b}[32mvalue\u{1b}[0m and \u{1b}[33mvalue\u{1b}[0m",
        vec![("var1", "value"), ("var2", "value"), ("var3", "value"), ("var4", "value")],
        None);
}

#[test]
fn test_multiline_color_substitution_multiline_nested_braces() {
    check("{{var1:red}}\n{{var2:blue}}\n{{var3:green}}",
        "{value}\n{value}\n{value}",
        vec![("var1", "value"), ("var2", "value"), ("var3", "value")],
        None);
}

#[test]
fn test_multiline_color_substitution_multiline_spaced_format() {
    check("{var1: red }\n{var2: blue }\n{var3: green }",
        "value\nvalue\nvalue",
        vec![("var1", "value"), ("var2", "value"), ("var3", "value")],
        None);
}

#[test]
fn test_multiline_color_substitution_multiline_unknown_colors() {
    check("{var1:unknown1}\n{var2:unknown2}\n{var3:unknown3}",
        "\u{1b}[37mvalue\u{1b}[0m\n\u{1b}[37mvalue\u{1b}[0m\n\u{1b}[37mvalue\u{1b}[0m",
        vec![("var1", "value"), ("var2", "value"), ("var3", "value")],
        None);
}

#[test]
fn test_multiline_color_substitution_multiline_tcsh_mode() {
    check("{var1:red}\n{var2:blue}",
        "%{\x1b[31m%}value%{\x1b[0m%}\\n%{\x1b[34m%}value%{\x1b[0m%}",
        vec![("var1", "value"), ("var2", "value")],
        Some("tcsh"));
}

#[test]
fn test_multiline_color_substitution_multiline_unicode() {
    check("{\"→\":red}\n{\"←\":blue}\n{\"↔\":green}",
        "\u{1b}[31m→\u{1b}[0m\n\u{1b}[34m←\u{1b}[0m\n\u{1b}[32m↔\u{1b}[0m",
        vec![],
        None);
}

#[test]
fn test_multiline_color_substitution_multiline_escaped_quotes() {
    check("{\"\\\"text1\\\"\":red}\n{\"\\\"text2\\\"\":blue}",
        "\u{1b}[31m\"text1\"\u{1b}[0m\n\u{1b}[34m\"text2\"\u{1b}[0m",
        vec![],
        None);
}

#[test]
fn test_multiline_color_substitution_multiline_complex_mixed() {
    check("Title: {var1:bold,red}\nSubtitle: {\"→\":blue}\nContent: {var2:italic,green}",
        "Title: \u{1b}[1;31mvalue1\u{1b}[0m\nSubtitle: \u{1b}[34m→\u{1b}[0m\nContent: \u{1b}[3;32mvalue2\u{1b}[0m",
        vec![("var1", "value1"), ("var2", "value2")],
        None);
}

#[test]
fn test_multiline_color_substitution_multiline_multiple_styles() {
    check("{var1:bold,italic,red}\n{var2:bold,italic,blue}",
        "\u{1b}[1;3;31mvalue\u{1b}[0m\n\u{1b}[1;3;34mvalue\u{1b}[0m",
        vec![("var1", "value"), ("var2", "value")],
        None);
}

#[test]
fn test_multiline_color_substitution_multiline_color_then_plain() {
    check("{var:red}\nplain text",
        "\u{1b}[31mvalue\u{1b}[0m\nplain text\u{1b}[0m",
        vec![("var", "value")],
        None);
}

#[test]
fn test_multiline_color_substitution_multiline_mixed_ending() {
    check("{var1:red}\nplain\n{var2:blue}\nmore plain",
        "\u{1b}[31mvalue1\u{1b}[0m\nplain\n\u{1b}[34mvalue2\u{1b}[0m\nmore plain\u{1b}[0m",
        vec![("var1", "value1"), ("var2", "value2")],
        None);
}

#[test]
fn test_multiline_color_substitution_multiline_style_color_mix() {
    check("{var1:bold}\n{var2:red}\n{var3:italic,blue}",
        "\u{1b}[1mvalue1\u{1b}[0m\n\u{1b}[31mvalue2\u{1b}[0m\n\u{1b}[3;34mvalue3\u{1b}[0m",
        vec![("var1", "value1"), ("var2", "value2"), ("var3", "value3")],
        None);
}

#[test]
fn test_multiline_color_substitution_multiline_mixed_colors_with_hash() {
    check("{var1:red} {var2:blue} {var3:green}\n#",
        "\u{1b}[31mvalue1\u{1b}[0m \u{1b}[34mvalue2\u{1b}[0m \u{1b}[32mvalue3\u{1b}[0m\n#\u{1b}[0m",
        vec![("var1", "value1"), ("var2", "value2"), ("var3", "value3")],
        None);
}

#[test]
fn test_multiline_color_substitution_multiline_mixed_colors_with_hash_space() {
    check("{var1:red} {var2:blue} {var3:green}\n# ",
        "\u{1b}[31mvalue1\u{1b}[0m \u{1b}[34mvalue2\u{1b}[0m \u{1b}[32mvalue3\u{1b}[0m\n# \u{1b}[0m",
        vec![("var1", "value1"), ("var2", "value2"), ("var3", "value3")],
        None);
}

#[test]
fn test_tcsh_multiline_format() {
    let template = "\n-({time:cyan} {host:magenta} {local:magenta} {dir:green})-\n# ";
    let variables = [("time", "12:34:56"), ("host", "skyfall"), ("local", "192.168.1.1"), ("dir", "/home/user")];
    let expected = "\\n-(%{\u{1b}[36m%}12:34:56%{\u{1b}[0m%} %{\u{1b}[35m%}skyfall%{\u{1b}[0m%} %{\u{1b}[35m%}192.168.1.1%{\u{1b}[0m%} %{\u{1b}[32m%}/home/user%{\u{1b}[0m%})-\\n# ";
    let result = twig::template::format_template(template, &variables, false, Some("tcsh")).unwrap();
    assert_eq!(result, expected);
}
