use std::time::Duration;

use twig::config::{Config, IpConfig, PromptConfig, TimeConfig};
use twig::providers::{CollectResult, ProviderTiming};
use twig::report::{debug_box, prompt_box, validation_report};
use twig::vars::Vars;

const OK: &str = "\x1b[32m[OK]\x1b[0m";

fn config(format: &str) -> Config {
    Config {
        time: None,
        hostname: None,
        cwd: None,
        git: None,
        ip: None,
        battery: None,
        prompt: PromptConfig {
            format: format.to_string(),
            format_wide: None,
            format_narrow: None,
            width_threshold: 100,
        },
    }
}

fn collected(pairs: &[(&str, &str)], names: &[&str]) -> CollectResult {
    let mut variables = Vars::new();
    for (k, v) in pairs {
        variables.insert(k.to_string(), v.to_string());
    }
    CollectResult {
        variables,
        timings: names
            .iter()
            .map(|n| ProviderTiming { name: n.to_string(), duration: Duration::from_millis(1) })
            .collect(),
    }
}

#[test]
fn test_validation_report_passing_config() {
    let mut c = config("{time:cyan} {hostname}");
    c.prompt.format_wide = Some("{a} {b} {c}".to_string());
    c.time = Some(TimeConfig { name: None, format: "%H:%M:%S".to_string() });
    let outcome = Ok(collected(&[("time", "12:00:00"), ("hostname", "box")], &["builtin", "git"]));
    let (lines, success) = validation_report(&c, "/tmp/config.toml", &outcome, &Vars::new());
    assert!(success);
    assert_eq!(
        lines,
        vec![
            format!("{} Config file found (/tmp/config.toml)", OK),
            format!("{} TOML syntax valid", OK),
            format!("{} Format string valid (2 variables)", OK),
            format!("{} Format wide valid (3 variables)", OK),
            format!("{} Colors and styles valid (1 found)", OK),
            format!("{} Time format valid", OK),
            format!("{} All providers available (builtin, git)", OK),
            format!("{} Prompt renders successfully", OK),
            format!("{} Shell compatibility verified (Raw, Tcsh, Bash, Zsh)", OK),
            String::new(),
            "Configuration is valid.".to_string(),
        ]
    );
}

#[test]
fn test_validation_report_unknown_style_and_provider_error() {
    let mut c = config("{time:purple}");
    c.ip = Some(IpConfig { name: None, interface: Some("eth0".to_string()), prefer_ipv6: false });
    let outcome: Result<CollectResult, String> = Err("ExecutionFailed(\"git\")".to_string());
    let (lines, success) = validation_report(&c, "c.toml", &outcome, &Vars::new());
    assert!(!success);
    assert_eq!(
        lines,
        vec![
            format!("{} Config file found (c.toml)", OK),
            format!("{} TOML syntax valid", OK),
            format!("{} Format string valid (1 variables)", OK),
            "❌ Unknown color or style: 'purple'".to_string(),
            "❌ Provider error: ExecutionFailed(\"git\")".to_string(),
            "ℹ  IP interface 'eth0' configured".to_string(),
            String::new(),
            "Configuration has errors.".to_string(),
        ]
    );
}

#[test]
fn test_validation_report_warnings() {
    let mut c = config("{missing}");
    c.time = Some(TimeConfig { name: None, format: "%Q".to_string() });
    let outcome = Ok(collected(&[], &[]));
    let (lines, success) = validation_report(&c, "c.toml", &outcome, &Vars::new());
    assert!(success);
    assert_eq!(
        lines,
        vec![
            format!("{} Config file found (c.toml)", OK),
            format!("{} TOML syntax valid", OK),
            format!("{} Format string valid (1 variables)", OK),
            "⚠  Time format may be invalid".to_string(),
            format!("{} All providers available ()", OK),
            "\n⚠️  Warnings:".to_string(),
            "   - Time format '%Q' may contain invalid specifiers".to_string(),
            "   - Prompt rendering produced empty output".to_string(),
            String::new(),
            "Configuration is valid.".to_string(),
        ]
    );
}

#[test]
fn test_validation_report_long_prompt() {
    let long = "x".repeat(201);
    let c = config(&long);
    let outcome = Ok(collected(&[], &["builtin"]));
    let (lines, _) = validation_report(&c, "c.toml", &outcome, &Vars::new());
    assert!(lines.contains(&"   - Prompt is long (201 chars), may wrap on narrow terminals".to_string()));
    assert!(lines.contains(&format!("{} Prompt renders successfully", OK)));
}

#[test]
fn test_prompt_box_pads_to_fifty() {
    let lines = prompt_box("\x1b[36mhi\x1b[0m\nthere");
    let edge = "─".repeat(52);
    assert_eq!(
        lines,
        vec![
            format!("┌{}┐", edge),
            format!("│ \x1b[36mhi\x1b[0m{} │", " ".repeat(48)),
            format!("│ there{} │", " ".repeat(45)),
            format!("└{}┘", edge),
        ]
    );
}

#[test]
fn test_prompt_box_widest_line() {
    let wide = "w".repeat(60);
    let lines = prompt_box(&format!("{}\nab", wide));
    assert_eq!(lines[0], format!("┌{}┐", "─".repeat(62)));
    assert_eq!(lines[1], format!("│ {} │", wide));
    assert_eq!(lines[2], format!("│ ab{} │", " ".repeat(58)));
    assert_eq!(lines[3], format!("└{}┘", "─".repeat(62)));
}

#[test]
fn test_debug_box_layout() {
    let providers = vec!["   git: 1.00ms".to_string()];
    let lines = debug_box("📄 Config: c.toml", "timing", &providers);
    // The widest line is under 40 columns, so the box is 40 wide; the emoji counts twice.
    assert_eq!(lines.len(), 5);
    assert_eq!(lines[0], format!("┌─ 🔍 twig debug {}┐", "─".repeat(25)));
    assert_eq!(lines[1], format!("│ 📄 Config: c.toml{} │", " ".repeat(23)));
    assert_eq!(lines[2], format!("│    git: 1.00ms{} │", " ".repeat(26)));
    assert_eq!(lines[3], format!("│ timing{} │", " ".repeat(34)));
    assert_eq!(lines[4], format!("└{}┘", "─".repeat(42)));
}

#[test]
fn test_debug_box_grows_with_widest_line() {
    let long = "p".repeat(45);
    let lines = debug_box("c", "t", &vec![long.clone()]);
    assert_eq!(lines[0], format!("┌─ 🔍 twig debug {}┐", "─".repeat(30)));
    assert_eq!(lines[2], format!("│ {} │", long));
    assert_eq!(lines[4], format!("└{}┘", "─".repeat(47)));
}

#[test]
fn test_prompt_box_lines_line_up() {
    let lines = prompt_box("\x1b[1;32mgreen\x1b[0m and plain\n\x1b[33m~/src\x1b[0m\n");
    for line in &lines {
        assert_eq!(twig::validate::strip_ansi_codes(line).chars().count(), 54);
    }
    assert_eq!(lines.len(), 5);
}

fn columns(s: &str) -> usize {
    s.chars().count() + s.chars().filter(|c| *c as u32 > 0x1F000).count()
}

#[test]
fn test_debug_box_columns() {
    let providers = vec!["   git: 1.00ms".to_string(), "   builtin: 0.10ms".to_string()];
    let lines = debug_box("📄 Config: /home/u/.config/twig/config.toml", "⏱️  Timing: 1.00ms", &providers);
    let width = columns(&lines[1]) - 4;
    assert_eq!(columns(&lines[0]), width + 3);
    for line in &lines[1..] {
        assert_eq!(columns(line), width + 4);
    }
}

#[test]
fn test_validation_verdict_ignores_time_and_other_formats() {
    let outcome = Ok(collected(&[("time", "12:00:00")], &["builtin"]));
    let plain = config("{time:cyan}");
    let mut noisy = config("{time:cyan}");
    noisy.time = Some(TimeConfig { name: None, format: "%Q".to_string() });
    noisy.prompt.format_wide = Some("{time:purple}".to_string());
    noisy.prompt.format_narrow = Some("{time:nocolor}".to_string());
    let (plain_lines, plain_ok) = validation_report(&plain, "c.toml", &outcome, &Vars::new());
    let (noisy_lines, noisy_ok) = validation_report(&noisy, "c.toml", &outcome, &Vars::new());
    assert!(plain_ok);
    assert_eq!(plain_ok, noisy_ok);
    assert_eq!(plain_lines.last().map(|s| s.as_str()), Some("Configuration is valid."));
    assert_eq!(noisy_lines.last().map(|s| s.as_str()), Some("Configuration is valid."));
    let failed: Result<CollectResult, String> = Err("boom".to_string());
    let (_, failed_ok) = validation_report(&plain, "c.toml", &failed, &Vars::new());
    assert!(!failed_ok);
}
