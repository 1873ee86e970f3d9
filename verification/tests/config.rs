use twig::config::{Config, PromptConfig, SectionDefaults};
use twig::sections::{apply_implicit_sections, create_default_config, create_fallback_config};

fn prompt(format_wide: Option<&str>, format_narrow: Option<&str>, width_threshold: u16) -> PromptConfig {
    PromptConfig {
        format: "default".to_string(),
        format_wide: format_wide.map(|s| s.to_string()),
        format_narrow: format_narrow.map(|s| s.to_string()),
        width_threshold,
    }
}

#[test]
fn test_get_format_no_responsive() {
    let prompt = prompt(None, None, 100);
    assert_eq!(prompt.get_format(Some(50)), "default");
    assert_eq!(prompt.get_format(Some(150)), "default");
    assert_eq!(prompt.get_format(None), "default");
}

#[test]
fn test_get_format_narrow_only() {
    let prompt = prompt(None, Some("narrow"), 100);
    assert_eq!(prompt.get_format(Some(50)), "narrow");
    assert_eq!(prompt.get_format(Some(99)), "narrow");
    assert_eq!(prompt.get_format(Some(100)), "default");
    assert_eq!(prompt.get_format(Some(150)), "default");
    assert_eq!(prompt.get_format(None), "default");
}

#[test]
fn test_get_format_wide_only() {
    let prompt = prompt(Some("wide"), None, 100);
    assert_eq!(prompt.get_format(Some(50)), "default");
    assert_eq!(prompt.get_format(Some(99)), "default");
    assert_eq!(prompt.get_format(Some(100)), "wide");
    assert_eq!(prompt.get_format(Some(150)), "wide");
    assert_eq!(prompt.get_format(None), "default");
}

#[test]
fn test_get_format_both() {
    let prompt = prompt(Some("wide"), Some("narrow"), 100);
    assert_eq!(prompt.get_format(Some(50)), "narrow");
    assert_eq!(prompt.get_format(Some(99)), "narrow");
    assert_eq!(prompt.get_format(Some(100)), "wide");
    assert_eq!(prompt.get_format(Some(150)), "wide");
    assert_eq!(prompt.get_format(None), "default");
}

#[test]
fn test_get_format_custom_threshold() {
    let prompt = prompt(Some("wide"), Some("narrow"), 80);
    assert_eq!(prompt.get_format(Some(50)), "narrow");
    assert_eq!(prompt.get_format(Some(79)), "narrow");
    assert_eq!(prompt.get_format(Some(80)), "wide");
    assert_eq!(prompt.get_format(Some(100)), "wide");
}

fn empty_config(format: &str) -> Config {
    Config {
        time: None,
        hostname: None,
        cwd: None,
        git: None,
        ip: None,
        battery: None,
        prompt: PromptConfig {
            format: format.to_string(),
            format_wide: None,
            format_narrow: None,
            width_threshold: 100,
        },
    }
}

#[test]
fn test_has_section_and_add_implicit_section() {
    let mut config = empty_config("{x}");
    assert!(!config.has_section("git"));
    config.add_implicit_section("git".to_string(), SectionDefaults::Empty);
    assert!(config.has_section("git"));
    assert!(!config.has_section("time"));
    config.add_implicit_section("time".to_string(), SectionDefaults::Empty);
    assert_eq!(config.time.as_ref().unwrap().format, "%H:%M:%S");
    config.add_implicit_section("unknown".to_string(), SectionDefaults::Empty);
    assert!(!config.has_section("unknown"));
}

#[test]
fn test_apply_implicit_sections_brings_in_provider_sections() {
    let mut config = empty_config("{hostname} {git_branch} {$HOME} {\"x\"}");
    apply_implicit_sections(&mut config, "{hostname} {git_branch} {$HOME} {\"x\"}");
    assert!(config.has_section("hostname"));
    assert!(config.has_section("time"));
    assert!(config.has_section("cwd"));
    assert!(config.has_section("git"));
    assert!(!config.has_section("ip"));
    assert!(!config.has_section("battery"));
    assert_eq!(config.time.as_ref().unwrap().format, "%H:%M:%S");
}

#[test]
fn test_apply_implicit_sections_keeps_existing_sections() {
    let mut config = empty_config("{time} {ip_address} {battery_status}");
    config.time = Some(twig::config::TimeConfig { name: Some("clock".to_string()), format: "%H".to_string() });
    apply_implicit_sections(&mut config, "{time} {ip_address} {battery_status}");
    assert_eq!(config.time.as_ref().unwrap().format, "%H");
    assert_eq!(config.time.as_ref().unwrap().name.as_deref(), Some("clock"));
    let ip = config.ip.as_ref().unwrap();
    assert_eq!(ip.interface, None);
    assert!(!ip.prefer_ipv6);
    assert!(config.has_section("battery"));
}

#[test]
fn test_create_configs() {
    let fallback = create_fallback_config();
    assert_eq!(fallback.prompt.format, "{$USER}@{hostname}:{cwd}$ ");
    assert!(fallback.time.is_none());
    assert!(fallback.hostname.is_some());
    let default = create_default_config();
    assert_eq!(
        default.prompt.format,
        "{time:cyan} {\"@\":yellow,bold} {hostname:magenta} {cwd:green} {\"$\":white,bold} "
    );
    assert_eq!(default.time.as_ref().unwrap().format, "%H:%M:%S");
    assert_eq!(default.prompt.width_threshold, 100);
}

#[test]
fn test_apply_implicit_sections_twice_changes_nothing() {
    let template = "{cwd} {ip_interface}";
    let mut config = empty_config(template);
    apply_implicit_sections(&mut config, template);
    let once = (config.time.is_some(), config.hostname.is_some(), config.cwd.is_some(), config.ip.is_some(), config.git.is_some());
    apply_implicit_sections(&mut config, template);
    let twice = (config.time.is_some(), config.hostname.is_some(), config.cwd.is_some(), config.ip.is_some(), config.git.is_some());
    assert_eq!(once, (true, true, true, true, false));
    assert_eq!(once, twice);
}
