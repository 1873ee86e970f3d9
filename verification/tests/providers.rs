use std::time::Duration;
use twig::config::{Config, IpConfig, PromptConfig};
use twig::providers::battery::{BatteryReading, ChargeState};
use twig::providers::git::{parse_ahead_behind, parse_branch, parse_status, GitOutput, GitProbe};
use twig::providers::ip::{IfAddress, Interface};
use twig::providers::{
    combine_collected, BatteryProvider, BuiltinProvider, Collected, GitProvider, IpProvider, Provider,
    ProviderError, ProviderRegistry,
};
use twig::vars::Vars;

#[test]
fn test_battery_provider_creation() {
    let provider = BatteryProvider::new();
    assert_eq!(provider.name(), "battery");
    assert_eq!(provider.sections(), vec!["battery"]);
    assert!(provider.cacheable());
    assert_eq!(provider.cache_duration(), 30);
}

#[test]
fn battery_test_default_config() {
    let provider = BatteryProvider::new();
    let defaults = provider.default_config();
    assert!(defaults.iter().any(|(k, _)| k == "battery"));
}

#[test]
fn test_ip_provider_creation() {
    let provider = IpProvider::new();
    assert_eq!(provider.name(), "ip");
    assert_eq!(provider.sections(), vec!["ip"]);
    assert!(provider.cacheable());
    assert_eq!(provider.cache_duration(), 30);
}

#[test]
fn ip_test_default_config() {
    let provider = IpProvider::new();
    let defaults = provider.default_config();
    let ip = defaults.iter().find(|(k, _)| k == "ip").map(|(_, v)| v.clone());
    assert!(matches!(ip, Some(twig::config::SectionDefaults::PreferIpv6(false))));
}

#[test]
fn test_selective_provider_execution() {
    let registry = ProviderRegistry::new();
    let has = |v: &Vec<String>, n: &str| v.iter().any(|s| s == n);

    let providers = registry.determine_providers(&["time", "hostname", "cwd"]);
    assert!(has(&providers, "builtin"));
    assert!(!has(&providers, "git"));
    assert!(!has(&providers, "ip"));

    let providers = registry.determine_providers(&["git_branch", "git_status_clean"]);
    assert!(has(&providers, "git"));
    assert!(!has(&providers, "builtin"));

    let providers = registry.determine_providers(&["cwd", "git_branch", "ip_address"]);
    assert!(has(&providers, "builtin"));
    assert!(has(&providers, "git"));
    assert!(has(&providers, "ip"));

    let providers = registry.determine_providers(&["battery_percentage", "battery_power"]);
    assert!(has(&providers, "battery"));
}

#[test]
fn test_registry_lookup_and_listing() {
    let registry = ProviderRegistry::new();
    assert_eq!(registry.get_by_section("hostname").map(|p| p.name()), Some("builtin"));
    assert_eq!(registry.get_by_section("git").map(|p| p.name()), Some("git"));
    assert!(registry.get_by_section("weather").is_none());
    assert_eq!(registry.get("ip").map(|p| p.name()), Some("ip"));
    assert_eq!(registry.list_providers(), vec!["builtin", "git", "ip", "battery"]);
    assert_eq!(registry.determine_providers(&["time", "cwd", "zzz"]), vec!["builtin"]);
}

fn out(success: bool, stdout: &str) -> GitOutput {
    GitOutput { success, stdout: stdout.to_string() }
}

#[test]
fn test_git_output_parsing() {
    assert_eq!(parse_branch(&out(true, "main\n")), Some("main".to_string()));
    assert_eq!(parse_branch(&out(true, "  \n")), None);
    assert_eq!(parse_branch(&out(false, "main")), None);
    assert_eq!(parse_ahead_behind(&out(true, "3\t1\n")), Some((3, 1)));
    assert_eq!(parse_ahead_behind(&out(true, "+3 1")), Some((3, 1)));
    assert_eq!(parse_ahead_behind(&out(true, "3")), None);
    assert_eq!(parse_ahead_behind(&out(true, "x 1")), None);
    assert_eq!(parse_ahead_behind(&out(true, "4294967296 1")), None);
    assert_eq!(parse_status(&out(true, "M  a\n M b\n?? c\nA\n\n")), (1, 2));
    assert_eq!(parse_status(&out(false, "M  a")), (0, 0));
    assert_eq!(GitProvider::format_duration(59), "59s");
    assert_eq!(GitProvider::format_duration(60), "1m");
    assert_eq!(GitProvider::format_duration(3599), "59m");
    assert_eq!(GitProvider::format_duration(7200), "2h");
}

fn probe(available: bool, in_repo: bool) -> GitProbe {
    GitProbe {
        available,
        in_repo,
        branch: out(true, "feature\n"),
        ahead_behind: out(true, "2\t0\n"),
        status: out(true, "M  a\n M b\n"),
        last_commit: out(true, "1000\n"),
        now_secs: Some(1000 + 7260),
    }
}

#[test]
fn test_git_collect_variables() {
    let git = GitProvider::new();
    let vars = git.collect(&probe(true, true), false).ok().unwrap();
    assert_eq!(vars.get("git_branch").map(|s| s.as_str()), Some("feature"));
    assert_eq!(vars.get("git_tracking").map(|s| s.as_str()), Some("(ahead.2)"));
    assert_eq!(vars.get("git_status_dirty").map(|s| s.as_str()), Some(":+1+1"));
    assert_eq!(vars.get("git_elapsed").map(|s| s.as_str()), Some(":2h"));
    assert!(vars.get("git_status_clean").is_none());

    let vars = git.collect(&probe(true, false), false).ok().unwrap();
    assert!(vars.entries.is_empty());
    assert!(git.collect(&probe(false, false), false).is_ok());
    assert!(matches!(git.collect(&probe(false, false), true), Err(ProviderError::CommandNotFound(_))));
}

fn config_with_ip(interface: Option<&str>) -> Config {
    Config {
        time: None,
        hostname: None,
        cwd: None,
        git: None,
        ip: Some(IpConfig { name: None, interface: interface.map(|s| s.to_string()), prefer_ipv6: false }),
        battery: None,
        prompt: PromptConfig { format: String::new(), format_wide: None, format_narrow: None, width_threshold: 100 },
    }
}

fn interfaces() -> Vec<Interface> {
    vec![
        Interface { name: "lo".to_string(), is_loopback: true, addr: IfAddress::V4 { text: "127.0.0.1".to_string() } },
        Interface {
            name: "eth0".to_string(),
            is_loopback: false,
            addr: IfAddress::V6 { text: "fe80::1".to_string(), first_segment: 0xfe80 },
        },
        Interface { name: "eth0".to_string(), is_loopback: false, addr: IfAddress::V4 { text: "10.0.0.2".to_string() } },
        Interface {
            name: "wlan0".to_string(),
            is_loopback: false,
            addr: IfAddress::V6 { text: "2001:db8::1".to_string(), first_segment: 0x2001 },
        },
    ]
}

#[test]
fn test_ip_collect_selects_interface() {
    let ip = IpProvider::new();
    let vars = ip.collect(&config_with_ip(None), Ok(interfaces()), false).ok().unwrap();
    assert_eq!(vars.get("ip_interface").map(|s| s.as_str()), Some("eth0"));
    assert_eq!(vars.get("ip_address").map(|s| s.as_str()), Some("10.0.0.2"));
    assert_eq!(vars.get("ip_version").map(|s| s.as_str()), Some("4"));

    let vars = ip.collect(&config_with_ip(Some("wlan0")), Ok(interfaces()), false).ok().unwrap();
    assert_eq!(vars.get("ip_address").map(|s| s.as_str()), Some("2001:db8::1"));
    assert_eq!(vars.get("ip_version").map(|s| s.as_str()), Some("6"));

    let vars = ip.collect(&config_with_ip(Some("lo")), Ok(interfaces()), false).ok().unwrap();
    assert!(vars.entries.is_empty());

    assert!(ip.collect(&config_with_ip(None), Err("boom".to_string()), false).ok().unwrap().entries.is_empty());
    assert!(matches!(
        ip.collect(&config_with_ip(None), Err("boom".to_string()), true),
        Err(ProviderError::ResourceNotAvailable(_))
    ));
}

#[test]
fn test_battery_collect_variables() {
    let battery = BatteryProvider::new();
    let reading = BatteryReading { percentage: 87, state: ChargeState::Discharging, power: Some("-15.0W".to_string()) };
    let vars = battery.collect(Some(reading)).ok().unwrap();
    assert_eq!(vars.get("battery_percentage").map(|s| s.as_str()), Some("87%"));
    assert_eq!(vars.get("battery_status").map(|s| s.as_str()), Some("Discharging"));
    assert_eq!(vars.get("battery_power").map(|s| s.as_str()), Some("-15.0W"));
    assert!(battery.collect(None).ok().unwrap().entries.is_empty());
}

#[test]
fn test_builtin_variables_from_readings() {
    let mut config = config_with_ip(None);
    config.ip = None;
    config.hostname = Some(twig::config::HostnameConfig { name: Some("host".to_string()) });
    config.cwd = Some(twig::config::CwdConfig { name: None });
    let builtin = BuiltinProvider::new();
    let vars = builtin.variables_from(&config, "12:00", "box.example.com", None);
    assert_eq!(vars.get("host").map(|s| s.as_str()), Some("box"));
    assert_eq!(vars.get("cwd").map(|s| s.as_str()), Some("?"));
    assert!(vars.get("time").is_none());
}

fn collected(name: &str, outcome: Result<Vec<(&str, &str)>, ProviderError>, ms: u64) -> Collected {
    Collected {
        name: name.to_string(),
        outcome: outcome.map(|pairs| {
            let mut v = Vars::new();
            for (k, val) in pairs {
                v.insert(k.to_string(), val.to_string());
            }
            v
        }),
        duration: Duration::from_millis(ms),
    }
}

#[test]
fn test_combine_collected_sorts_and_merges() {
    let list = vec![
        collected("ip", Ok(vec![("ip_address", "1")]), 3),
        collected("git", Err(ProviderError::CommandNotFound("git".to_string())), 1),
        collected("battery", Ok(vec![("x", "a")]), 2),
        collected("builtin", Ok(vec![("x", "b")]), 1),
    ];
    let result = combine_collected(list, false).ok().unwrap();
    let names: Vec<&str> = result.timings.iter().map(|t| t.name.as_str()).collect();
    assert_eq!(names, vec!["battery", "builtin", "ip"]);
    assert_eq!(result.variables.get("x").map(|s| s.as_str()), Some("b"));
    assert_eq!(result.variables.get("ip_address").map(|s| s.as_str()), Some("1"));

    let list = vec![
        collected("ip", Ok(vec![]), 3),
        collected("git", Err(ProviderError::CommandNotFound("git".to_string())), 1),
        collected("battery", Err(ProviderError::ParseError("b".to_string())), 2),
    ];
    assert!(matches!(combine_collected(list, true), Err(ProviderError::CommandNotFound(_))));
}

#[test]
fn test_builtin_collect_checked_refuses_formats_chrono_cannot_write() {
    let builtin = BuiltinProvider::new();
    let mut config = config_with_ip(None);
    config.time = Some(twig::config::TimeConfig { name: None, format: "%#z".to_string() });
    assert!(builtin.collect_checked(&config, Some("/tmp")).is_none());
    config.time = Some(twig::config::TimeConfig { name: None, format: "%Q".to_string() });
    assert!(builtin.collect_checked(&config, Some("/tmp")).is_none());
    config.time = Some(twig::config::TimeConfig { name: None, format: "%H:%M".to_string() });
    let vars = builtin.collect_checked(&config, Some("/tmp")).unwrap().ok().unwrap();
    assert_eq!(vars.get("time").map(|t| t.len()), Some(5));
}
