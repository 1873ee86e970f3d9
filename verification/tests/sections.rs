use std::time::Duration;
use twig::colors::{ColorCondition, ColorConfig};
use twig::cwd::{format_cwd, Config as CwdConfig};
use twig::daemon::{
    daemon_frequency, format_duration_units, format_uses_variable as uses_prefix, get_env_vars_from_format,
    validate_section_names, ConfigError, TimingData,
};
use twig::env_var::{Config as EnvVarConfig, EnvProvider};
use twig::git::{count_lines, get_changes_indicator, get_remote_status, get_repo_state, get_stash_indicator, parse_count, GitError};
use twig::hostname::{get_hostname, Config as HostnameConfig, HostnameError};
use twig::ip::{find_interface_address, Config as IpConfig, IpConfigError};
use twig::power::Config as PowerConfig;
use twig::time::{format_current_time, TimeConfig};
use twig::variable::{format_uses_variable, get_var_name, process_section, replace_variables, ConfigWithName, LazyVariables, VariableProvider};
use twig::vars::Vars;

#[test]
fn cwd_test_default_config() {
    let config = CwdConfig::default();
    assert_eq!(config.name, None);
    assert_eq!(config.shorten, false);
    assert_eq!(config.deferred, false);
}

#[test]
fn cwd_test_deferred_config() {
    let config = CwdConfig { name: Some("dir".to_string()), shorten: true, deferred: true };
    assert!(config.deferred);
    assert_eq!(config.name, Some("dir".to_string()));
    assert!(config.shorten);
}

#[test]
fn cwd_test_deferred_default() {
    let config = CwdConfig::default();
    assert!(!config.deferred, "deferred should be false by default");
}

#[test]
fn test_format_cwd_shortening() {
    let short = CwdConfig { name: None, shorten: true, deferred: false };
    let full = CwdConfig { name: None, shorten: false, deferred: false };
    assert_eq!(format_cwd(&short, "/tmp/test_dir"), "test_dir");
    assert_eq!(format_cwd(&short, "/tmp/test_dir/"), "test_dir");
    assert_eq!(format_cwd(&short, "/"), "/");
    assert_eq!(format_cwd(&short, "//./"), "/");
    assert_eq!(format_cwd(&short, "/a/.."), ".");
    assert_eq!(format_cwd(&short, "/a/b/."), "b");
    assert_eq!(format_cwd(&full, "/a/b"), "/a/b");
}

fn env_of(pairs: &[(&str, &str)]) -> Vars {
    let mut env = Vars::new();
    for (k, v) in pairs {
        env.insert(k.to_string(), v.to_string());
    }
    env
}

#[test]
fn test_env_var_not_found() {
    let config = EnvVarConfig { name: "$NONEXISTENT_VAR".to_string(), error: "not_found".to_string() };
    let result = EnvProvider::get_value(&config, &env_of(&[]));
    assert!(result.is_err());
}

#[test]
fn env_var_test_test_section_name() {
    assert_eq!(<EnvProvider as VariableProvider>::section_name(), "env");
}

#[test]
fn env_var_test_test_config_name() {
    let config = EnvVarConfig { name: "$TEST".to_string(), error: String::new() };
    assert_eq!(config.name(), Some("$TEST"));
}

#[test]
fn env_var_test_test_config_error() {
    let config = EnvVarConfig { name: "$TEST".to_string(), error: "test_error".to_string() };
    assert_eq!(config.error(), "test_error");
}

#[test]
fn test_env_var_lookup_with_and_without_dollar() {
    let env = env_of(&[("TEST_VAR", "test_value"), ("EMPTY_VAR", "")]);
    let with = EnvVarConfig { name: "$TEST_VAR".to_string(), error: String::new() };
    let without = EnvVarConfig { name: "TEST_VAR".to_string(), error: String::new() };
    let empty = EnvVarConfig { name: "$EMPTY_VAR".to_string(), error: String::new() };
    assert_eq!(EnvProvider::get_value(&with, &env).ok().unwrap(), "test_value");
    assert_eq!(EnvProvider::get_value(&without, &env).ok().unwrap(), "test_value");
    assert_eq!(EnvProvider::get_value(&empty, &env).ok().unwrap(), "");
    match EnvProvider::get_value(&EnvVarConfig { name: "$NOPE".to_string(), error: String::new() }, &env) {
        Err(e) => assert_eq!(e.to_string(), "Environment variable not found: NOPE"),
        Ok(_) => panic!("expected an error"),
    }
}

#[test]
fn hostname_test_config_default() {
    let config = HostnameConfig::default();
    assert_eq!(config.name, None);
}

#[test]
fn test_config_with_name() {
    let config = HostnameConfig { name: Some("host".to_string()), deferred: false };
    assert_eq!(config.name, Some("host".to_string()));
}

#[test]
fn test_hostname_error_display() {
    let error = HostnameError::Lookup(std::io::Error::new(std::io::ErrorKind::Other, "test error"));
    assert_eq!(error.to_string(), "Failed to get hostname: test error");
}

#[test]
fn test_get_hostname() {
    let config = HostnameConfig { name: None, deferred: false };
    let result = get_hostname(&config);
    assert!(result.is_ok());
}

#[test]
fn hostname_test_deferred_config() {
    let config = HostnameConfig { name: Some("host".to_string()), deferred: true };
    assert!(config.deferred);
    assert_eq!(config.name, Some("host".to_string()));
}

#[test]
fn hostname_test_deferred_default() {
    let config = HostnameConfig::default();
    assert!(!config.deferred, "deferred should be false by default");
}

#[test]
fn ip_test_config_default() {
    let config = IpConfig::default();
    assert_eq!(config.name, None);
    assert_eq!(config.interface, None);
}

#[test]
fn test_config_with_interface() {
    let config = IpConfig { name: Some("local".to_string()), interface: Some("eth0".to_string()) };
    assert_eq!(config.name, Some("local".to_string()));
    assert_eq!(config.interface, Some("eth0".to_string()));
}

#[test]
fn ip_test_error_display() {
    let lookup_error = IpConfigError::Lookup("network error".to_string());
    assert_eq!(lookup_error.to_string(), "Failed to get IP address: network error");
    let interface_error = IpConfigError::InterfaceNotFound("eth99".to_string());
    assert_eq!(interface_error.to_string(), "Interface not found: eth99");
}

#[test]
fn test_find_interface_address() {
    let list = vec![("lo".to_string(), "127.0.0.1".to_string()), ("eth0".to_string(), "10.1.1.1".to_string())];
    assert_eq!(find_interface_address(&list, "eth0").ok(), Some("10.1.1.1".to_string()));
    match find_interface_address(&list, "nonexistent0") {
        Err(IpConfigError::InterfaceNotFound(iface)) => assert_eq!(iface, "nonexistent0"),
        _ => panic!("Expected InterfaceNotFound error"),
    }
}

#[test]
fn power_test_config_default() {
    let config = PowerConfig::default();
    assert_eq!(config.name, None);
    assert_eq!(config.format, "{percentage}% ({status})");
    assert!(!config.deferred);
}

#[test]
fn test_default_time_format() {
    let config = TimeConfig::default();
    assert_eq!(config.format, "%H:%M:%S");
    assert_eq!(config.name, None);
    assert!(!config.deferred);
}

#[test]
fn test_custom_time_format() {
    let config = TimeConfig { format: "%Y-%m-%d %H:%M:%S".to_string(), name: Some("datetime".to_string()), deferred: false };
    assert_eq!(config.format, "%Y-%m-%d %H:%M:%S");
    assert_eq!(config.name, Some("datetime".to_string()));
    assert!(!config.deferred);
}

#[test]
fn test_format_current_time_default() {
    let time = format_current_time("%H:%M:%S").ok().unwrap();
    assert_eq!(time.len(), 8);
    assert!(time.contains(":"));
}

#[test]
fn test_format_current_time_custom() {
    let date = format_current_time("%Y-%m-%d").ok().unwrap();
    assert_eq!(date.len(), 10);
    assert!(date.contains("-"));
}

#[test]
fn test_format_current_time_invalid() {
    assert!(format_current_time("%invalid").is_err());
}

#[test]
fn test_format_current_time_empty() {
    assert_eq!(format_current_time("").ok().unwrap(), "");
}

#[test]
fn test_format_current_time_unicode() {
    let time = format_current_time("时间：%H时%M分%S秒").ok().unwrap();
    assert!(time.starts_with("时间："));
    assert!(time.contains("时"));
    assert!(time.contains("分"));
    assert!(time.contains("秒"));
}

#[test]
fn test_format_current_time_all_specifiers() {
    let format = "%Y-%m-%d %H:%M:%S %Z %z %A %B %a %b %d %w %j %U %W %c %x %X %p %P";
    let output = format_current_time(format).ok().unwrap();
    assert!(!output.contains('%'), "Some format specifiers were not replaced");
}

#[test]
fn test_format_current_time_mixed_valid_invalid() {
    assert!(format_current_time("%H:%M:%S %invalid %Y-%m-%d").is_err());
}

#[test]
fn test_format_current_time_parse_error() {
    assert!(format_current_time("%").is_err());
}

#[test]
fn test_format_current_time_performance() {
    let start = std::time::Instant::now();
    for _ in 0..1000 {
        let _ = format_current_time("%Y-%m-%d %H:%M:%S.%3f");
    }
    assert!(start.elapsed() < Duration::from_secs(1));
}

#[test]
fn test_format_current_time_complex() {
    let format = "Year: %Y\nMonth: %m\nDay: %d\nTime: %H:%M:%S\nTimezone: %Z";
    let output = format_current_time(format).ok().unwrap();
    assert!(output.contains("Year: "));
    assert!(output.contains("Month: "));
    assert!(output.contains("Day: "));
    assert!(output.contains("Time: "));
    assert!(output.contains("Timezone: "));
}

fn color(value: Option<&str>, color: &str) -> ColorCondition {
    ColorCondition { value: value.map(|s| s.to_string()), color: color.to_string() }
}

#[test]
fn test_exact_match() {
    let config = ColorConfig {
        colors: vec![color(Some("skyfall"), "blue"), color(Some("nomad"), "green"), color(None, "white")],
    };
    assert_eq!(config.get_color_for_value("skyfall"), Some("blue"));
    assert_eq!(config.get_color_for_value("nomad"), Some("green"));
    assert_eq!(config.get_color_for_value("unknown"), Some("white"));
}

#[test]
fn test_pattern_match() {
    let config = ColorConfig {
        colors: vec![color(Some("dev-*"), "yellow"), color(Some("prod-*"), "red"), color(None, "white")],
    };
    assert_eq!(config.get_color_for_value("dev-1"), Some("yellow"));
    assert_eq!(config.get_color_for_value("prod-main"), Some("red"));
    assert_eq!(config.get_color_for_value("staging"), Some("white"));
}

#[test]
fn test_no_conditions() {
    let config = ColorConfig::default();
    assert_eq!(config.get_color_for_value("anything"), None);
}

fn timing(fetch: u64, format: u64, counts: [usize; 4], times: [u64; 4]) -> TimingData {
    TimingData {
        fetch_time: Duration::from_millis(fetch),
        format_time: Duration::from_millis(format),
        fetch_count: counts[0],
        skip_count: counts[1],
        cached_count: counts[2],
        deferred_count: counts[3],
        cached_time: Duration::from_millis(times[0]),
        live_time: Duration::from_millis(times[1]),
        skip_time: Duration::from_millis(times[2]),
        deferred_time: Duration::from_millis(times[3]),
    }
}

#[test]
fn test_timing_data_source_tracking() {
    let timing = timing(100, 50, [2, 1, 1, 0], [0, 0, 0, 0]);
    assert_eq!(timing.fetch_count - timing.cached_count, 1);
    assert_eq!(timing.cached_count, 1);
    assert_eq!(timing.skip_count, 1);
}

#[test]
fn test_timing_data_deferred() {
    let timing = timing(100, 50, [2, 1, 1, 3], [0, 0, 0, 0]);
    assert_eq!(timing.deferred_count, 3, "Should track deferred count");
}

#[test]
fn test_timing_data_accumulation_with_deferred() {
    let mut timing1 = timing(100, 50, [2, 1, 1, 2], [0, 0, 0, 0]);
    let timing2 = timing(200, 75, [3, 2, 2, 3], [0, 0, 0, 0]);
    timing1.fetch_time += timing2.fetch_time;
    timing1.format_time += timing2.format_time;
    timing1.fetch_count += timing2.fetch_count;
    timing1.cached_count += timing2.cached_count;
    timing1.skip_count += timing2.skip_count;
    timing1.deferred_count += timing2.deferred_count;
    assert_eq!(timing1.deferred_count, 5, "Should accumulate deferred count");
}

#[test]
fn test_timing_data_edge_cases() {
    let t = timing(100, 50, [1000, 0, 1, 0], [0, 0, 0, 0]);
    assert_eq!(t.fetch_count - t.cached_count, 999, "Should handle large fetch counts");
    assert_eq!(t.cached_count, 1, "Should preserve small cache count");

    let t = timing(100, 50, [1000, 0, 1000, 0], [0, 0, 0, 0]);
    assert_eq!(t.fetch_count, t.cached_count, "Should handle equal high counts");
    assert_eq!(t.fetch_count - t.cached_count, 0, "Should show no live fetches");

    let mut t = timing(0, 0, [0, 1000, 0, 0], [0, 0, 0, 0]);
    t.skip_time = Duration::from_secs(1000);
    assert_eq!(t.skip_count, 1000, "Should handle high skip counts");
    assert_eq!(t.fetch_count, 0, "Should have no fetches with high skip count");

    let mut t = timing(100, 50, [1000, 2000, 500, 0], [0, 0, 0, 0]);
    t.skip_time = Duration::from_secs(2000);
    assert_eq!(t.fetch_count - t.cached_count, 500, "Should handle mixed high counts");
    assert_eq!(t.skip_count, 2000, "Should preserve high skip count");
}

#[test]
fn test_timing_data_complex_scenarios() {
    let mut total = timing(0, 0, [0, 0, 0, 0], [0, 0, 0, 0]);
    total.fetch_count += 3;
    total.cached_count += 3;
    assert_eq!(total.fetch_count, total.cached_count, "Should be all cached initially");
    total.fetch_count += 2;
    assert_eq!(total.fetch_count - total.cached_count, 2, "Should show correct live count after adding live data");
    total.skip_count += 4;
    assert_eq!(total.skip_count, 4, "Should track skipped count independently");

    let mut timing1 = timing(100, 50, [2, 1, 1, 0], [0, 0, 0, 0]);
    let timing2 = timing(200, 75, [3, 2, 2, 3], [0, 0, 0, 0]);
    timing1.fetch_time += timing2.fetch_time;
    timing1.format_time += timing2.format_time;
    timing1.fetch_count += timing2.fetch_count;
    timing1.cached_count += timing2.cached_count;
    timing1.skip_count += timing2.skip_count;
    timing1.deferred_count += timing2.deferred_count;
    assert_eq!(timing1.fetch_time, Duration::from_millis(300), "Should accumulate fetch time");
    assert_eq!(timing1.format_time, Duration::from_millis(125), "Should accumulate format time");
    assert_eq!(timing1.fetch_count, 5, "Should accumulate fetch count");
    assert_eq!(timing1.cached_count, 3, "Should accumulate cached count");
    assert_eq!(timing1.skip_count, 3, "Should accumulate skip count");
}

#[test]
fn test_timing_data_boundary_conditions() {
    let t = timing(0, 0, [5, 2, 3, 0], [0, 0, 0, 0]);
    assert_eq!(t.fetch_time.as_nanos(), 0, "Should handle zero fetch time");
    assert_eq!(t.format_time.as_nanos(), 0, "Should handle zero format time");
    assert_eq!(t.fetch_count - t.cached_count, 2, "Should track counts with zero time");

    let mut t = timing(0, 0, [0, 0, 0, 0], [0, 0, 0, 0]);
    t.fetch_time = Duration::from_secs(u64::MAX);
    t.format_time = Duration::from_secs(u64::MAX);
    assert_eq!(t.fetch_time.as_secs(), u64::MAX, "Should handle max fetch time");
    assert_eq!(t.format_time.as_secs(), u64::MAX, "Should handle max format time");
    assert_eq!(t.fetch_count, 0, "Should handle zero counts with max time");

    let mut t = timing(0, 0, [1, 1, 1, 0], [0, 0, 0, 0]);
    t.fetch_time = Duration::from_nanos(1);
    t.format_time = Duration::from_nanos(1);
    assert_eq!(t.fetch_time.as_nanos(), 1, "Should handle minimum fetch time");
    assert_eq!(t.format_time.as_nanos(), 1, "Should handle minimum format time");
    assert_eq!(t.fetch_count, t.cached_count, "Should handle minimum counts");
}

fn totals(task_timings: &[(&str, TimingData)]) -> (usize, usize, usize, usize, [Duration; 4]) {
    let mut total_cached = 0;
    let mut total_live = 0;
    let mut total_skipped = 0;
    let mut total_deferred = 0;
    let mut times = [Duration::default(); 4];
    for (_, t) in task_timings {
        total_cached += t.cached_count;
        total_live += t.fetch_count - t.cached_count;
        total_skipped += t.skip_count;
        total_deferred += t.deferred_count;
        times[0] += t.cached_time;
        times[1] += t.live_time;
        times[2] += t.skip_time;
        times[3] += t.deferred_time;
    }
    (total_cached, total_live, total_skipped, total_deferred, times)
}

#[test]
fn test_timing_totals_not_doubled() {
    let task_timings = vec![
        ("Task1", timing(100, 50, [2, 1, 1, 2], [50, 50, 10, 20])),
        ("Task2", timing(200, 75, [3, 2, 2, 3], [100, 100, 20, 30])),
    ];
    let (cached, live, skipped, deferred, times) = totals(&task_timings);
    assert_eq!(cached, 3, "Total cached count should be 3");
    assert_eq!(live, 2, "Total live count should be 2");
    assert_eq!(skipped, 3, "Total skipped count should be 3");
    assert_eq!(deferred, 5, "Total deferred count should be 5");
    assert_eq!(times[0], Duration::from_millis(150), "Total cached time should be 150ms");
    assert_eq!(times[1], Duration::from_millis(150), "Total live time should be 150ms");
    assert_eq!(times[2], Duration::from_millis(30), "Total skip time should be 30ms");
    assert_eq!(times[3], Duration::from_millis(50), "Total deferred time should be 50ms");
}

#[test]
fn test_timing_report_generation() {
    let mut task_timings = vec![
        ("Task1", timing(100, 50, [2, 1, 1, 2], [50, 50, 10, 20])),
        ("Task2", timing(200, 75, [3, 2, 2, 3], [100, 100, 20, 30])),
    ];
    task_timings.sort_by(|(_, a), (_, b)| {
        let a_total = a.fetch_time + a.format_time;
        let b_total = b.fetch_time + b.format_time;
        b_total.cmp(&a_total)
    });
    let (cached, live, skipped, deferred, times) = totals(&task_timings);
    let mut output = String::new();
    for (name, t) in &task_timings {
        output.push_str(&format!("Task: {}, Total time: {:?}\n", name, t.fetch_time + t.format_time));
    }
    assert_eq!(cached, 3, "Total cached count should be 3");
    assert_eq!(live, 2, "Total live count should be 2");
    assert_eq!(skipped, 3, "Total skipped count should be 3");
    assert_eq!(deferred, 5, "Total deferred count should be 5");
    assert_eq!(times[0], Duration::from_millis(150), "Total cached time should be 150ms");
    assert_eq!(times[1], Duration::from_millis(150), "Total live time should be 150ms");
    assert_eq!(times[2], Duration::from_millis(30), "Total skip time should be 30ms");
    assert_eq!(times[3], Duration::from_millis(50), "Total deferred time should be 50ms");
    assert!(output.find("Task2").unwrap() < output.find("Task1").unwrap(), "Tasks should be sorted by total time (Task2 first)");
}

#[test]
fn test_variable_helpers() {
    assert!(format_uses_variable("a {git} b", "git"));
    assert!(format_uses_variable("{git:red}", "git"));
    assert!(!format_uses_variable("{gitx}", "git"));
    assert!(uses_prefix("{gitx}", "git"));
    let config = EnvVarConfig { name: "HOME".to_string(), error: String::new() };
    assert_eq!(get_var_name(&config, "env", 3), "HOME");
    let git = twig::git::Config::default();
    assert_eq!(get_var_name(&git, "git", 0), "git");
    assert_eq!(get_var_name(&git, "git", 1), "git_2");
    let mut vars = Vars::new();
    vars.insert("a".to_string(), "1".to_string());
    assert_eq!(replace_variables("x{a}y{b}", &vars), "x1y{b}");
    assert_eq!(replace_variables("{a:red}", &vars), "\x1b[31m1\x1b[0m");
}

#[test]
fn test_daemon_helpers() {
    assert_eq!(daemon_frequency(0), 1);
    assert_eq!(daemon_frequency(7), 7);
    assert_eq!(get_env_vars_from_format("{$USER}@{$HOST:red} {time} {$} {$OPEN"), vec!["USER", "HOST"]);
    assert_eq!(format_duration_units(0).as_deref(), Some("0ns"));
    assert_eq!(format_duration_units(999).as_deref(), Some("999ns"));
    assert_eq!(format_duration_units(1500).as_deref(), Some("1µs"));
    assert_eq!(format_duration_units(2_500_000).as_deref(), Some("2ms"));
    assert_eq!(format_duration_units(1_000_000_000), None);
    let names = vec![Some("a".to_string()), None];
    match validate_section_names(&names, "time") {
        Err(e @ ConfigError::MissingName(_)) => {
            assert_eq!(e.to_string(), "Multiple time sections found but not all have 'name' parameter")
        }
        _ => panic!("expected a missing name"),
    }
    assert!(validate_section_names(&[None], "time").is_ok());
}

#[test]
fn test_git_indicators() {
    assert_eq!(get_changes_indicator(0, 0), "");
    assert_eq!(get_changes_indicator(2, 1), " *+2");
    assert_eq!(get_changes_indicator(0, 3), " *");
    assert_eq!(get_remote_status(true, 2, 0), " ↑2");
    assert_eq!(get_remote_status(true, 0, 3), " ↓3");
    assert_eq!(get_remote_status(true, 2, 3), " ↕2,3");
    assert_eq!(get_remote_status(false, 2, 3), "");
    assert_eq!(get_stash_indicator(2), " $2");
    assert_eq!(count_lines("a\nb\n"), 2);
    assert_eq!(parse_count("12").ok(), Some(12));
    match parse_count("1x") {
        Err(GitError::ParseError(m)) => assert_eq!(m, "invalid digit found in string"),
        _ => panic!("expected a parse error"),
    }
    match parse_count("") {
        Err(GitError::ParseError(m)) => assert_eq!(m, "cannot parse integer from empty string"),
        _ => panic!("expected a parse error"),
    }
    assert_eq!(get_repo_state(&[false, true, true, false, false]), "REBASING");
    assert_eq!(get_repo_state(&[false, false]), "");
}

#[test]
fn test_small_defaults_and_helpers() {
    assert_eq!(twig::daemon::default_stale_after(), 5);
    assert_eq!(twig::daemon::default_daemon_frequency(), 1);
    assert_eq!(twig::daemon::default_format(), "{time}");
    assert_eq!(twig::git::default_error(), "");
    assert_eq!(twig::git::default_format(), "{git_branch}{git_state}{git_changes}{git_remote}{git_stash}");
    assert!(twig::git::has_untracked("new.txt\n"));
    assert!(!twig::git::has_untracked(""));
    let mut vars = Vars::new();
    vars.insert("k".to_string(), "v".to_string());
    assert!(vars.contains_key("k"));
    assert!(!vars.contains_key("x"));
    vars.insert("k".to_string(), "w".to_string());
    assert_eq!(vars.get("k").map(|s| s.as_str()), Some("w"));
}

#[test]
fn test_format_current_time_checked() {
    assert!(matches!(twig::time::format_current_time_checked("%Q"), Some(Err(_))));
    assert!(twig::time::format_current_time_checked("%5f").is_none());
    assert_eq!(twig::time::format_current_time_checked("").unwrap().ok().unwrap(), "");
}

#[test]
fn test_process_section_and_needed_variables() {
    let env = env_of(&[("A", "1")]);
    let configs = vec![
        EnvVarConfig { name: "A".to_string(), error: "no".to_string() },
        EnvVarConfig { name: "B".to_string(), error: "no b".to_string() },
        EnvVarConfig { name: "C".to_string(), error: "no c".to_string() },
    ];
    let result = process_section::<EnvProvider>(&configs, "{A} {B:red}", false, &env);
    assert_eq!(result.variables, vec![("A".to_string(), "1".to_string()), ("B".to_string(), "no b".to_string())]);
    let none = process_section::<EnvProvider>(&configs, "no braces", true, &env);
    assert!(none.variables.is_empty());
    let needed = <EnvProvider as LazyVariables>::get_needed_variables("{A}", &env).ok().unwrap();
    assert!(needed.entries.is_empty());
}

#[test]
fn test_decimal_round_trip() {
    for n in [0u64, 7, 10, 99, 1234567890, u64::MAX] {
        assert_eq!(twig::numbers::parse_u64(&twig::numbers::u64_to_string(n)), Some(n));
    }
    assert_eq!(twig::numbers::parse_u32("4294967295"), Some(u32::MAX));
    assert_eq!(twig::numbers::parse_u32("4294967296"), None);
    assert_eq!(twig::numbers::parse_u64("+5"), Some(5));
    assert_eq!(twig::numbers::parse_u64("-5"), None);
    assert_eq!(twig::numbers::parse_u64("18446744073709551616"), None);
}

#[test]
fn test_timing_report_labels() {
    assert_eq!(twig::daemon::daemon_status_text(3, 2), "active (3 sec ago)");
    assert_eq!(twig::daemon::daemon_status_text(5, 2), "inactive (5 sec ago)");
    let t = timing(1, 1, [3, 2, 3, 1], [0, 0, 0, 0]);
    assert_eq!(t.source_type(), "[cache]");
    assert_eq!(t.stats(), vec!["cached:3", "skip:2", "deferred:1"]);
    let t = timing(1, 1, [3, 0, 1, 0], [0, 0, 0, 0]);
    assert_eq!(t.source_type(), "[live]");
    assert_eq!(t.stats(), vec!["cached:1", "live:2"]);
    let t = timing(0, 0, [0, 4, 0, 0], [0, 0, 0, 0]);
    assert_eq!(t.source_type(), "[skip]");
    assert_eq!(t.stats(), vec!["skip:4"]);
}

fn stamp(secs: i64, nanos: u32) -> twig::daemon::UtcStamp {
    twig::daemon::UtcStamp { secs, nanos }
}

fn request(section: &str, from: i64, until: i64) -> twig::daemon::DeferredRequest {
    twig::daemon::DeferredRequest {
        request_dt: stamp(from, 0),
        expires_dt: stamp(until, 0),
        section_name: section.to_string(),
    }
}

#[test]
fn test_is_section_requested_window() {
    let requests = Some(twig::daemon::DeferredRequests { requests: vec![request("ip", 100, 200), request("power", 0, 50)] });
    assert!(twig::daemon::is_section_requested("ip", &requests, stamp(100, 0)));
    assert!(twig::daemon::is_section_requested("ip", &requests, stamp(199, 999_999_999)));
    assert!(!twig::daemon::is_section_requested("ip", &requests, stamp(200, 0)));
    assert!(!twig::daemon::is_section_requested("ip", &requests, stamp(99, 999_999_999)));
    assert!(!twig::daemon::is_section_requested("power", &requests, stamp(60, 0)));
    assert!(!twig::daemon::is_section_requested("time", &requests, stamp(150, 0)));
    assert!(!twig::daemon::is_section_requested("ip", &None, stamp(150, 0)));
}

#[test]
fn test_cached_data_fresh() {
    assert!(twig::daemon::cached_data_fresh(Some(100), 104, 5));
    assert!(!twig::daemon::cached_data_fresh(Some(100), 105, 5));
    assert!(!twig::daemon::cached_data_fresh(None, 105, 5));
    assert!(twig::daemon::cached_data_fresh(Some(7), 7, 1));
}

#[test]
fn test_deferred_section_count_and_notice() {
    assert_eq!(twig::daemon::deferred_section_count(&[]), 0);
    assert_eq!(twig::daemon::deferred_section_count(&[true, false, true, true]), 3);
    assert_eq!(twig::daemon::update_notice(1), "Daemon will update data every 1 second");
    assert_eq!(twig::daemon::update_notice(5), "Daemon will update data every 5 seconds");
}

#[test]
fn test_entry_action() {
    assert_eq!(twig::daemon::entry_action("{time} {ip}", "host", false, false), twig::daemon::EntryAction::Skip);
    assert_eq!(twig::daemon::entry_action("{time} {ip:green}", "ip", true, false), twig::daemon::EntryAction::Defer);
    assert_eq!(twig::daemon::entry_action("{time} {ip}", "ip", true, true), twig::daemon::EntryAction::Fetch);
    assert_eq!(twig::daemon::entry_action("{time}", "time", false, false), twig::daemon::EntryAction::Fetch);
}

#[test]
fn test_get_host_info_asks_only_for_what_is_used() {
    let info = twig::host::get_host_info("plain {cwd}").ok().unwrap();
    assert!(info.hostname.is_none());
    assert!(info.ip.is_none());
    match twig::host::get_host_info("{hostname}") {
        Ok(info) => {
            assert!(info.hostname.is_some());
            assert!(info.ip.is_none());
        }
        Err(e) => assert!(e.to_string().starts_with("Failed to get hostname: ")),
    }
    match twig::host::get_host_info("{ip}") {
        Ok(info) => {
            assert!(info.hostname.is_none());
            assert!(info.ip.is_some());
        }
        Err(e) => assert!(e.to_string().starts_with("Failed to get IP address: ")),
    }
}

#[test]
fn test_power_error_messages() {
    assert_eq!(twig::power::PowerError::NoBattery.to_string(), "No battery found");
    let io = twig::power::PowerError::IoError(std::io::Error::new(std::io::ErrorKind::Other, "boom"));
    assert_eq!(io.to_string(), "IO error: boom");
}

#[test]
fn test_debug_variable_usage_notes() {
    assert_eq!(twig::variable::debug_variable_usage("{time}", "time", "time", false), None);
    assert_eq!(
        twig::variable::debug_variable_usage("{time:cyan}", "time", "time", true),
        Some("Debug: Will process time section for variable 'time'".to_string())
    );
    assert_eq!(
        twig::variable::debug_variable_usage("{cwd}", "time", "time", true),
        Some("Debug: Skipping time section - variable 'time' not used".to_string())
    );
}

#[test]
fn test_daemon_config_default() {
    let c = <twig::daemon::DaemonConfig as Default>::default();
    assert_eq!(c.frequency, 1);
    assert_eq!(c.stale_after, 5);
    assert_eq!(c.data_file, "data.json");
}

fn section(updated_at: Option<u64>, usable: bool) -> Option<twig::daemon::CachedSection> {
    Some(twig::daemon::CachedSection { updated_at, usable })
}

#[test]
fn test_plan_section_actions() {
    assert_eq!(twig::daemon::plan_section(twig::daemon::SectionKind::Hostname, false, true, false, section(Some(100), true), 101, 5), twig::daemon::SectionAction::Skip);
    assert_eq!(twig::daemon::plan_section(twig::daemon::SectionKind::Hostname, true, true, false, section(Some(100), true), 101, 5), twig::daemon::SectionAction::Defer);
    assert_eq!(twig::daemon::plan_section(twig::daemon::SectionKind::Hostname, true, true, true, section(Some(100), true), 101, 5), twig::daemon::SectionAction::UseCache);
    assert_eq!(twig::daemon::plan_section(twig::daemon::SectionKind::Ip, true, false, false, section(Some(100), true), 105, 5), twig::daemon::SectionAction::FetchLive);
    assert_eq!(twig::daemon::plan_section(twig::daemon::SectionKind::Power, true, false, false, section(Some(100), false), 101, 5), twig::daemon::SectionAction::FetchLive);
    assert_eq!(twig::daemon::plan_section(twig::daemon::SectionKind::Hostname, true, false, false, section(None, true), 101, 5), twig::daemon::SectionAction::FetchLive);
    assert_eq!(twig::daemon::plan_section(twig::daemon::SectionKind::Hostname, true, false, false, None, 101, 5), twig::daemon::SectionAction::FetchLive);
    assert_eq!(twig::daemon::plan_section(twig::daemon::SectionKind::Time, true, false, false, section(Some(100), true), 101, 5), twig::daemon::SectionAction::FetchLive);
}

fn empty_timing() -> twig::daemon::TimingData {
    twig::daemon::TimingData {
        fetch_time: Duration::default(),
        format_time: Duration::default(),
        fetch_count: 0,
        skip_count: 0,
        cached_count: 0,
        deferred_count: 0,
        cached_time: Duration::default(),
        live_time: Duration::default(),
        skip_time: Duration::default(),
        deferred_time: Duration::default(),
    }
}

#[test]
fn test_record_counts() {
    let mut t = empty_timing();
    twig::daemon::record(&mut t, twig::daemon::SectionKind::Time, twig::daemon::SectionAction::Skip);
    twig::daemon::record(&mut t, twig::daemon::SectionKind::Time, twig::daemon::SectionAction::Defer);
    twig::daemon::record(&mut t, twig::daemon::SectionKind::Time, twig::daemon::SectionAction::FetchLive);
    twig::daemon::record(&mut t, twig::daemon::SectionKind::Time, twig::daemon::SectionAction::FetchLive);
    assert_eq!((t.skip_count, t.deferred_count, t.fetch_count, t.cached_count), (2, 1, 2, 0));
    let mut h = empty_timing();
    twig::daemon::record(&mut h, twig::daemon::SectionKind::Hostname, twig::daemon::SectionAction::UseCache);
    assert_eq!((h.fetch_count, h.cached_count), (1, 1));
    let mut i = empty_timing();
    twig::daemon::record(&mut i, twig::daemon::SectionKind::Ip, twig::daemon::SectionAction::FetchLive);
    twig::daemon::record(&mut i, twig::daemon::SectionKind::Ip, twig::daemon::SectionAction::FetchLive);
    assert_eq!((i.fetch_count, i.cached_count), (1, 0));
}

#[test]
fn test_cached_data_reading() {
    let text = r#"{"updated_at":{"secs_since_epoch":100,"nanos_since_epoch":5},"hostname":"box","ip":7,"power":{"percentage":50}}"#;
    let d = twig::daemon::cached_data(text).unwrap();
    assert_eq!(d.updated_at, Some(100));
    assert_eq!(d.hostname.as_deref(), Some("box"));
    assert_eq!(d.ip, None);
    assert_eq!(d.power.as_deref(), Some(r#"{"percentage":50}"#));
    assert!(twig::daemon::cached_data("not json").is_none());
    let fresh = twig::daemon::load_cached(text, 104, 5).unwrap();
    assert!(fresh.is_some());
    assert!(twig::daemon::load_cached(text, 105, 5).unwrap().is_none());
    assert!(twig::daemon::load_cached(text, 99, 5).is_none());
    assert!(twig::daemon::load_cached("{}", 99, 5).unwrap().is_none());
}

#[test]
fn test_get_cwd_paths() {
    let short = CwdConfig { name: None, shorten: true, deferred: false };
    let full = CwdConfig { name: None, shorten: false, deferred: false };
    let utf8 = || Ok(twig::cwd::CwdPath { text: Some("/tmp/test_dir".to_string()), last: Some("test_dir".to_string()), debug: "\"/tmp/test_dir\"".to_string() });
    assert_eq!(twig::cwd::get_cwd(&short, utf8()).ok().unwrap(), "test_dir");
    assert_eq!(twig::cwd::get_cwd(&full, utf8()).ok().unwrap(), "/tmp/test_dir");
    let root = Ok(twig::cwd::CwdPath { text: Some("/".to_string()), last: None, debug: "\"/\"".to_string() });
    assert_eq!(twig::cwd::get_cwd(&short, root).ok().unwrap(), "/");
    let bad = || Ok(twig::cwd::CwdPath { text: None, last: None, debug: "\"/tmp/\\xFF\"".to_string() });
    assert_eq!(twig::cwd::get_cwd(&short, bad()).ok().unwrap(), ".");
    match twig::cwd::get_cwd(&full, bad()) {
        Err(e @ twig::cwd::CwdError::ToString(_)) => assert_eq!(e.to_string(), "Invalid characters in path: \"/tmp/\\xFF\""),
        _ => panic!("expected a path error"),
    }
    let gone = Err(std::io::Error::new(std::io::ErrorKind::NotFound, "gone"));
    assert_eq!(twig::cwd::get_cwd(&full, gone).err().unwrap().to_string(), "Failed to get current directory: gone");
}

#[test]
fn test_cache_freshness_limit() {
    assert!(twig::cache::within_limit(Some(29), 30));
    assert!(!twig::cache::within_limit(Some(30), 30));
    assert!(!twig::cache::within_limit(None, 30));
    let entry = twig::cache::CacheEntry::new("host".to_string());
    assert_eq!(entry.fresh_data(30).map(|s| s.as_str()), Some("host"));
    assert_eq!(entry.fresh_data(0), None);
}
