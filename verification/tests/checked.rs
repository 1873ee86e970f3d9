use twig::daemon::daemon_status_report;
use twig::template::{format_template, format_template_checked, TemplateError};
use twig::time::format_current_time;

#[test]
fn test_format_template_checked_agrees_with_format_template() {
    let cases: Vec<(&str, Vec<(&str, &str)>, Option<&str>)> = vec![
        ("{a} and {b}", vec![("a", "1"), ("b", "2")], None),
        ("{a:red} {b:green,bold}", vec![("a", "x"), ("b", "y")], None),
        ("line {a}\nnext {a:blue}", vec![("a", "v")], None),
        ("{a:red}>", vec![("a", "v")], Some("tcsh")),
        ("{a:red} {a}", vec![("a", "v")], Some("zsh")),
    ];
    for (template, vars, mode) in cases {
        let plain = format_template(template, &vars, false, mode).ok().unwrap();
        let checked = format_template_checked(template, &vars, false, mode).unwrap().ok().unwrap();
        assert_eq!(plain, checked, "template {:?}", template);
    }
}

#[test]
fn test_format_template_checked_exact_output() {
    let vars = vec![("user", "me"), ("host", "box")];
    let out = format_template_checked("{user}@{host}", &vars, false, None).unwrap().ok().unwrap();
    assert_eq!(out, "me@box");
}

#[test]
fn test_format_template_checked_unclosed() {
    let r = format_template_checked("{oops", &[("a", "1")], false, None).unwrap();
    match r {
        Err(TemplateError::InvalidSyntax(m)) => assert_eq!(m, "Unclosed variable"),
        Ok(o) => panic!("unexpected output {:?}", o),
    }
}

#[test]
fn test_format_template_checked_value_holding_its_own_placeholder() {
    assert!(format_template_checked("{a}", &[("a", "{a}")], false, None).is_none());
    assert!(format_template_checked("x {a} y", &[("a", "<{a}>")], false, Some("tcsh")).is_none());
}

#[test]
fn test_format_template_checked_colored_opening_without_close() {
    // The first variable's coloured pass consumes the only `}` that follows `{b:`.
    let vars = vec![("a", "x"), ("b", "y")];
    assert!(format_template_checked("{b:{a:red}", &vars, false, None).is_none());
}

#[test]
fn test_daemon_status_report_cases() {
    assert_eq!(daemon_status_report(None, 10, 5), "not running");
    assert_eq!(daemon_status_report(Some("not json"), 10, 5), "unknown (bad data)");
    assert_eq!(daemon_status_report(Some("{}"), 10, 5), "unknown (no timestamp)");
    assert_eq!(
        daemon_status_report(Some(r#"{"updated_at":{"secs_since_epoch":100}}"#), 110, 5),
        "unknown (bad timestamp)"
    );
    let data = r#"{"updated_at":{"secs_since_epoch":100,"nanos_since_epoch":7}}"#;
    assert_eq!(daemon_status_report(Some(data), 104, 5), "active (4 sec ago)");
    assert_eq!(daemon_status_report(Some(data), 110, 5), "active (10 sec ago)");
    assert_eq!(daemon_status_report(Some(data), 111, 5), "inactive (11 sec ago)");
    assert_eq!(daemon_status_report(Some(data), 90, 5), "active (0 sec ago)");
}

#[test]
fn test_format_current_time_writes_digits() {
    let year = format_current_time("%Y").ok().unwrap();
    assert_eq!(year.len(), 4);
    assert!(year.chars().all(|c| c.is_ascii_digit()));
    let stamp = format_current_time("[%H|%M]").ok().unwrap();
    assert_eq!(stamp.len(), 7);
    assert!(stamp.starts_with('[') && stamp.ends_with(']'));
    assert_ne!(stamp, "[%H|%M]");
}
