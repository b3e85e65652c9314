use ccplan::format::{
    applescript_string, launchd_label, quote_windows_arg, systemd_unit_name, vbscript_string,
    windows_task_name, xml_escape,
};
use ccplan::listing::{parse_task_names, parse_timer_units};
use ccplan::time::{calendar_interval, systemd_calendar, windows_boundary, Instant};
use jiff::tz::TimeZone;

fn at(instant: &str) -> Instant {
    let timestamp = instant.parse::<jiff::Timestamp>().unwrap();
    Instant::new(timestamp.as_second(), timestamp.subsec_nanosecond()).unwrap()
}

#[test]
fn systemd_calendar_renders_utc() {
    assert_eq!(
        systemd_calendar(&at("2026-06-08T05:30:00Z")),
        "2026-06-08 05:30:00 UTC"
    );
    assert_eq!(systemd_unit_name("abc-0-start"), "ccplan-abc-0-start");
}

#[test]
fn parse_timer_units_extracts_sorts_and_dedups() {
    let output = "\
NEXT LEFT LAST PASSED UNIT ACTIVATES
Sun n/a n/a n/a ccplan-b.timer ccplan-b.service
Mon n/a n/a n/a ccplan-a.timer ccplan-a.service
Tue n/a n/a n/a ccplan-a.timer ccplan-a.service
Wed n/a n/a n/a other.timer other.service
";
    assert_eq!(
        parse_timer_units(output),
        vec!["a".to_owned(), "b".to_owned()]
    );
    assert!(parse_timer_units("no units here").is_empty());
}

#[test]
fn windows_boundary_and_task_name() {
    assert_eq!(
        windows_boundary(&at("2026-06-08T05:30:00Z"), &TimeZone::UTC),
        "2026-06-08T05:30:00"
    );
    assert_eq!(windows_task_name("focus-0"), "\\ccplan\\focus-0");
}

#[test]
fn parse_task_names_extracts_and_sorts() {
    let output = "\
Folder: \\ccplan
TaskName: \\ccplan\\zeta
TaskName: \\ccplan\\alpha
TaskName: \\other\\ignored
HostName: PC
";
    assert_eq!(
        parse_task_names(output),
        vec!["alpha".to_owned(), "zeta".to_owned()]
    );
}

#[test]
fn quote_windows_arg_covers_plain_space_quote_and_empty() {
    assert_eq!(quote_windows_arg("plain"), "plain");
    assert_eq!(quote_windows_arg("has space"), "\"has space\"");
    assert_eq!(quote_windows_arg("a\"b"), "\"a\\\"b\"");
    assert_eq!(quote_windows_arg(""), "\"\"");
}

#[test]
fn xml_escape_escapes_all_five_entities() {
    assert_eq!(
        xml_escape("a&b<c>d\"e'f"),
        "a&amp;b&lt;c&gt;d&quot;e&apos;f"
    );
}

#[test]
fn launchd_label_and_calendar_interval() {
    assert_eq!(launchd_label("focus-0"), "io.ccplan.focus-0");
    let interval = calendar_interval(&at("2026-06-08T05:30:45Z"), &TimeZone::UTC);
    assert_eq!(
        (
            interval.month,
            interval.day,
            interval.hour,
            interval.minute,
            interval.second
        ),
        (6, 8, 5, 30, 45)
    );
}

#[test]
fn notifier_string_quoters_escape_their_metacharacters() {
    assert_eq!(applescript_string("a\\b\"c"), "\"a\\\\b\\\"c\"");
    assert_eq!(vbscript_string("say \"hi\""), "\"say \"\"hi\"\"\"");
}
