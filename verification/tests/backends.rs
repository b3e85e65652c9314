use ccplan::doctor::CheckLevel;
use ccplan::format::{quote_windows_arg, systemd_unit_name, windows_task_name, xml_escape};
use ccplan::listing::{parse_task_names, parse_timer_units};
use ccplan::notify::{macos, other, unix, windows};
use ccplan::notify::{command_success, doctor_check as notifier_doctor_check, failed, Notification, NotifyError};
use ccplan::output::{output_summary, CommandOutput};
use ccplan::schtasks::{
    command_error, doctor_check as scheduler_doctor_check, ensure_success, fire_binary, io_error,
    is_missing_task, list_outcome, remove_outcome, task_xml, task_xml_document,
    temp_xml_file_name, windows_command_line, xml_utf8_bom, QueryProbe, SchedulerError,
};
use ccplan::time::{
    calendar_interval_at_offset, instant_plus_seconds, systemd_calendar, windows_boundary,
    windows_boundary_at_offset, Instant, MAX_UNIX_SECOND, MIN_UNIX_SECOND,
};
use jiff::tz::{Offset, TimeZone};

fn at(instant: &str) -> Instant {
    let timestamp = instant.parse::<jiff::Timestamp>().unwrap();
    Instant::new(timestamp.as_second(), timestamp.subsec_nanosecond()).unwrap()
}

fn output(success: bool, status: &str, stdout: &str, stderr: &str) -> CommandOutput {
    CommandOutput {
        success,
        status: status.to_owned(),
        stdout: stdout.to_owned(),
        stderr: stderr.to_owned(),
    }
}

fn operation(error: SchedulerError) -> String {
    match error {
        SchedulerError::Operation(message) => message,
    }
}

fn notify_operation(error: NotifyError) -> String {
    match error {
        NotifyError::Operation(message) => message,
        NotifyError::Unavailable => panic!("expected an operation error"),
    }
}

#[test]
fn timer_fields_split_on_any_unicode_whitespace() {
    let output = "ccplan-x.timer\tccplan-y.timer\r\nccplan-z.timer\u{a0}ccplan-w.timer\u{3000}x";
    assert_eq!(
        parse_timer_units(output),
        vec!["w".to_owned(), "x".to_owned(), "y".to_owned(), "z".to_owned()]
    );
}

#[test]
fn timer_fields_need_both_prefix_and_suffix() {
    let output = "ccplan-a.service xccplan-b.timer ccplan-.timer ccplan-c.timerx ccplan-timer";
    assert_eq!(parse_timer_units(output), vec!["".to_owned()]);
}

#[test]
fn timer_ids_sort_by_code_point() {
    let output = "ccplan-a.timer ccplan-B.timer ccplan-\u{e9}.timer ccplan-ab.timer ccplan-a.timer";
    assert_eq!(
        parse_timer_units(output),
        vec!["B".to_owned(), "a".to_owned(), "ab".to_owned(), "\u{e9}".to_owned()]
    );
}

#[test]
fn task_names_keep_duplicates_and_handle_crlf_and_indentation() {
    let output = "TaskName:   \\ccplan\\b  \r\n  TaskName:\\ccplan\\a\r\nTaskName: \\ccplan\\b\nTaskName: \\ccplanx\\c\nTaskname: \\ccplan\\d";
    assert_eq!(
        parse_task_names(output),
        vec!["a".to_owned(), "b".to_owned(), "b".to_owned()]
    );
    assert!(parse_task_names("").is_empty());
}

#[test]
fn a_listed_unit_is_found_by_its_id() {
    let id = "2026-06-08-4f2a-3c-start";
    let listing = format!("Mon n/a {}.timer {}.service\n", systemd_unit_name(id), systemd_unit_name(id));
    assert_eq!(parse_timer_units(&listing), vec![id.to_owned()]);
}

#[test]
fn a_listed_task_is_found_by_its_id() {
    let id = "2026-06-08-4f2a-3c-notify";
    let listing = format!("Folder: \\ccplan\nTaskName: {}\nStatus: Ready\n", windows_task_name(id));
    assert_eq!(parse_task_names(&listing), vec![id.to_owned()]);
}

#[test]
fn escaping_an_entity_escapes_its_ampersand_again() {
    assert_eq!(xml_escape("&amp;"), "&amp;amp;");
    assert_eq!(xml_escape("plain text"), "plain text");
}

#[test]
fn quote_windows_arg_quotes_tabs_and_keeps_backslashes() {
    assert_eq!(quote_windows_arg("a\tb"), "\"a\tb\"");
    assert_eq!(quote_windows_arg("C:\\bin\\x.exe"), "C:\\bin\\x.exe");
    assert_eq!(quote_windows_arg("\u{a0}"), "\u{a0}");
}

#[test]
fn instant_new_normalizes_and_checks_range() {
    let i = Instant::new(2, -999_999_999).unwrap();
    assert_eq!((i.second(), i.nanosecond()), (1, 1));
    let j = Instant::new(-2, 999_999_999).unwrap();
    assert_eq!((j.second(), j.nanosecond()), (-1, -1));
    assert!(Instant::new(MAX_UNIX_SECOND + 1, 0).is_none());
    assert!(Instant::new(MIN_UNIX_SECOND, -1).is_none());
    assert!(Instant::new(MIN_UNIX_SECOND, 1).is_some());
    assert!(Instant::new(0, 1_000_000_000).is_none());
}

#[test]
fn instant_plus_seconds_moves_and_reports_overflow() {
    let moved = instant_plus_seconds(&at("2026-06-08T05:30:00.5Z"), 600).unwrap();
    assert_eq!(systemd_calendar(&moved), "2026-06-08 05:40:00 UTC");
    assert_eq!(moved.nanosecond(), 500_000_000);
    let last = Instant::new(MAX_UNIX_SECOND, 0).unwrap();
    assert!(instant_plus_seconds(&last, 600).is_err());
}

#[test]
fn systemd_calendar_truncates_fractional_seconds() {
    assert_eq!(
        systemd_calendar(&at("1999-12-31T23:59:59.999Z")),
        "1999-12-31 23:59:59 UTC"
    );
}

#[test]
fn windows_boundary_is_local_time() {
    let zone = TimeZone::fixed(Offset::from_seconds(19_800).unwrap());
    assert_eq!(
        windows_boundary(&at("2026-06-08T05:30:00Z"), &zone),
        "2026-06-08T11:00:00"
    );
    assert_eq!(
        windows_boundary_at_offset(&at("2026-06-08T05:30:00Z"), -3600),
        "2026-06-08T04:30:00"
    );
}

#[test]
fn calendar_interval_at_an_offset_crosses_midnight() {
    let interval = calendar_interval_at_offset(&at("2026-06-08T23:30:15Z"), 3600);
    assert_eq!(
        (interval.month, interval.day, interval.hour, interval.minute, interval.second),
        (6, 9, 0, 30, 15)
    );
}

#[test]
fn output_summary_prefers_stderr_and_trims() {
    let o = output(false, "exit status: 1", "  out  ", "\n err \n");
    assert_eq!(output_summary("schtasks /Create", &o), "schtasks /Create exited with exit status: 1: err");
    let o = output(false, "exit status: 2", " out\n", " \t ");
    assert_eq!(output_summary("x", &o), "x exited with exit status: 2: out");
}

#[test]
fn ensure_success_reports_failures() {
    assert!(ensure_success("schtasks /Create", &output(true, "exit status: 0", "", "")).is_ok());
    let error = ensure_success("schtasks /Create", &output(false, "exit status: 1", "", "bad xml")).unwrap_err();
    assert_eq!(operation(error), "schtasks /Create exited with exit status: 1: bad xml");
}

#[test]
fn removing_a_missing_task_succeeds() {
    let missing = output(false, "exit status: 1", "", "ERROR: The system cannot find the file specified.");
    assert!(is_missing_task(&missing));
    assert!(remove_outcome(&missing).is_ok());
    let gone = output(false, "exit status: 1", "The task does not exist", "");
    assert!(remove_outcome(&gone).is_ok());
    let denied = output(false, "exit status: 1", "", "Access is denied.");
    assert!(!is_missing_task(&denied));
    assert_eq!(
        operation(remove_outcome(&denied).unwrap_err()),
        "schtasks /Delete exited with exit status: 1: Access is denied."
    );
}

#[test]
fn list_outcome_parses_only_on_success() {
    let ok = output(true, "exit status: 0", "TaskName: \\ccplan\\b\nTaskName: \\ccplan\\a\n", "");
    assert_eq!(list_outcome(&ok).unwrap(), vec!["a".to_owned(), "b".to_owned()]);
    let failed = output(false, "exit status: 1", "TaskName: \\ccplan\\b\n", "no folder");
    assert_eq!(
        operation(list_outcome(&failed).unwrap_err()),
        "schtasks /Query exited with exit status: 1: no folder"
    );
}

#[test]
fn command_and_io_errors_name_the_action() {
    assert_eq!(operation(command_error("schtasks /Query", "not found")), "schtasks /Query failed: not found");
    assert_eq!(operation(io_error("write task XML", "disk full")), "write task XML failed: disk full");
}

#[test]
fn temp_xml_file_name_and_bom() {
    assert_eq!(temp_xml_file_name("d-1-start", 4021), "ccplan-d-1-start-4021.xml");
    assert_eq!(temp_xml_file_name("x", 0), "ccplan-x-0.xml");
    assert_eq!(xml_utf8_bom("<\u{e9}>"), vec![0xEF, 0xBB, 0xBF, b'<', 0xC3, 0xA9, b'>']);
}

#[test]
fn windows_command_line_quotes_and_joins() {
    let args = vec!["fire".to_owned(), "--id".to_owned(), "a b".to_owned(), "".to_owned()];
    assert_eq!(windows_command_line(&args), "fire --id \"a b\" \"\"");
    assert_eq!(windows_command_line(&Vec::new()), "");
}

#[test]
fn task_xml_document_escapes_command_arguments_and_directory() {
    let xml = task_xml_document("C:\\a&b\\ccplan-fire.exe", "S", "E", "--x \"<y>\"", "C:\\a&b");
    assert!(xml.starts_with("<?xml version=\"1.0\"?>\n<Task version=\"1.4\""));
    assert!(xml.contains("<StartBoundary>S</StartBoundary>\n      <EndBoundary>E</EndBoundary>"));
    assert!(xml.contains("<Command>C:\\a&amp;b\\ccplan-fire.exe</Command>"));
    assert!(xml.contains("<Arguments>--x &quot;&lt;y&gt;&quot;</Arguments>"));
    assert!(xml.contains("<WorkingDirectory>C:\\a&amp;b</WorkingDirectory>"));
    assert!(xml.ends_with("</Exec>\n  </Actions>\n</Task>"));
}

#[test]
fn task_xml_expires_ten_minutes_after_start() {
    let args = vec!["fire".to_owned(), "--at".to_owned(), "2026-06-08T05:30:00Z".to_owned()];
    let xml = task_xml("C:\\bin\\ccplan-fire.exe", "C:\\bin", &at("2026-06-08T05:30:00Z"), &TimeZone::UTC, &args).unwrap();
    assert!(xml.contains("<StartBoundary>2026-06-08T05:30:00</StartBoundary>"));
    assert!(xml.contains("<EndBoundary>2026-06-08T05:40:00</EndBoundary>"));
    assert!(xml.contains("<Arguments>fire --at 2026-06-08T05:30:00Z</Arguments>"));
    let last = Instant::new(MAX_UNIX_SECOND, 0).unwrap();
    assert!(task_xml("b", "d", &last, &TimeZone::UTC, &args).is_err());
}

#[test]
fn fire_binary_prefers_the_shim() {
    assert_eq!(fire_binary("C:\\b\\ccplan.exe", "C:\\b\\ccplan-fire.exe", true), "C:\\b\\ccplan-fire.exe");
    assert_eq!(fire_binary("C:\\b\\ccplan.exe", "C:\\b\\ccplan-fire.exe", false), "C:\\b\\ccplan.exe");
}

#[test]
fn scheduler_doctor_check_covers_each_outcome() {
    let ok = scheduler_doctor_check(&QueryProbe::Ran(output(true, "exit status: 0", "", "")));
    assert_eq!((ok.name.as_str(), ok.level, ok.message.as_str()), ("scheduler", CheckLevel::Pass, "Windows Task Scheduler is available"));
    assert!(ok.hint.is_none());
    let failed = scheduler_doctor_check(&QueryProbe::Ran(output(false, "exit status: 1", "", "denied")));
    assert_eq!(failed.level, CheckLevel::Error);
    assert_eq!(failed.message, "schtasks /Query exited with exit status: 1: denied");
    assert_eq!(failed.hint.as_deref(), Some("run from an interactive Windows user session with Task Scheduler enabled"));
    let missing = scheduler_doctor_check(&QueryProbe::NotStarted("program not found".to_owned()));
    assert_eq!(missing.level, CheckLevel::Error);
    assert_eq!(missing.message, "program not found");
    assert_eq!(missing.hint.as_deref(), Some("ensure schtasks.exe is available on PATH"));
}

#[test]
fn notifier_doctor_check_warns_with_the_reason() {
    let ok = notifier_doctor_check(&Ok(()));
    assert_eq!((ok.name.as_str(), ok.level, ok.message.as_str()), ("notifier", CheckLevel::Pass, "desktop notification environment is present"));
    let warn = notifier_doctor_check(&Err(NotifyError::Operation("no bus".to_owned())));
    assert_eq!(warn.level, CheckLevel::Warning);
    assert_eq!(warn.message, "no bus");
    assert_eq!(
        warn.hint.as_deref(),
        Some("run `ccplan doctor` inside a graphical desktop session, then rerun `ccplan apply`")
    );
    let unavailable = notifier_doctor_check(&Err(NotifyError::Unavailable));
    assert_eq!(unavailable.message, "desktop notifications are unavailable on this platform");
}

#[test]
fn notifier_command_success_reports_output() {
    assert!(command_success("osascript", &output(true, "exit status: 0", "", "")).is_ok());
    let error = command_success("wscript notify", &output(false, "exit status: 2", " script error ", "")).unwrap_err();
    assert_eq!(notify_operation(error), "wscript notify exited with exit status: 2: script error");
    assert_eq!(notify_operation(failed("write notify script", "denied")), "write notify script failed: denied");
}

#[test]
fn unix_notification_environment() {
    assert_eq!(unix::runtime_bus_path(Some("/run/user/1000")), Some("/run/user/1000/bus".to_owned()));
    assert_eq!(unix::runtime_bus_path(Some("")), None);
    assert_eq!(unix::runtime_bus_path(None), None);
    assert!(unix::platform_notification_check(true, false).is_ok());
    assert!(unix::platform_notification_check(false, true).is_ok());
    assert_eq!(
        notify_operation(unix::check_notification_environment(false, false).unwrap_err()),
        "DBUS_SESSION_BUS_ADDRESS is missing and /run/user/<uid>/bus is unavailable"
    );
}

#[test]
fn macos_notification_script_and_check() {
    let n = Notification { title: "Focus \"time\"".to_owned(), body: "a\\b".to_owned() };
    assert_eq!(
        macos::display_notification_script(&n),
        "display notification \"a\\\\b\" with title \"Focus \\\"time\\\"\""
    );
    assert!(macos::platform_notification_check(None).is_ok());
    assert_eq!(
        notify_operation(macos::platform_notification_check(Some("No such file")).unwrap_err()),
        "osascript is unavailable: No such file"
    );
    assert!(macos::command_available("x", None).is_ok());
    assert_eq!(notify_operation(macos::osascript_failed("denied")), "osascript failed: denied");
}

#[test]
fn windows_notification_script_file_and_encoding() {
    let n = Notification { title: "Stand \"up\"".to_owned(), body: "now".to_owned() };
    assert_eq!(windows::msgbox_script(&n), "MsgBox \"Stand \"\"up\"\"\" & vbCrLf & \"now\", 64, \"ccplan\"\r\n");
    let n = Notification { title: "T".to_owned(), body: String::new() };
    assert_eq!(windows::msgbox_script(&n), "MsgBox \"T\", 64, \"ccplan\"\r\n");
    assert_eq!(windows::notify_script_file_name(77, 1_717_825_800_123), "notify-77-1717825800123.vbs");
    assert_eq!(windows::utf16le_with_bom("A\u{e9}\u{1f600}"), vec![0xFF, 0xFE, 0x41, 0x00, 0xE9, 0x00, 0x3D, 0xD8, 0x00, 0xDE]);
    assert!(windows::platform_notification_check("C:\\Windows\\System32\\wscript.exe", true).is_ok());
    assert_eq!(
        notify_operation(windows::platform_notification_check("C:\\W\\wscript.exe", false).unwrap_err()),
        "wscript.exe is unavailable at C:\\W\\wscript.exe"
    );
    let root = windows::notify_scripts_dir(true, true).unwrap();
    assert!(matches!(root.base, windows::PathBase::CcplanRoot));
    assert_eq!(root.components, vec!["data".to_owned()]);
    let local = windows::notify_scripts_dir(false, true).unwrap();
    assert!(matches!(local.base, windows::PathBase::LocalAppData));
    assert_eq!(local.components, vec!["ccplan".to_owned(), "data".to_owned()]);
    assert_eq!(notify_operation(windows::notify_scripts_dir(false, false).unwrap_err()), "LOCALAPPDATA is unset");
    let wscript = windows::wscript_path(true);
    assert!(matches!(wscript.base, windows::PathBase::SystemRoot));
    assert_eq!(wscript.components, vec!["System32".to_owned(), "wscript.exe".to_owned()]);
    let fallback = windows::wscript_path(false);
    assert!(matches!(fallback.base, windows::PathBase::Fixed(ref dir) if dir == "C:\\Windows"));
}

#[test]
fn platforms_without_a_notifier_say_so() {
    assert!(matches!(other::platform_notification_check(), Err(NotifyError::Unavailable)));
    let n = Notification { title: "t".to_owned(), body: "b".to_owned() };
    assert!(matches!(other::send_native_notification(&n), Err(NotifyError::Unavailable)));
}
