//! Windows Task Scheduler backend: the task XML, the argument line, and the decisions taken on
//! what `schtasks.exe` reports. Running `schtasks.exe` and touching files is left to the caller.
use vstd::prelude::*;
use vstd::string::StringSliceAdditionalSpecFns;
use vstd::utf8::encode_utf8;
use crate::doctor::{reads, CheckLevel, DoctorCheck};
use crate::format::{quote_windows_chars, windows_quoted, xml_escape_chars, xml_escaped};
use crate::listing::{parse_task_names, string_views, task_ids};
use crate::order::sorted;
use crate::output::{exit_summary, output_contains, output_summary, CommandOutput};
use crate::text::{chars_of, contains_seq, decimal, push_chars, push_decimal, push_str, string_from_chars};
use crate::time::{
    add_in_range, instant_parts_valid, instant_plus_seconds, jiff_checked_add_error, jiff_strftime_at_offset,
    offset_valid, total_nanos, windows_boundary, windows_boundary_format, zone_offset, Instant,
};

verus! {

broadcast use vstd::string::group_string_axioms;

/// A scheduler operation that failed, with what went wrong.
#[derive(Debug)]
pub enum SchedulerError {
    Operation(String),
}

/// How long after its start a task's trigger expires (and the task is then deleted).
pub const TASK_EXPIRY_SECONDS: i64 = 600i64;

/// The file name of the fire shim that the Task Scheduler runs, looked up beside the binary.
pub const FIRE_BINARY_NAME: &'static str = "ccplan-fire.exe";

/// `<action> failed: <error>`, the error of an action that could not be performed.
pub open spec fn action_failed_message(action: Seq<char>, error: Seq<char>) -> Seq<char> {
    action + " failed: "@ + error
}

fn action_failed(action: &str, error: &str) -> (res: SchedulerError)
    ensures
        res matches SchedulerError::Operation(m) && m@ == action_failed_message(action@, error@),
{
    let mut out = chars_of(action);
    push_str(&mut out, " failed: ");
    push_str(&mut out, error);
    SchedulerError::Operation(string_from_chars(&out))
}

/// The error for a `schtasks.exe` invocation that could not be started.
pub fn command_error(action: &str, error: &str) -> (res: SchedulerError)
    ensures
        res matches SchedulerError::Operation(m) && m@ == action_failed_message(action@, error@),
{
    action_failed(action, error)
}

/// The error for a file operation that failed.
pub fn io_error(action: &str, error: &str) -> (res: SchedulerError)
    ensures
        res matches SchedulerError::Operation(m) && m@ == action_failed_message(action@, error@),
{
    action_failed(action, error)
}

/// The error for a `schtasks.exe` invocation that exited unsuccessfully.
pub fn failed_output(action: &str, output: &CommandOutput) -> (res: SchedulerError)
    ensures
        res matches SchedulerError::Operation(m) && m@ == exit_summary(action@, *output),
{
    SchedulerError::Operation(output_summary(action, output))
}

/// Succeeds exactly when the command did.
pub fn ensure_success(action: &str, output: &CommandOutput) -> (res: Result<(), SchedulerError>)
    ensures
        res is Ok <==> output.success,
        res matches Err(SchedulerError::Operation(m)) ==> m@ == exit_summary(action@, *output),
{
    if output.success {
        Ok(())
    } else {
        Err(failed_output(action, output))
    }
}

/// Whether `schtasks.exe` reported that the task does not exist.
pub open spec fn reports_missing_task(output: CommandOutput) -> bool {
    contains_seq(output.stdout@ + output.stderr@, "cannot find"@) || contains_seq(
        output.stdout@ + output.stderr@,
        "does not exist"@,
    )
}

/// Whether `schtasks.exe` reported that the task does not exist.
pub fn is_missing_task(output: &CommandOutput) -> (res: bool)
    ensures
        res == (contains_seq(output.stdout@ + output.stderr@, "cannot find"@) || contains_seq(
            output.stdout@ + output.stderr@,
            "does not exist"@,
        )),
{
    output_contains(output, "cannot find") || output_contains(output, "does not exist")
}

/// The outcome of `schtasks /Delete`: removing a task that is already gone succeeds too.
pub fn remove_outcome(output: &CommandOutput) -> (res: Result<(), SchedulerError>)
    ensures
        res is Ok <==> (output.success || contains_seq(
            output.stdout@ + output.stderr@,
            "cannot find"@,
        ) || contains_seq(output.stdout@ + output.stderr@, "does not exist"@)),
        res matches Err(SchedulerError::Operation(m)) ==> m@ == exit_summary(
            "schtasks /Delete"@,
            *output,
        ),
{
    if output.success || is_missing_task(output) {
        Ok(())
    } else {
        Err(failed_output("schtasks /Delete", output))
    }
}

/// The outcome of `schtasks /Query /TN \ccplan\ /FO LIST`: the task ids it lists, sorted.
pub fn list_outcome(output: &CommandOutput) -> (res: Result<Vec<String>, SchedulerError>)
    ensures
        res is Ok <==> output.success,
        res matches Ok(names) ==> sorted(string_views(names@)) && string_views(names@).to_multiset()
            == task_ids(output.stdout@).to_multiset(),
        res matches Err(SchedulerError::Operation(m)) ==> m@ == exit_summary(
            "schtasks /Query"@,
            *output,
        ),
{
    match ensure_success("schtasks /Query", output) {
        Ok(()) => Ok(parse_task_names(output.stdout.as_str())),
        Err(e) => Err(e),
    }
}

/// The file name of the temporary task XML for a backend id: `ccplan-<id>-<pid>.xml`.
pub open spec fn temp_xml_name(backend_id: Seq<char>, pid: u32) -> Seq<char> {
    "ccplan-"@ + backend_id + "-"@ + decimal(pid as nat) + ".xml"@
}

/// The file name of the temporary task XML for a backend id: `ccplan-<id>-<pid>.xml`.
pub fn temp_xml_file_name(backend_id: &str, pid: u32) -> (res: String)
    ensures
        res@ == temp_xml_name(backend_id@, pid),
{
    let mut out = chars_of("ccplan-");
    push_str(&mut out, backend_id);
    push_str(&mut out, "-");
    push_decimal(&mut out, pid as u128);
    push_str(&mut out, ".xml");
    string_from_chars(&out)
}

/// The UTF-8 byte-order mark.
pub open spec fn utf8_bom() -> Seq<u8> {
    seq![0xEFu8, 0xBBu8, 0xBFu8]
}

/// The bytes of the task XML file: the UTF-8 byte-order mark, then the UTF-8 encoding of the
/// XML (the Task Scheduler reads that encoding most reliably).
pub fn xml_utf8_bom(xml: &str) -> (res: Vec<u8>)
    ensures
        res@ == utf8_bom() + encode_utf8(xml@),
{
    let mut bytes: Vec<u8> = Vec::new();
    bytes.push(0xEF);
    bytes.push(0xBB);
    bytes.push(0xBF);
    let body = xml.as_bytes();
    let ghost start = bytes@;
    let mut i: usize = 0;
    while i < body.len()
        invariant
            i <= body@.len(),
            body@ == xml.spec_bytes(),
            start == utf8_bom(),
            bytes@ == start + body@.take(i as int),
        decreases body@.len() - i,
    {
        bytes.push(body[i]);
        i = i + 1;
        assert(body@.take(i as int) =~= body@.take(i - 1).push(body@[i - 1]));
    }
    assert(body@.take(body@.len() as int) =~= body@);
    bytes
}

/// `parts` joined with single spaces.
pub open spec fn joined_with_spaces(parts: Seq<Seq<char>>) -> Seq<char>
    decreases parts.len(),
{
    if parts.len() == 0 {
        seq![]
    } else if parts.len() == 1 {
        parts[0]
    } else {
        joined_with_spaces(parts.drop_last()) + seq![' '] + parts.last()
    }
}

/// The command-line arguments, each quoted for Windows.
pub open spec fn quoted_args(args: Seq<String>) -> Seq<Seq<char>> {
    args.map_values(|a: String| windows_quoted(a@))
}

/// The Windows argument line: every argument quoted, joined with single spaces.
pub fn windows_command_line(args: &Vec<String>) -> (res: String)
    ensures
        res@ == joined_with_spaces(quoted_args(args@)),
{
    let out = windows_command_line_chars(args);
    string_from_chars(&out)
}

fn windows_command_line_chars(args: &Vec<String>) -> (res: Vec<char>)
    ensures
        res@ == joined_with_spaces(quoted_args(args@)),
{
    let mut out: Vec<char> = Vec::new();
    let mut i: usize = 0;
    while i < args.len()
        invariant
            i <= args.len(),
            out@ == joined_with_spaces(quoted_args(args@).take(i as int)),
        decreases args.len() - i,
    {
        let a = chars_of(args[i].as_str());
        let q = quote_windows_chars(&a);
        if i > 0 {
            out.push(' ');
        }
        push_chars(&mut out, &q);
        proof {
            let parts = quoted_args(args@).take(i + 1);
            assert(parts.drop_last() =~= quoted_args(args@).take(i as int));
            assert(parts.last() == q@);
            if i == 0 {
                assert(out@ =~= parts[0]);
            }
        }
        i = i + 1;
    }
    assert(quoted_args(args@).take(args.len() as int) =~= quoted_args(args@));
    out
}

/// The Task Scheduler XML of a one-shot task that runs `command` with `arguments` in
/// `working_dir`, starting at `start` and expiring at `end` (both local boundaries), hidden,
/// limited to one minute, and deleted once expired. The command, arguments and working
/// directory are XML-escaped.
pub open spec fn task_document(
    command: Seq<char>,
    start: Seq<char>,
    end: Seq<char>,
    arguments: Seq<char>,
    working_dir: Seq<char>,
) -> Seq<char> {
    TASK_XML_HEAD@ + start + TASK_XML_AFTER_START@ + end + TASK_XML_AFTER_END@ + xml_escaped(command)
        + TASK_XML_AFTER_COMMAND@ + xml_escaped(arguments) + TASK_XML_AFTER_ARGUMENTS@ + xml_escaped(
        working_dir,
    ) + TASK_XML_TAIL@
}

/// The task XML up to the start boundary.
pub const TASK_XML_HEAD: &'static str = "<?xml version=\"1.0\"?>\n<Task version=\"1.4\" xmlns=\"http://schemas.microsoft.com/windows/2004/02/mit/task\">\n  <Triggers>\n    <TimeTrigger>\n      <StartBoundary>";

/// The task XML between the start and end boundaries.
pub const TASK_XML_AFTER_START: &'static str = "</StartBoundary>\n      <EndBoundary>";

/// The task XML between the end boundary and the command.
pub const TASK_XML_AFTER_END: &'static str = "</EndBoundary>\n      <Enabled>true</Enabled>\n    </TimeTrigger>\n  </Triggers>\n  <Principals>\n    <Principal id=\"Author\">\n      <LogonType>InteractiveToken</LogonType>\n      <RunLevel>LeastPrivilege</RunLevel>\n    </Principal>\n  </Principals>\n  <Settings>\n    <MultipleInstancesPolicy>IgnoreNew</MultipleInstancesPolicy>\n    <DisallowStartIfOnBatteries>false</DisallowStartIfOnBatteries>\n    <StopIfGoingOnBatteries>false</StopIfGoingOnBatteries>\n    <AllowHardTerminate>true</AllowHardTerminate>\n    <StartWhenAvailable>false</StartWhenAvailable>\n    <Enabled>true</Enabled>\n    <Hidden>true</Hidden>\n    <ExecutionTimeLimit>PT1M</ExecutionTimeLimit>\n    <DeleteExpiredTaskAfter>PT0S</DeleteExpiredTaskAfter>\n  </Settings>\n  <Actions Context=\"Author\">\n    <Exec>\n      <Command>";

/// The task XML between the command and the arguments.
pub const TASK_XML_AFTER_COMMAND: &'static str = "</Command>\n      <Arguments>";

/// The task XML between the arguments and the working directory.
pub const TASK_XML_AFTER_ARGUMENTS: &'static str = "</Arguments>\n      <WorkingDirectory>";

/// The task XML after the working directory.
pub const TASK_XML_TAIL: &'static str = "</WorkingDirectory>\n    </Exec>\n  </Actions>\n</Task>";

/// The Task Scheduler XML of a one-shot task (see `task_document`).
pub fn task_xml_document(
    command: &str,
    start: &str,
    end: &str,
    arguments: &str,
    working_dir: &str,
) -> (res: String)
    ensures
        res@ == task_document(command@, start@, end@, arguments@, working_dir@),
{
    let mut out = chars_of(TASK_XML_HEAD);
    push_str(&mut out, start);
    push_str(&mut out, TASK_XML_AFTER_START);
    push_str(&mut out, end);
    push_str(&mut out, TASK_XML_AFTER_END);
    let c = xml_escape_chars(&chars_of(command));
    push_chars(&mut out, &c);
    push_str(&mut out, TASK_XML_AFTER_COMMAND);
    let a = xml_escape_chars(&chars_of(arguments));
    push_chars(&mut out, &a);
    push_str(&mut out, TASK_XML_AFTER_ARGUMENTS);
    let w = xml_escape_chars(&chars_of(working_dir));
    push_chars(&mut out, &w);
    push_str(&mut out, TASK_XML_TAIL);
    string_from_chars(&out)
}

/// The task XML for a trigger scheduled at `scheduled_at`: it starts then and expires
/// `TASK_EXPIRY_SECONDS` later, both boundaries in local time at the offset `zone` has at each
/// instant (as `zone_offset` looks it up), running the binary `binary_display` with `fire_args`
/// in `working_dir`. Fails, with jiff's message, when the expiry leaves the supported range.
pub fn task_xml(
    binary_display: &str,
    working_dir: &str,
    scheduled_at: &Instant,
    zone: &jiff::tz::TimeZone,
    fire_args: &Vec<String>,
) -> (res: Result<String, SchedulerError>)
    ensures
        res is Ok <==> add_in_range(scheduled_at@.0, scheduled_at@.1, TASK_EXPIRY_SECONDS),
        res matches Err(SchedulerError::Operation(m)) ==> m@ == jiff_checked_add_error(
            scheduled_at@.0,
            scheduled_at@.1,
            TASK_EXPIRY_SECONDS,
        ),
        res matches Ok(xml) ==> exists|start_offset: i32, end_offset: i32, end: Instant|
            call_ensures(zone_offset, (zone, scheduled_at), start_offset) && call_ensures(
                zone_offset,
                (zone, &end),
                end_offset,
            ) && offset_valid(start_offset) && offset_valid(end_offset) && instant_parts_valid(
                end@.0,
                end@.1,
            ) && total_nanos(
                end@.0 as int,
                end@.1 as int,
            ) == total_nanos(scheduled_at@.0 + TASK_EXPIRY_SECONDS, scheduled_at@.1 as int)
                && xml@ == #[trigger] task_document(
                binary_display@,
                jiff_strftime_at_offset(
                    scheduled_at@.0,
                    scheduled_at@.1,
                    start_offset,
                    windows_boundary_format(),
                ),
                jiff_strftime_at_offset(end@.0, end@.1, end_offset, windows_boundary_format()),
                joined_with_spaces(quoted_args(fire_args@)),
                working_dir@,
            ),
{
    let start = windows_boundary(scheduled_at, zone);
    let end = match instant_plus_seconds(scheduled_at, TASK_EXPIRY_SECONDS) {
        Ok(end) => end,
        Err(message) => return Err(SchedulerError::Operation(message)),
    };
    let end_text = windows_boundary(&end, zone);
    let arguments = windows_command_line(fire_args);
    Ok(
        task_xml_document(
            binary_display,
            start.as_str(),
            end_text.as_str(),
            arguments.as_str(),
            working_dir,
        ),
    )
}

/// The binary the Task Scheduler should run: the fire shim `candidate` beside the binary when
/// it exists, else the binary itself.
pub fn fire_binary(binary: &str, candidate: &str, candidate_exists: bool) -> (res: String)
    ensures
        res@ == if candidate_exists {
            candidate@
        } else {
            binary@
        },
{
    if candidate_exists {
        candidate.to_owned()
    } else {
        binary.to_owned()
    }
}

/// The outcome of probing `schtasks /Query`: the output when it ran, or why it could not start.
pub enum QueryProbe {
    Ran(CommandOutput),
    NotStarted(String),
}

/// The `scheduler` line of `ccplan doctor` from probing `schtasks /Query`.
pub fn doctor_check(probe: &QueryProbe) -> (res: DoctorCheck)
    ensures
        match probe {
            QueryProbe::Ran(output) => if output.success {
                reads(res, "scheduler"@, CheckLevel::Pass, "Windows Task Scheduler is available"@, None)
            } else {
                reads(
                    res,
                    "scheduler"@,
                    CheckLevel::Error,
                    exit_summary("schtasks /Query"@, *output),
                    Some("run from an interactive Windows user session with Task Scheduler enabled"@),
                )
            },
            QueryProbe::NotStarted(error) => reads(
                res,
                "scheduler"@,
                CheckLevel::Error,
                error@,
                Some("ensure schtasks.exe is available on PATH"@),
            ),
        },
{
    match probe {
        QueryProbe::Ran(output) => {
            if output.success {
                DoctorCheck::ok("scheduler", "Windows Task Scheduler is available")
            } else {
                let summary = output_summary("schtasks /Query", output);
                DoctorCheck::error(
                    "scheduler",
                    summary.as_str(),
                    "run from an interactive Windows user session with Task Scheduler enabled",
                )
            }
        },
        QueryProbe::NotStarted(error) => DoctorCheck::error(
            "scheduler",
            error.as_str(),
            "ensure schtasks.exe is available on PATH",
        ),
    }
}

} // verus!
