//! Desktop notification backends: what each platform's notifier decides and builds. Probing
//! the environment, writing scripts and running programs is left to the caller.
use vstd::prelude::*;
use crate::doctor::{reads, CheckLevel, DoctorCheck};
use crate::output::{exit_summary, output_summary, CommandOutput};
use crate::text::{chars_of, push_str, string_from_chars};

pub mod macos;
pub mod other;
pub mod unix;
pub mod windows;

verus! {

broadcast use vstd::string::group_string_axioms;

/// A desktop notification: a title and a body.
#[derive(Debug)]
pub struct Notification {
    pub title: String,
    pub body: String,
}

/// Why a notification could not be shown.
#[derive(Debug)]
pub enum NotifyError {
    /// This platform has no notifier.
    Unavailable,
    /// The notifier failed, with what went wrong.
    Operation(String),
}

/// The text of an `Unavailable` error.
pub open spec fn unavailable_message() -> Seq<char> {
    "desktop notifications are unavailable on this platform"@
}

/// The human-readable text of a notification error.
pub open spec fn notify_error_message(error: NotifyError) -> Seq<char> {
    match error {
        NotifyError::Unavailable => unavailable_message(),
        NotifyError::Operation(m) => m@,
    }
}

impl NotifyError {
    /// The human-readable text of the error.
    pub fn message(&self) -> (res: String)
        ensures
            res@ == notify_error_message(*self),
    {
        match self {
            NotifyError::Unavailable => "desktop notifications are unavailable on this platform".to_owned(),
            NotifyError::Operation(m) => m.clone(),
        }
    }
}

/// `<what> failed: <error>`.
pub open spec fn failed_message(what: Seq<char>, error: Seq<char>) -> Seq<char> {
    what + " failed: "@ + error
}

/// The error of a notifier step that failed: `<what> failed: <error>`.
pub fn failed(what: &str, error: &str) -> (res: NotifyError)
    ensures
        res == NotifyError::Operation(res->Operation_0) && res->Operation_0@ == failed_message(
            what@,
            error@,
        ),
{
    let mut out = chars_of(what);
    push_str(&mut out, " failed: ");
    push_str(&mut out, error);
    NotifyError::Operation(string_from_chars(&out))
}

/// Succeeds exactly when the notifier command did; otherwise reports its exit status and output.
pub fn command_success(command: &str, output: &CommandOutput) -> (res: Result<(), NotifyError>)
    ensures
        res is Ok <==> output.success,
        res matches Err(e) ==> e == NotifyError::Operation(e->Operation_0) && e->Operation_0@
            == exit_summary(command@, *output),
{
    if output.success {
        Ok(())
    } else {
        Err(NotifyError::Operation(output_summary(command, output)))
    }
}

/// The `notifier` line of `ccplan doctor` from checking the notification environment.
pub fn doctor_check(environment: &Result<(), NotifyError>) -> (res: DoctorCheck)
    ensures
        match environment {
            Ok(()) => reads(
                res,
                "notifier"@,
                CheckLevel::Pass,
                "desktop notification environment is present"@,
                None,
            ),
            Err(error) => reads(
                res,
                "notifier"@,
                CheckLevel::Warning,
                notify_error_message(*error),
                Some(
                    "run `ccplan doctor` inside a graphical desktop session, then rerun `ccplan apply`"@,
                ),
            ),
        },
{
    match environment {
        Ok(()) => DoctorCheck::ok("notifier", "desktop notification environment is present"),
        Err(error) => {
            let message = error.message();
            DoctorCheck::warning(
                "notifier",
                message.as_str(),
                "run `ccplan doctor` inside a graphical desktop session, then rerun `ccplan apply`",
            )
        },
    }
}

} // verus!
