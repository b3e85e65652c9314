//! The macOS notifier: `osascript` with an AppleScript `display notification`.
use vstd::prelude::*;
use super::{failed, failed_message, Notification, NotifyError};
use crate::format::applescript_literal;
use crate::text::{chars_of, push_str, string_from_chars};

verus! {

broadcast use vstd::string::group_string_axioms;

/// A command is available when it could be started; otherwise the error reads
/// `<message>: <why>`.
pub fn command_available(message: &str, spawn_error: Option<&str>) -> (res: Result<(), NotifyError>)
    ensures
        res is Ok <==> spawn_error is None,
        res matches Err(e) ==> e == NotifyError::Operation(e->Operation_0) && e->Operation_0@
            == message@ + ": "@ + spawn_error->Some_0@,
{
    match spawn_error {
        None => Ok(()),
        Some(error) => {
            let mut out = chars_of(message);
            push_str(&mut out, ": ");
            push_str(&mut out, error);
            Err(NotifyError::Operation(string_from_chars(&out)))
        },
    }
}

/// The notification environment is usable when `osascript` can be started.
pub fn platform_notification_check(osascript_spawn_error: Option<&str>) -> (res: Result<(), NotifyError>)
    ensures
        res is Ok <==> osascript_spawn_error is None,
        res matches Err(e) ==> e == NotifyError::Operation(e->Operation_0) && e->Operation_0@
            == "osascript is unavailable"@ + ": "@ + osascript_spawn_error->Some_0@,
{
    command_available("osascript is unavailable", osascript_spawn_error)
}

/// `display notification <body> with title <title>`, both as AppleScript string literals.
pub open spec fn display_notification(title: Seq<char>, body: Seq<char>) -> Seq<char> {
    "display notification "@ + applescript_literal(body) + " with title "@ + applescript_literal(
        title,
    )
}

/// The AppleScript that shows the notification.
pub fn display_notification_script(notification: &Notification) -> (res: String)
    ensures
        res@ == display_notification(notification.title@, notification.body@),
{
    let body = crate::format::applescript_string(notification.body.as_str());
    let title = crate::format::applescript_string(notification.title.as_str());
    let mut out = chars_of("display notification ");
    push_str(&mut out, body.as_str());
    push_str(&mut out, " with title ");
    push_str(&mut out, title.as_str());
    string_from_chars(&out)
}

/// The error when `osascript` could not be started.
pub fn osascript_failed(error: &str) -> (res: NotifyError)
    ensures
        res == NotifyError::Operation(res->Operation_0) && res->Operation_0@ == failed_message(
            "osascript"@,
            error@,
        ),
{
    failed("osascript", error)
}

} // verus!
