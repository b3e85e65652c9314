//! The Linux (and other non-macOS Unix) notifier: D-Bus session bus discovery.
use vstd::prelude::*;
use super::NotifyError;
use crate::text::{chars_of, push_str, string_from_chars};

verus! {

broadcast use vstd::string::group_string_axioms;

/// The session bus socket under `XDG_RUNTIME_DIR`: `<dir>/bus`, or nothing when the variable is
/// unset or empty.
pub fn runtime_bus_path(xdg_runtime_dir: Option<&str>) -> (res: Option<String>)
    ensures
        match xdg_runtime_dir {
            Some(dir) => if dir@.len() > 0 {
                res matches Some(p) && p@ == dir@ + "/bus"@
            } else {
                res is None
            },
            None => res is None,
        },
{
    match xdg_runtime_dir {
        Some(dir) => {
            if dir.is_empty() {
                None
            } else {
                let mut out = chars_of(dir);
                push_str(&mut out, "/bus");
                Some(string_from_chars(&out))
            }
        },
        None => None,
    }
}

/// The message when no session bus can be found.
pub open spec fn missing_bus_message() -> Seq<char> {
    "DBUS_SESSION_BUS_ADDRESS is missing and /run/user/<uid>/bus is unavailable"@
}

/// A notification can reach the desktop session when `DBUS_SESSION_BUS_ADDRESS` is set or the
/// runtime session bus socket exists.
pub fn platform_notification_check(dbus_session_bus_address_set: bool, runtime_bus_exists: bool) -> (res:
    Result<(), NotifyError>)
    ensures
        res is Ok <==> dbus_session_bus_address_set || runtime_bus_exists,
        res matches Err(e) ==> e == NotifyError::Operation(e->Operation_0) && e->Operation_0@
            == missing_bus_message(),
{
    if dbus_session_bus_address_set {
        return Ok(());
    }
    if runtime_bus_exists {
        return Ok(());
    }
    Err(
        NotifyError::Operation(
            "DBUS_SESSION_BUS_ADDRESS is missing and /run/user/<uid>/bus is unavailable".to_owned(),
        ),
    )
}

/// The notification environment check of this platform.
pub fn check_notification_environment(
    dbus_session_bus_address_set: bool,
    runtime_bus_exists: bool,
) -> (res: Result<(), NotifyError>)
    ensures
        res is Ok <==> dbus_session_bus_address_set || runtime_bus_exists,
        res matches Err(e) ==> e == NotifyError::Operation(e->Operation_0) && e->Operation_0@
            == missing_bus_message(),
{
    platform_notification_check(dbus_session_bus_address_set, runtime_bus_exists)
}

} // verus!
