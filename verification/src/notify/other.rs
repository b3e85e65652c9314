//! The notifier of a platform with no desktop notification support.
use vstd::prelude::*;
use super::{Notification, NotifyError};

verus! {

/// There is no notification environment to find.
pub fn platform_notification_check() -> (res: Result<(), NotifyError>)
    ensures
        res == Err::<(), NotifyError>(NotifyError::Unavailable),
{
    Err(NotifyError::Unavailable)
}

/// No notification can be shown.
pub fn send_native_notification(notification: &Notification) -> (res: Result<(), NotifyError>)
    ensures
        res == Err::<(), NotifyError>(NotifyError::Unavailable),
{
    Err(NotifyError::Unavailable)
}

} // verus!
