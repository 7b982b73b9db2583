//! The portable defaults of the platform boundary: what the window-style,
//! monitor and notification primitives answer when no native backend
//! exists. Each is exact — the callers' fallback chains are verified
//! against precisely these answers.

use vstd::prelude::*;

verus! {

/// Enumerating top-level windows without a native backend yields nothing.
pub fn enumerate_windows() -> (r: Vec<String>)
    ensures
        r@.len() == 0,
{
    let v: Vec<String> = Vec::new();
    v
}

/// Applying an extended overlay style is a no-op without a native
/// backend; the handle and the click-through request are accepted as is.
pub fn set_overlay_style(_hwnd: u64, _click_through: bool) -> (r: Result<(), String>)
    ensures
        r is Ok,
{
    Ok(())
}

/// Without a native display subsystem no monitor handles exist; callers
/// fall back to "assume one monitor, full virtual-desktop bounds".
pub fn get_all_monitors() -> (r: Result<Vec<u64>, String>)
    ensures
        match r {
            Ok(v) => v@.len() == 0,
            Err(_) => false,
        },
{
    Ok(Vec::new())
}

/// Querying a monitor handle succeeds vacuously without a backend.
pub fn get_monitor_info(_hmonitor: u64) -> (r: Result<(), String>)
    ensures
        r is Ok,
{
    Ok(())
}

/// The assumed virtual-desktop bounds when the display subsystem cannot
/// be queried: one full-HD monitor at the origin, as `(left, top, right,
/// bottom)`.
pub fn get_virtual_desktop_bounds() -> (r: Result<(i32, i32, i32, i32), String>)
    ensures
        match r {
            Ok(b) => b.0 == 0 && b.1 == 0 && b.2 == 1920 && b.3 == 1080,
            Err(_) => false,
        },
{
    Ok((0, 0, 1920, 1080))
}

/// Spanning a window across every monitor is a no-op without a backend.
pub fn position_window_for_all_monitors(_hwnd: u64) -> (r: Result<(), String>)
    ensures
        r is Ok,
{
    Ok(())
}

/// Notification suppression needs a platform notification service; the
/// portable default refuses.
pub fn suppress_notifications_direct() -> (r: Result<(), String>)
    ensures
        match r {
            Err(m) => m@ == "Not available on this platform"@,
            Ok(_) => false,
        },
{
    Err(String::from_str("Not available on this platform"))
}

/// Restoring notifications likewise refuses without a platform service.
pub fn restore_notifications_direct() -> (r: Result<(), String>)
    ensures
        match r {
            Err(m) => m@ == "Not available on this platform"@,
            Ok(_) => false,
        },
{
    Err(String::from_str("Not available on this platform"))
}

/// Muting notifications through the native notification interface is not
/// available portably.
pub fn mute_notifications_windows_api() -> (r: Result<(), String>)
    ensures
        match r {
            Err(m) => m@ == "Not available on this platform"@,
            Ok(_) => false,
        },
{
    Err(String::from_str("Not available on this platform"))
}

/// Unmuting through the native notification interface is not available
/// portably.
pub fn unmute_notifications_windows_api() -> (r: Result<(), String>)
    ensures
        match r {
            Err(m) => m@ == "Not available on this platform"@,
            Ok(_) => false,
        },
{
    Err(String::from_str("Not available on this platform"))
}

/// The background blocker that keeps closing notification popups cannot
/// run portably.
pub fn start_notification_blocker() -> (r: Result<(), String>)
    ensures
        match r {
            Err(m) => m@ == "Not available on this platform"@,
            Ok(_) => false,
        },
{
    Err(String::from_str("Not available on this platform"))
}

/// Stopping the blocker is a no-op where it cannot run.
pub fn stop_notification_blocker() {
}

} // verus!
