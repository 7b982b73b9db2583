//! Focus sessions: the predefined focus modes with their durations, the
//! session timing arithmetic, and the notification-mute bookkeeping the
//! toggle path consults through `is_notifications_muted`. All instants
//! are epoch seconds handed in by the caller; the OS-side muting itself
//! sits behind the platform boundary.

use vstd::prelude::*;

use crate::text::{dec_str, u64_to_string};

verus! {

/// A bound on the epoch seconds this module accepts: comfortably past any
/// real wall-clock value, small enough that session arithmetic stays in
/// `i64`.
pub const MAX_EPOCH_SECONDS: i64 = 0x70000000000;

/// The focus mode types with their predefined durations.
#[derive(Clone, Copy, Debug, PartialEq, Eq, Structural)]
pub enum FocusMode {
    Focus1,
    Focus15,
    Focus25,
    DeepWork60,
    ClearInbox10,
    PrepForMeeting,
    /// A custom duration in minutes.
    Custom(u32),
}

impl FocusMode {
    /// The session length of this mode, in minutes.
    pub open spec fn spec_duration_minutes(self) -> u32 {
        match self {
            FocusMode::Focus1 => 1,
            FocusMode::Focus15 => 15,
            FocusMode::Focus25 => 25,
            FocusMode::DeepWork60 => 60,
            FocusMode::ClearInbox10 => 10,
            FocusMode::PrepForMeeting => 15,
            FocusMode::Custom(minutes) => minutes,
        }
    }

    pub fn duration_minutes(&self) -> (r: u32)
        ensures
            r == self.spec_duration_minutes(),
    {
        match self {
            FocusMode::Focus1 => 1,
            FocusMode::Focus15 => 15,
            FocusMode::Focus25 => 25,
            FocusMode::DeepWork60 => 60,
            FocusMode::ClearInbox10 => 10,
            FocusMode::PrepForMeeting => 15,
            FocusMode::Custom(minutes) => *minutes,
        }
    }

    /// The display name of this mode.
    pub open spec fn spec_name(self) -> Seq<char> {
        match self {
            FocusMode::Focus1 => "Focus 1"@,
            FocusMode::Focus15 => "Focus 15"@,
            FocusMode::Focus25 => "Focus 25"@,
            FocusMode::DeepWork60 => "Deep Work 60"@,
            FocusMode::ClearInbox10 => "Clear Inbox 10"@,
            FocusMode::PrepForMeeting => "Prep for Meeting"@,
            FocusMode::Custom(minutes) => "Custom "@ + dec_str(minutes as int) + " min"@,
        }
    }

    pub fn name(&self) -> (r: String)
        ensures
            r@ == self.spec_name(),
    {
        match self {
            FocusMode::Focus1 => String::from_str("Focus 1"),
            FocusMode::Focus15 => String::from_str("Focus 15"),
            FocusMode::Focus25 => String::from_str("Focus 25"),
            FocusMode::DeepWork60 => String::from_str("Deep Work 60"),
            FocusMode::ClearInbox10 => String::from_str("Clear Inbox 10"),
            FocusMode::PrepForMeeting => String::from_str("Prep for Meeting"),
            FocusMode::Custom(minutes) => {
                let mut s = String::from_str("Custom ");
                let digits = u64_to_string(*minutes as u64);
                s.append(digits.as_str());
                s.append(" min");
                s
            },
        }
    }
}

/// One focus session: its mode, start and end in epoch seconds, and the
/// remaining-time snapshot taken when it began.
#[derive(Clone, Copy, Debug, PartialEq, Eq, Structural)]
pub struct FocusSession {
    pub mode: FocusMode,
    pub start_time: i64,
    pub end_time: i64,
    pub duration_minutes: u32,
    pub is_active: bool,
    pub remaining_seconds: u64,
}

/// The focus-mode bookkeeping: the current session, whether notifications
/// are muted, and when a temporary mute expires.
pub struct FocusService {
    pub current_session: Option<FocusSession>,
    pub notification_state: bool,
    pub temporary_mute_end: Option<i64>,
}

impl FocusService {
    /// A session is currently active.
    pub open spec fn spec_is_active(self) -> bool {
        match self.current_session {
            Option::Some(s) => s.is_active,
            Option::None => false,
        }
    }

    pub fn new() -> (r: Self)
        ensures
            r.current_session is None,
            !r.notification_state,
            r.temporary_mute_end is None,
    {
        Self { current_session: None, notification_state: false, temporary_mute_end: None }
    }

    /// Start a focus session of the given mode at `now`. Fails if and
    /// only if a session is already active; otherwise the new session
    /// runs from `now` for the mode's duration.
    pub fn start_focus_mode(&mut self, mode: FocusMode, now: i64) -> (r: Result<
        FocusSession,
        String,
    >)
        requires
            -MAX_EPOCH_SECONDS <= now <= MAX_EPOCH_SECONDS,
        ensures
            final(self).notification_state == old(self).notification_state,
            final(self).temporary_mute_end == old(self).temporary_mute_end,
            match r {
                Ok(s) => {
                    &&& !old(self).spec_is_active()
                    &&& s.mode == mode
                    &&& s.start_time == now
                    &&& s.end_time == now + mode.spec_duration_minutes() * 60
                    &&& s.duration_minutes == mode.spec_duration_minutes()
                    &&& s.is_active
                    &&& s.remaining_seconds == mode.spec_duration_minutes() * 60
                    &&& final(self).current_session == Some(s)
                },
                Err(m) => {
                    &&& old(self).spec_is_active()
                    &&& *final(self) == *old(self)
                    &&& m@ == "A focus session is already active"@
                },
            },
    {
        match &self.current_session {
            Some(s) if s.is_active => Err(String::from_str("A focus session is already active")),
            _ => {
                let minutes = mode.duration_minutes();
                let duration_seconds: i64 = (minutes as i64) * 60;
                let session = FocusSession {
                    mode,
                    start_time: now,
                    end_time: now + duration_seconds,
                    duration_minutes: minutes,
                    is_active: true,
                    remaining_seconds: (minutes as u64) * 60,
                };
                self.current_session = Some(session);
                Ok(session)
            },
        }
    }

    /// Stop the active session. Fails if and only if none is active; on
    /// success the session is cleared. The caller restores notifications
    /// through the platform boundary.
    pub fn stop_focus_mode(&mut self) -> (r: Result<(), String>)
        ensures
            final(self).notification_state == old(self).notification_state,
            final(self).temporary_mute_end == old(self).temporary_mute_end,
            match r {
                Ok(_) => old(self).spec_is_active() && final(self).current_session is None,
                Err(m) => {
                    &&& !old(self).spec_is_active()
                    &&& *final(self) == *old(self)
                    &&& m@ == "No active focus session"@
                },
            },
    {
        if self.is_active() {
            self.current_session = None;
            Ok(())
        } else {
            Err(String::from_str("No active focus session"))
        }
    }

    /// The current session, if any.
    pub fn get_current_session(&self) -> (r: Option<FocusSession>)
        ensures
            r == self.current_session,
    {
        self.current_session
    }

    /// Seconds left in the active session at `now`: none without an
    /// active session, zero once the end has passed, the exact distance
    /// to the end otherwise.
    pub fn get_remaining_seconds(&self, now: i64) -> (r: Option<u64>)
        requires
            -MAX_EPOCH_SECONDS <= now <= MAX_EPOCH_SECONDS,
            match self.current_session {
                Option::Some(s) => -MAX_EPOCH_SECONDS <= s.end_time
                    <= 2 * MAX_EPOCH_SECONDS,
                Option::None => true,
            },
        ensures
            match self.current_session {
                Option::Some(s) => r == if !s.is_active {
                    Option::None::<u64>
                } else if now >= s.end_time {
                    Option::Some(0u64)
                } else {
                    Option::Some((s.end_time - now) as u64)
                },
                Option::None => r is None,
            },
    {
        match &self.current_session {
            Some(s) => {
                if !s.is_active {
                    return None;
                }
                if now >= s.end_time {
                    return Some(0);
                }
                Some((s.end_time - now) as u64)
            },
            None => None,
        }
    }

    /// A session exists and is active.
    pub fn is_active(&self) -> (r: bool)
        ensures
            r == self.spec_is_active(),
    {
        match &self.current_session {
            Some(s) => s.is_active,
            None => false,
        }
    }

    /// Record a temporary notification mute starting at `now`: the muted
    /// flag is set, and with a duration the expiry instant is recorded.
    /// The OS-side muting is the caller's platform call.
    pub fn temporarily_mute_notifications(&mut self, duration_minutes: Option<u32>, now: i64)
        requires
            -MAX_EPOCH_SECONDS <= now <= MAX_EPOCH_SECONDS,
        ensures
            final(self).current_session == old(self).current_session,
            final(self).notification_state,
            final(self).temporary_mute_end == match duration_minutes {
                Option::Some(m) => Option::Some((now + m * 60) as i64),
                Option::None => old(self).temporary_mute_end,
            },
    {
        self.notification_state = true;
        match duration_minutes {
            Some(m) => {
                let end: i64 = now + (m as i64) * 60;
                self.temporary_mute_end = Some(end);
            },
            None => {},
        }
    }

    /// Clear the muted flag and any pending expiry. The OS-side unmuting
    /// is the caller's platform call.
    pub fn unmute_notifications(&mut self)
        ensures
            final(self).current_session == old(self).current_session,
            !final(self).notification_state,
            final(self).temporary_mute_end is None,
    {
        self.temporary_mute_end = None;
        self.notification_state = false;
    }

    /// Seconds left on a temporary mute at `now`: only meaningful while
    /// an expiry is recorded and still ahead.
    pub fn get_temporary_mute_remaining(&self, now: i64) -> (r: Option<u64>)
        requires
            -MAX_EPOCH_SECONDS <= now <= MAX_EPOCH_SECONDS,
            match self.temporary_mute_end {
                Option::Some(e) => -MAX_EPOCH_SECONDS <= e <= 2 * MAX_EPOCH_SECONDS,
                Option::None => true,
            },
        ensures
            match self.temporary_mute_end {
                Option::Some(e) => r == if now < e {
                    Option::Some((e - now) as u64)
                } else {
                    Option::None::<u64>
                },
                Option::None => r is None,
            },
    {
        match &self.temporary_mute_end {
            Some(e) => {
                if now < *e {
                    Some((*e - now) as u64)
                } else {
                    None
                }
            },
            None => None,
        }
    }

    /// Whether notifications are currently muted — the collaborator
    /// interface the toggle path consults before re-muting or unmuting.
    pub fn is_notifications_muted(&self) -> (r: bool)
        ensures
            r == self.notification_state,
    {
        self.notification_state
    }
}

} // verus!
