//! Calendar records as the overlay consumes them: events with plain
//! epoch-second instants, the provider tag, and the next-meeting lookup
//! over a cached event list. Fetching and authentication live at the
//! edge.

use vstd::prelude::*;

verus! {

/// Which calendar backend an event or a token belongs to.
#[derive(Clone, Copy, Debug, PartialEq, Eq, Hash, Structural)]
pub enum CalendarProvider {
    Google,
    Microsoft,
}

/// One calendar event, instants in epoch seconds.
pub struct CalendarEvent {
    pub id: String,
    pub title: String,
    pub start_time: i64,
    pub end_time: i64,
    pub location: Option<String>,
    pub description: Option<String>,
}

/// The mathematical value of an event.
pub struct CalendarEventV {
    pub id: Seq<char>,
    pub title: Seq<char>,
    pub start_time: i64,
    pub end_time: i64,
}

impl View for CalendarEvent {
    type V = CalendarEventV;

    open spec fn view(&self) -> CalendarEventV {
        CalendarEventV {
            id: self.id@,
            title: self.title@,
            start_time: self.start_time,
            end_time: self.end_time,
        }
    }
}

impl Clone for CalendarEvent {
    fn clone(&self) -> (r: Self)
        ensures
            r@ == self@,
            r.location is Some == self.location is Some,
            r.description is Some == self.description is Some,
    {
        CalendarEvent {
            id: self.id.clone(),
            title: self.title.clone(),
            start_time: self.start_time,
            end_time: self.end_time,
            location: match &self.location {
                Some(l) => Some(l.clone()),
                None => None,
            },
            description: match &self.description {
                Some(d) => Some(d.clone()),
                None => None,
            },
        }
    }
}

/// An upcoming event strictly after `now`.
pub open spec fn upcoming(e: CalendarEventV, now: i64) -> bool {
    e.start_time > now
}

/// The next upcoming meeting: the earliest start strictly after `now`,
/// ties going to the earliest-listed event.
pub fn get_next_meeting(events: &Vec<CalendarEvent>, now: i64) -> (r: Option<CalendarEvent>)
    ensures
        match r {
            Some(e) => {
                &&& upcoming(e@, now)
                &&& exists|j: int| 0 <= j < events@.len() && (#[trigger] events@[j])@ == e@
                &&& forall|j: int|
                    0 <= j < events@.len() && upcoming((#[trigger] events@[j])@, now)
                        ==> e@.start_time <= events@[j]@.start_time
            },
            None => forall|j: int|
                0 <= j < events@.len() ==> !upcoming((#[trigger] events@[j])@, now),
        },
{
    let mut best: Option<CalendarEvent> = None;
    let ghost evs = events@;
    let mut j: usize = 0;
    while j < events.len()
        invariant
            0 <= j <= events@.len(),
            evs == events@,
            match best {
                Option::Some(b) => {
                    &&& upcoming(b@, now)
                    &&& exists|k: int| 0 <= k < j && (#[trigger] evs[k])@ == b@
                    &&& forall|k: int|
                        0 <= k < j && upcoming((#[trigger] evs[k])@, now) ==> b@.start_time
                            <= evs[k]@.start_time
                },
                Option::None => forall|k: int| 0 <= k < j ==> !upcoming((#[trigger] evs[k])@, now),
            },
        decreases events@.len() - j,
    {
        if events[j].start_time > now {
            let better = match &best {
                Some(b) => events[j].start_time < b.start_time,
                None => true,
            };
            if better {
                let c = events[j].clone();
                proof {
                    assert(evs[j as int]@ == c@);
                }
                best = Some(c);
            }
        }
        j = j + 1;
    }
    best
}

/// Seconds until the next upcoming meeting, if one exists.
pub fn time_until_next_meeting(events: &Vec<CalendarEvent>, now: i64) -> (r: Option<i64>)
    requires
        -0x2000_0000_0000_0000 <= now <= 0x2000_0000_0000_0000,
        forall|j: int|
            0 <= j < events@.len() ==> -0x2000_0000_0000_0000 <= (#[trigger] events@[j]).start_time
                <= 0x2000_0000_0000_0000,
    ensures
        match r {
            Some(s) => s > 0 && exists|j: int|
                0 <= j < events@.len() && upcoming((#[trigger] events@[j])@, now)
                    && s == events@[j]@.start_time - now && forall|k: int|
                    0 <= k < events@.len() && upcoming((#[trigger] events@[k])@, now)
                        ==> events@[j]@.start_time <= events@[k]@.start_time,
            None => forall|j: int|
                0 <= j < events@.len() ==> !upcoming((#[trigger] events@[j])@, now),
        },
{
    match get_next_meeting(events, now) {
        Some(e) => {
            proof {
                let j = choose|j: int|
                    0 <= j < events@.len() && (#[trigger] events@[j])@ == e@;
                assert(events@[j].start_time == e.start_time);
            }
            Some(e.start_time - now)
        },
        None => None,
    }
}

} // verus!
