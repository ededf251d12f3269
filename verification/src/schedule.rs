//! When a block list is in force: its own switch and its weekly schedule.

use vstd::prelude::*;
use crate::external::{duration_secs, duration_since_epoch, local_day_and_seconds, system_time_now};
use crate::types::{weekday_of_index, BlockList, LocalMoment, Schedule, TimeSlot, Weekday};

verus! {

/// The slot covers the given time of day.
pub open spec fn slot_covers(slot: TimeSlot, seconds: u32) -> bool {
    if slot.start <= slot.end {
        slot.start <= seconds < slot.end
    } else {
        seconds >= slot.start || seconds < slot.end
    }
}

/// A reading of the local clock is either a well-formed moment or `None`,
/// which stands for a clock that could not be read.
pub open spec fn reading_wf(now: Option<LocalMoment>) -> bool {
    match now {
        Some(m) => m.wf(),
        None => true,
    }
}

/// A moment that exists: Monday, midnight.
pub open spec fn some_moment() -> LocalMoment {
    LocalMoment { day: Weekday::Mon, seconds: 0 }
}

/// The moment the clock readings give: the local day (its number of days
/// from Monday) and time of day, where there is a time since the Unix epoch
/// and a local day and time for it; `None` otherwise.
pub open spec fn spec_moment_from_clock(
    since_epoch_secs: Option<u64>,
    local: Option<(u32, u32)>,
) -> Option<LocalMoment> {
    match since_epoch_secs {
        None => None,
        Some(_) => match local {
            Some(v) => Some(LocalMoment { day: weekday_of_index(v.0), seconds: v.1 }),
            None => None,
        },
    }
}

/// Builds the moment from the clock readings: the seconds since the Unix
/// epoch, if the clock is not before it, and the local day (days from
/// Monday) and time of day (seconds since midnight) for them.
pub fn moment_from_clock(since_epoch_secs: Option<u64>, local: Option<(u32, u32)>) -> (r: Option<
    LocalMoment,
>)
    ensures
        r == spec_moment_from_clock(since_epoch_secs, local),
{
    match since_epoch_secs {
        None => None,
        Some(_) => match local {
            Some((day, seconds)) => Some(
                LocalMoment { day: Weekday::from_days_from_monday(day), seconds },
            ),
            None => None,
        },
    }
}

/// The current local moment, read from the clock: built by
/// `moment_from_clock` from the seconds since the Unix epoch and the local
/// day and time chrono gives for them. `None` where the system clock is
/// before the epoch or beyond the range chrono converts; up to the end of
/// the year 9999 a clock after the epoch always gives a moment.
pub fn current_moment() -> (r: Option<LocalMoment>)
    ensures
        reading_wf(r),
        exists|since: Option<u64>, local: Option<(u32, u32)>|
            {
                &&& (since matches Some(s) && s <= 253_402_300_799 ==> local is Some)
                &&& (local matches Some(v) ==> v.0 < 7 && v.1 < 86400)
                &&& r == spec_moment_from_clock(since, local)
            },
{
    let t = system_time_now();
    let since: Option<u64> = match duration_since_epoch(&t) {
        Some(d) => Some(duration_secs(&d)),
        None => None,
    };
    let local: Option<(u32, u32)> = match since {
        Some(secs) => {
            if secs <= 9_223_372_036_854_775_807u64 {
                local_day_and_seconds(secs as i64)
            } else {
                None
            }
        },
        None => None,
    };
    moment_from_clock(since, local)
}

impl TimeSlot {
    /// Whether this slot covers `seconds` past midnight (on its own day).
    pub fn contains_time(&self, seconds: u32) -> (r: bool)
        ensures
            r == slot_covers(*self, seconds),
    {
        if self.start <= self.end {
            self.start <= seconds && seconds < self.end
        } else {
            seconds >= self.start || seconds < self.end
        }
    }
}

impl Schedule {
    /// Some slot of the schedule covers `now`.
    pub open spec fn some_slot_covers(&self, now: LocalMoment) -> bool {
        exists|i: int|
            0 <= i < self.time_slots@.len() && #[trigger] self.time_slots@[i].day == now.day
                && slot_covers(self.time_slots@[i], now.seconds)
    }

    /// The schedule lets its list block at `now`: it is switched off, it has
    /// no slots, or a slot on `now`'s day covers `now`'s time.
    pub open spec fn spec_active_at(&self, now: LocalMoment) -> bool {
        !self.enabled || self.time_slots@.len() == 0 || self.some_slot_covers(now)
    }

    /// The schedule places no restriction at any moment.
    pub open spec fn unrestricted(&self) -> bool {
        !self.enabled || self.time_slots@.len() == 0
    }

    /// Whether the schedule lets its list block at `now`.
    pub fn is_active_at(&self, now: LocalMoment) -> (r: bool)
        ensures
            r == self.spec_active_at(now),
    {
        if !self.enabled || self.time_slots.len() == 0 {
            return true;
        }
        let mut i: usize = 0;
        while i < self.time_slots.len()
            invariant
                i <= self.time_slots@.len(),
                forall|j: int|
                    0 <= j < i ==> !(#[trigger] self.time_slots@[j].day == now.day
                        && slot_covers(self.time_slots@[j], now.seconds)),
            decreases self.time_slots@.len() - i,
        {
            let slot = self.time_slots[i];
            if slot.day == now.day && slot.contains_time(now.seconds) {
                return true;
            }
            i = i + 1;
        }
        false
    }

    /// The schedule lets its list block by the clock reading `now`; where
    /// the clock could not be read (`None`), only a schedule that places no
    /// restriction at all does.
    pub open spec fn spec_active_when(&self, now: Option<LocalMoment>) -> bool {
        match now {
            Some(m) => self.spec_active_at(m),
            None => self.unrestricted(),
        }
    }

    /// The schedule lets its list block at no moment.
    pub open spec fn never_active(&self) -> bool {
        forall|m: LocalMoment| m.wf() ==> !#[trigger] self.spec_active_at(m)
    }

    /// Whether the schedule lets its list block now, by the local clock.
    /// Where the clock cannot be read, only a schedule that places no
    /// restriction lets its list block.
    pub fn is_active_now(&self) -> (r: bool)
        ensures
            exists|now: Option<LocalMoment>| reading_wf(now) && r == self.spec_active_when(now),
            self.unrestricted() ==> r,
            self.never_active() ==> !r,
    {
        proof {
            assert(some_moment().wf());
            assert(self.unrestricted() ==> self.spec_active_at(some_moment()));
        }
        match current_moment() {
            Some(now) => self.is_active_at(now),
            None => !self.enabled || self.time_slots.len() == 0,
        }
    }
}

impl BlockList {
    /// The list's schedule places no restriction.
    pub open spec fn unscheduled(&self) -> bool {
        match self.schedule {
            None => true,
            Some(s) => s.unrestricted(),
        }
    }

    /// The list is in force at `now`: switched on, and its schedule (if any)
    /// is active at `now`.
    pub open spec fn spec_active_at(&self, now: LocalMoment) -> bool {
        self.enabled && match self.schedule {
            None => true,
            Some(s) => s.spec_active_at(now),
        }
    }

    /// The list is in force by the clock reading `now`: switched on, and its
    /// schedule (if any) active by that reading.
    pub open spec fn spec_active_when(&self, now: Option<LocalMoment>) -> bool {
        self.enabled && match self.schedule {
            None => true,
            Some(s) => s.spec_active_when(now),
        }
    }

    /// The list is in force at no moment.
    pub open spec fn never_active(&self) -> bool {
        forall|m: LocalMoment| m.wf() ==> !#[trigger] self.spec_active_at(m)
    }

    /// Whether the list is in force at `now`.
    pub fn is_effectively_active_at(&self, now: LocalMoment) -> (r: bool)
        ensures
            r == self.spec_active_at(now),
    {
        if !self.enabled {
            return false;
        }
        match &self.schedule {
            None => true,
            Some(s) => s.is_active_at(now),
        }
    }

    /// Whether the list is in force now, by the local clock. Where the clock
    /// cannot be read, the list is in force only if it is switched on and
    /// its schedule places no restriction.
    pub fn is_effectively_active(&self) -> (r: bool)
        ensures
            exists|now: Option<LocalMoment>| reading_wf(now) && r == self.spec_active_when(now),
            r ==> self.enabled,
            self.unscheduled() ==> r == self.enabled,
            self.never_active() ==> !r,
    {
        proof {
            assert(some_moment().wf());
            assert(self.enabled && self.unscheduled() ==> self.spec_active_at(some_moment()));
        }
        match current_moment() {
            Some(now) => self.is_effectively_active_at(now),
            None => self.enabled && self.has_no_restriction(),
        }
    }

    /// Whether the list's schedule, if any, places no restriction.
    pub(crate) fn has_no_restriction(&self) -> (r: bool)
        ensures
            r == self.unscheduled(),
    {
        match &self.schedule {
            None => true,
            Some(s) => !s.enabled || s.time_slots.len() == 0,
        }
    }
}

} // verus!
