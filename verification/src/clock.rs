//! Clock domain: the wall-clock time of day read from the system and the
//! verified label formatting the clock widget shows.

use vstd::prelude::*;
use chrono::Timelike;
use crate::text::{dec2_rep, two_digit_string};

verus! {

/// A wall-clock time of day.
#[derive(Clone, Copy, Debug, PartialEq, Eq, Structural)]
pub struct TimeOfDay {
    pub hour: u8,
    pub minute: u8,
    pub second: u8,
}

impl TimeOfDay {
    pub open spec fn wf(self) -> bool {
        self.hour < 24 && self.minute < 60 && self.second < 60
    }
}

/// Relies on chrono::Local::now and the Timelike accessors hour, minute and
/// second: the current time of day in the local time zone. The values
/// depend on the system clock, so nothing is promised about them beyond the
/// calendar ranges chrono keeps them in.
#[verifier::external_body]
fn local_time_of_day() -> (t: TimeOfDay)
    ensures
        t.wf(),
{
    let now = chrono::Local::now();
    TimeOfDay { hour: now.hour() as u8, minute: now.minute() as u8, second: now.second() as u8 }
}

/// The "HH:MM" rendering of a time of day, both fields zero padded.
pub open spec fn spec_clock_hm(t: TimeOfDay) -> Seq<char> {
    dec2_rep(t.hour as nat) + ":"@ + dec2_rep(t.minute as nat)
}

/// The "HH:MM:SS" rendering of a time of day, all fields zero padded.
pub open spec fn spec_clock_hms(t: TimeOfDay) -> Seq<char> {
    spec_clock_hm(t) + ":"@ + dec2_rep(t.second as nat)
}

/// Clock widget state: the last time of day read from the system.
#[derive(Clone, Copy, Debug)]
pub struct Clock {
    pub time: TimeOfDay,
}

impl Clock {
    /// A clock showing the current time.
    pub fn new() -> (r: Self)
        ensures
            r.time.wf(),
    {
        Clock { time: local_time_of_day() }
    }

    /// The periodic tick: re-reads the wall clock. Whatever instant the
    /// clock reports, the stored time stays within the calendar ranges.
    pub fn refresh(&mut self)
        ensures
            final(self).time.wf(),
    {
        self.time = local_time_of_day();
    }

    /// The "HH:MM" label.
    pub fn label_hm(&self) -> (r: String)
        requires
            self.time.wf(),
        ensures
            r@ == spec_clock_hm(self.time),
    {
        let mut s = two_digit_string(self.time.hour as u64);
        s.append(":");
        let m = two_digit_string(self.time.minute as u64);
        s.append(m.as_str());
        proof {
            assert(s@ =~= spec_clock_hm(self.time));
        }
        s
    }

    /// The "HH:MM:SS" label.
    pub fn label_hms(&self) -> (r: String)
        requires
            self.time.wf(),
        ensures
            r@ == spec_clock_hms(self.time),
    {
        let mut s = self.label_hm();
        s.append(":");
        let sec = two_digit_string(self.time.second as u64);
        s.append(sec.as_str());
        proof {
            assert(s@ =~= spec_clock_hms(self.time));
        }
        s
    }
}

} // verus!
