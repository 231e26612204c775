//! Stored bookings and the filter over them.
use vstd::prelude::*;

use crate::time::day_of;

verus! {

/// A confirmed booking as the booking store holds it.
///
/// Identifiers are 128-bit UUID values, `date` is a day number and
/// `starts_at` / `ends_at` are UTC instants in seconds.
#[derive(Clone, Debug, PartialEq, Eq)]
pub struct Booking {
    pub id: u128,
    pub customer_email: String,
    pub venue_id: u128,
    pub table_id: u128,
    pub people: i32,
    pub date: i64,
    pub starts_at: i64,
    pub ends_at: i64,
    pub duration: i32,
    pub name: String,
    pub given_name: String,
}

impl Booking {
    /// A well-formed booking ends `duration` minutes after it starts, on the
    /// calendar day of its start.
    pub open spec fn wf(&self) -> bool {
        &&& self.ends_at == self.starts_at + self.duration * 60
        &&& self.date == day_of(self.starts_at as int)
    }
}

/// A conjunctive filter over stored bookings; an absent field does not constrain.
#[derive(Clone, Copy, Debug, PartialEq, Eq)]
pub struct BookingsFilter {
    pub venue: Option<u128>,
    pub day: Option<i64>,
}

impl BookingsFilter {
    pub open spec fn admits(&self, b: Booking) -> bool {
        &&& (self.venue matches Some(v) ==> b.venue_id == v)
        &&& (self.day matches Some(d) ==> b.date == d)
    }

    /// Whether the filter admits the booking.
    pub fn matches(&self, b: &Booking) -> (r: bool)
        ensures
            r == self.admits(*b),
    {
        let venue_ok = match self.venue {
            Some(v) => b.venue_id == v,
            None => true,
        };
        let day_ok = match self.day {
            Some(d) => b.date == d,
            None => true,
        };
        venue_ok && day_ok
    }
}

} // verus!
