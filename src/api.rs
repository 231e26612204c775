//! The request and response shapes of the booking service, and its errors.
use vstd::prelude::*;

verus! {

/// A booking as the service presents it: identifiers and instants as text.
#[derive(Clone, Debug, PartialEq, Eq)]
pub struct Booking {
    pub id: String,
    pub venue_id: String,
    pub email: String,
    pub people: u32,
    pub starts_at: String,
    pub ends_at: String,
    pub duration: u32,
    pub table_id: String,
    pub name: String,
    pub given_name: String,
}

/// A candidate or confirmed time window for a party at a venue.
#[derive(Clone, Debug, PartialEq, Eq)]
pub struct Slot {
    pub venue_id: String,
    pub email: String,
    pub people: u32,
    pub starts_at: String,
    pub ends_at: String,
    pub duration: u32,
}

/// A request to check availability.
#[derive(Clone, Debug, PartialEq, Eq)]
pub struct SlotInput {
    pub venue_id: String,
    pub email: String,
    pub people: u32,
    pub starts_at: String,
    pub duration: u32,
}

/// A request to create a booking.
#[derive(Clone, Debug, PartialEq, Eq)]
pub struct BookingInput {
    pub venue_id: String,
    pub email: String,
    pub people: u32,
    pub starts_at: String,
    pub duration: u32,
    pub name: String,
    pub given_name: String,
}

/// The answer to an availability check: the requested slot if it is free, and
/// every free slot of the day in ascending order.
#[derive(Clone, Debug, PartialEq, Eq)]
pub struct GetSlotResponse {
    pub exact_match: Option<Slot>,
    pub other_available_slots: Vec<Slot>,
}

/// A request for one page of bookings; an empty `venue_id` or `date` does not constrain.
#[derive(Clone, Debug, PartialEq, Eq)]
pub struct GetBookingsRequest {
    pub venue_id: String,
    pub date: String,
    pub page: i32,
    pub limit: i32,
}

/// One page of bookings.
#[derive(Clone, Debug, PartialEq, Eq)]
pub struct GetBookingsResponse {
    pub bookings: Vec<Booking>,
    pub has_next_page: bool,
    pub pages: i32,
}

/// A request to cancel a booking.
#[derive(Clone, Debug, PartialEq, Eq)]
pub struct CancelBookingRequest {
    pub id: String,
}

/// Regular opening hours for one day of the week (1 = Monday ... 7 = Sunday),
/// as `HH:MM` wall-clock strings.
#[derive(Clone, Debug, PartialEq, Eq)]
pub struct OpeningHoursSpecification {
    pub day_of_week: u32,
    pub opens: String,
    pub closes: String,
    pub valid_from: String,
    pub valid_through: String,
}

/// A venue as the venue directory describes it.
#[derive(Clone, Debug, PartialEq, Eq)]
pub struct Venue {
    pub id: String,
    pub name: String,
    pub opening_hours: Vec<OpeningHoursSpecification>,
    pub special_opening_hours: Vec<OpeningHoursSpecification>,
    pub slug: String,
}

/// A table of a venue.
#[derive(Clone, Debug, PartialEq, Eq)]
pub struct Table {
    pub id: String,
    pub name: String,
    pub capacity: u32,
}

/// An access token as the identity provider issues it.
#[derive(Clone, Debug, PartialEq, Eq, Default)]
pub struct Token {
    pub access_token: String,
    pub token_type: String,
}

/// The kind of a failure.
#[derive(Clone, Copy, Debug, PartialEq, Eq, Structural)]
pub enum Code {
    /// The request is malformed or cannot be served as asked.
    InvalidArgument,
    /// The request is well-formed but nothing satisfies it.
    NotFound,
    /// A collaborator failed or handed back unusable data.
    Internal,
}

/// A failure with its kind and a message.
#[derive(Clone, Debug, PartialEq, Eq)]
pub struct Status {
    pub code: Code,
    pub message: String,
}

impl Status {
    pub fn new(code: Code, message: &str) -> (r: Status)
        ensures
            r.code == code,
            r.message@ == message@,
    {
        Status { code, message: message.to_string() }
    }

    pub fn invalid_argument(message: &str) -> (r: Status)
        ensures
            r.code == Code::InvalidArgument,
            r.message@ == message@,
    {
        Status::new(Code::InvalidArgument, message)
    }

    pub fn not_found(message: &str) -> (r: Status)
        ensures
            r.code == Code::NotFound,
            r.message@ == message@,
    {
        Status::new(Code::NotFound, message)
    }

    pub fn internal(message: &str) -> (r: Status)
        ensures
            r.code == Code::Internal,
            r.message@ == message@,
    {
        Status::new(Code::Internal, message)
    }
}

} // verus!
