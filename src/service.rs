//! The booking orchestrator: validates requests, asks the engine, and shapes
//! responses for availability checks, creation, listing and cancellation.
use vstd::prelude::*;

use crate::api;
use crate::api::{
    BookingInput, OpeningHoursSpecification, CancelBookingRequest, Code, GetBookingsRequest, GetBookingsResponse,
    GetSlotResponse, Slot, SlotInput, Status, Venue,
};
use crate::engine::{
    allocation, first_free, free_slots, free_starts, get_free_table, get_opening_times, instants,
    lemma_allocation_deterministic, lemma_free_starts_bounded, opening_window, table_free, window_from,
    text_of, texts, MAX_DAY, MAX_INSTANT,
};
use crate::ident::{format_uuid, parse_uuid, random_uuid, uuid_text, uuid_value};
use crate::listing::{
    bookings_filter, filter_outcome, list_response, lists, present_booking, presents,
};
use crate::models::{Booking, BookingsFilter};
use crate::time::{
    weekday_of, date_of, day_of, format_rfc3339, parse_rfc3339, rfc3339_instant, rfc3339_text,
    MAX_PARSED_INSTANT,
};

verus! {

/// A request that passed validation: the venue, the requested start (UTC
/// seconds, and the offset it was written with), its calendar day and the
/// venue's opening window on that day.
#[derive(Clone, Copy, Debug, PartialEq, Eq)]
pub struct RequestPlan {
    pub venue: u128,
    pub starts_at: i64,
    pub offset: i32,
    pub date: i64,
    pub opens: i64,
    pub closes: i64,
}

impl RequestPlan {
    pub open spec fn wf(&self) -> bool {
        &&& -MAX_PARSED_INSTANT <= self.starts_at <= MAX_PARSED_INSTANT
        &&& -86400 < self.offset < 86400
        &&& -MAX_DAY <= self.date <= MAX_DAY
        &&& -MAX_INSTANT <= self.opens <= MAX_INSTANT
        &&& -MAX_INSTANT <= self.closes <= MAX_INSTANT
    }

    pub open spec fn spec_fields(&self) -> (u128, int, int, int, int, int) {
        (
            self.venue,
            self.starts_at as int,
            self.offset as int,
            self.date as int,
            self.opens as int,
            self.closes as int,
        )
    }
}

/// How a request for `duration` minutes from `starts_at` at `venue_id` fares
/// against the venue's opening hours and `n_tables` candidate tables, checked in
/// this order: the start must parse, the venue must be open that day with
/// readable hours, the stay must lie within the opening window, some table must
/// be large enough, and the venue identifier must parse.
pub open spec fn plan_outcome(
    venue_id: Seq<char>,
    starts_at: Seq<char>,
    duration: int,
    venue: Venue,
    n_tables: int,
) -> Result<(u128, int, int, int, int, int), Code> {
    match rfc3339_instant(starts_at) {
        None => Err(Code::InvalidArgument),
        Some((t, off)) => match opening_window(venue, day_of(t)) {
            Err(c) => Err(c),
            Ok((o, c)) => if t < o || t + duration * 60 > c {
                Err(Code::InvalidArgument)
            } else if n_tables == 0 {
                Err(Code::InvalidArgument)
            } else {
                match uuid_value(venue_id) {
                    None => Err(Code::InvalidArgument),
                    Some(v) => Ok((v, t, off, day_of(t), o, c)),
                }
            },
        },
    }
}

pub open spec fn plan_view(r: Result<RequestPlan, Status>) -> Result<
    (u128, int, int, int, int, int),
    Code,
> {
    match r {
        Ok(p) => Ok(p.spec_fields()),
        Err(e) => Err(e.code),
    }
}

/// Validation never fails with `NotFound`.
pub proof fn lemma_plan_never_not_found(
    venue_id: Seq<char>,
    starts_at: Seq<char>,
    duration: int,
    venue: Venue,
    n_tables: int,
)
    ensures
        plan_outcome(venue_id, starts_at, duration, venue, n_tables) != Err::<
            (u128, int, int, int, int, int),
            Code,
        >(Code::NotFound),
{
    if let Some((t, off)) = rfc3339_instant(starts_at) {
        lemma_window_never_not_found(venue.opening_hours@, day_of(t), 0);
    }
}

proof fn lemma_window_never_not_found(hours: Seq<OpeningHoursSpecification>, date: int, i: int)
    ensures
        window_from(hours, date, i) != Err::<(int, int), Code>(Code::NotFound),
    decreases hours.len() - i,
{
    if 0 <= i < hours.len() && hours[i].day_of_week != weekday_of(date) {
        lemma_window_never_not_found(hours, date, i + 1);
    }
}

/// Reads the requested start: the instant in UTC seconds and the offset it was
/// written with, or `InvalidArgument` when it is not an RFC 3339 timestamp.
pub fn request_start(starts_at: &str) -> (r: Result<(i64, i32), Status>)
    ensures
        match rfc3339_instant(starts_at@) {
            None => r matches Err(e) && e.code == Code::InvalidArgument,
            Some((t, off)) => r matches Ok((t1, off1)) && t1 == t && off1 == off,
        },
        r matches Ok((t, off)) ==> -MAX_PARSED_INSTANT <= t <= MAX_PARSED_INSTANT && -86400 < off
            < 86400,
{
    match parse_rfc3339(starts_at) {
        Some(p) => Ok(p),
        None => Err(Status::invalid_argument("could not parse starting date time")),
    }
}

/// Validates a request against the venue's opening hours and the tables large
/// enough for the party.
pub fn plan_request(
    venue_id: &str,
    starts_at: &str,
    duration: u32,
    venue: &Venue,
    tables_with_capacity: &[String],
) -> (r: Result<RequestPlan, Status>)
    ensures
        plan_view(r) == plan_outcome(
            venue_id@,
            starts_at@,
            duration as int,
            *venue,
            tables_with_capacity@.len() as int,
        ),
        r matches Ok(p) ==> p.wf(),
{
    let (start, offset) = match request_start(starts_at) {
        Ok(p) => p,
        Err(e) => {
            return Err(e);
        },
    };
    let date = date_of(start);
    let (opens, closes) = match get_opening_times(venue, date) {
        Ok(w) => w,
        Err(e) => {
            return Err(e);
        },
    };
    if start < opens || start + duration as i64 * 60 > closes {
        return Err(Status::invalid_argument("venue is closed at that time"));
    }
    if tables_with_capacity.len() == 0 {
        return Err(Status::invalid_argument("venue does not have tables that large"));
    }
    let venue_uuid = match parse_uuid(venue_id) {
        Some(v) => v,
        None => {
            return Err(Status::invalid_argument("could not parse uuid"));
        },
    };
    Ok(RequestPlan { venue: venue_uuid, starts_at: start, offset, date, opens, closes })
}

/// The slot shows the given venue, requester, party size, duration and times.
pub open spec fn shows_slot(
    s: Slot,
    request: SlotInput,
    starts_at: Seq<char>,
    ends_at: Seq<char>,
) -> bool {
    &&& s.venue_id@ == request.venue_id@
    &&& s.email@ == request.email@
    &&& s.people == request.people
    &&& s.duration == request.duration
    &&& s.starts_at@ == starts_at
    &&& s.ends_at@ == ends_at
}

/// The answer to an availability check: every free start time of the day, in
/// ascending order and written in UTC, and the requested slot, as it was
/// written, exactly when its start is among them.
pub open spec fn answers(
    r: GetSlotResponse,
    request: SlotInput,
    plan: RequestPlan,
    tables: Seq<Seq<char>>,
    bookings: Seq<Booking>,
) -> bool {
    let d = request.duration as int;
    let free = free_starts(tables, bookings, d, plan.opens as int, plan.closes as int);
    &&& r.other_available_slots@.len() == free.len()
    &&& forall|i: int|
        0 <= i < free.len() ==> shows_slot(
            #[trigger] r.other_available_slots@[i],
            request,
            rfc3339_text(free[i], 0),
            rfc3339_text(free[i] + d * 60, 0),
        )
    &&& if free.contains(plan.starts_at as int) {
        r.exact_match matches Some(m) && shows_slot(
            m,
            request,
            request.starts_at@,
            rfc3339_text(plan.starts_at + d * 60, plan.offset as int),
        )
    } else {
        r.exact_match is None
    }
}

fn slot_of(request: &SlotInput, starts_at: String, ends_at: String) -> (r: Slot)
    ensures
        shows_slot(r, *request, starts_at@, ends_at@),
{
    Slot {
        venue_id: request.venue_id.clone(),
        email: request.email.clone(),
        people: request.people,
        starts_at,
        ends_at,
        duration: request.duration,
    }
}

/// Answers an availability check for a validated request, given the tables
/// large enough for the party and the bookings of the venue on that day.
pub fn check_availability(
    request: &SlotInput,
    plan: &RequestPlan,
    tables_with_capacity: &[String],
    bookings: &[Booking],
) -> (r: GetSlotResponse)
    requires
        plan.wf(),
    ensures
        answers(r, *request, *plan, texts(tables_with_capacity@), bookings@),
{
    let duration = request.duration as i64;
    let free = free_slots(duration, tables_with_capacity, bookings, plan.opens, plan.closes);
    let ghost tables = texts(tables_with_capacity@);
    let ghost spec_free = free_starts(
        tables,
        bookings@,
        duration as int,
        plan.opens as int,
        plan.closes as int,
    );
    proof {
        lemma_free_starts_bounded(
            tables,
            bookings@,
            duration as int,
            plan.closes as int,
            plan.opens as int,
        );
    }
    let mut others: Vec<Slot> = Vec::new();
    let mut found = false;
    let mut i: usize = 0;
    while i < free.len()
        invariant
            0 <= i <= free.len(),
            duration == request.duration as i64,
            plan.wf(),
            instants(free@) == spec_free,
            forall|j: int|
                0 <= j < spec_free.len() ==> plan.opens <= #[trigger] spec_free[j] && spec_free[j]
                    + duration * 60 <= plan.closes,
            others@.len() == i,
            forall|j: int|
                0 <= j < i ==> shows_slot(
                    #[trigger] others@[j],
                    *request,
                    rfc3339_text(spec_free[j], 0),
                    rfc3339_text(spec_free[j] + duration * 60, 0),
                ),
            found == exists|j: int| 0 <= j < i && spec_free[j] == plan.starts_at,
        decreases free.len() - i,
    {
        let t = free[i];
        assert(spec_free[i as int] == t as int);
        let starts = format_rfc3339(t, 0);
        let ends = format_rfc3339(t + duration * 60, 0);
        others.push(slot_of(request, starts, ends));
        if t == plan.starts_at {
            found = true;
        }
        i = i + 1;
    }
    let exact_match = if found {
        let ends = format_rfc3339(plan.starts_at + duration * 60, plan.offset);
        Some(slot_of(request, request.starts_at.clone(), ends))
    } else {
        None
    };
    GetSlotResponse { exact_match, other_available_slots: others }
}

/// The record stored for a confirmed booking of `input` on table `table` under
/// identifier `id`.
pub open spec fn records(
    rec: Booking,
    input: BookingInput,
    plan: RequestPlan,
    table: u128,
    id: u128,
) -> bool {
    &&& rec.id == id
    &&& rec.customer_email@ == input.email@
    &&& rec.venue_id == plan.venue
    &&& rec.table_id == table
    &&& rec.people == input.people as i32
    &&& rec.date == plan.date
    &&& rec.starts_at == plan.starts_at
    &&& rec.ends_at == plan.starts_at + input.duration * 60
    &&& rec.duration == input.duration as i32
    &&& rec.name@ == input.name@
    &&& rec.given_name@ == input.given_name@
}

/// The confirmation returned for a booking of `input` starting at `starts_at`
/// on the table written `table`: the request's own fields as written, the end
/// written at the request's `offset`.
pub open spec fn confirms(
    resp: api::Booking,
    input: BookingInput,
    starts_at: int,
    offset: int,
    table: Seq<char>,
) -> bool {
    &&& resp.venue_id@ == input.venue_id@
    &&& resp.email@ == input.email@
    &&& resp.people == input.people
    &&& resp.starts_at@ == input.starts_at@
    &&& resp.ends_at@ == rfc3339_text(starts_at + input.duration * 60, offset)
    &&& resp.duration == input.duration
    &&& resp.table_id@ == table
    &&& resp.name@ == input.name@
    &&& resp.given_name@ == input.given_name@
}

/// Builds the record to store and the confirmation to return once a table has
/// been chosen for a validated request; the table identifier must parse.
pub fn confirm_booking(input: &BookingInput, plan: &RequestPlan, table_id: String, id: u128) -> (r:
    Result<(Booking, api::Booking), Status>)
    requires
        plan.wf(),
    ensures
        match uuid_value(table_id@) {
            None => r matches Err(e) && e.code == Code::Internal,
            Some(table) => r matches Ok((rec, resp)) && records(rec, *input, *plan, table, id)
                && confirms(resp, *input, plan.starts_at as int, plan.offset as int, table_id@)
                && resp.id@ == uuid_text(id),
        },
{
    let table = match parse_uuid(table_id.as_str()) {
        Some(t) => t,
        None => {
            return Err(Status::internal("could not parse table uuid"));
        },
    };
    let duration = input.duration as i64;
    let ends_at = plan.starts_at + duration * 60;
    let record = Booking {
        id,
        customer_email: input.email.clone(),
        venue_id: plan.venue,
        table_id: table,
        people: input.people as i32,
        date: plan.date,
        starts_at: plan.starts_at,
        ends_at,
        duration: input.duration as i32,
        name: input.name.clone(),
        given_name: input.given_name.clone(),
    };
    let response = api::Booking {
        id: format_uuid(id),
        venue_id: input.venue_id.clone(),
        email: input.email.clone(),
        people: input.people,
        starts_at: input.starts_at.clone(),
        ends_at: format_rfc3339(ends_at, plan.offset),
        duration: input.duration,
        table_id,
        name: input.name.clone(),
        given_name: input.given_name.clone(),
    };
    Ok((record, response))
}

/// A booking confirmed for a request is found again by a listing for the same
/// venue and start: the listing's filter admits the stored record, the record is
/// well formed, and the listing presents the request's email, party size,
/// duration and names, its venue and its start.
pub proof fn lemma_created_booking_is_listed(
    input: BookingInput,
    venue: Venue,
    n_tables: int,
    plan: RequestPlan,
    table: u128,
    id: u128,
    rec: Booking,
    listing: GetBookingsRequest,
    shown: api::Booking,
)
    requires
        plan_view(Ok(plan)) == plan_outcome(
            input.venue_id@,
            input.starts_at@,
            input.duration as int,
            venue,
            n_tables,
        ),
        records(rec, input, plan, table, id),
        listing.venue_id@ == input.venue_id@,
        listing.date@ == input.starts_at@,
        presents(shown, rec),
        input.people <= i32::MAX,
        input.duration <= i32::MAX,
    ensures
        filter_outcome(listing.venue_id@, listing.date@) matches Ok(f) && f.admits(rec),
        rec.wf(),
        shown.email@ == input.email@,
        shown.people == input.people,
        shown.duration == input.duration,
        shown.name@ == input.name@,
        shown.given_name@ == input.given_name@,
        uuid_value(input.venue_id@) == Some(rec.venue_id),
        shown.venue_id@ == uuid_text(rec.venue_id),
        rfc3339_instant(input.starts_at@) matches Some((t, _)) && rec.starts_at == t
            && shown.starts_at@ == rfc3339_text(t, 0),
{
}

/// Every row belongs to venue `venue` on day `day`.
pub open spec fn of_day(rows: Seq<Booking>, venue: u128, day: int) -> bool {
    forall|i: int| 0 <= i < rows.len() ==> #[trigger] rows[i].venue_id == venue && rows[i].date == day
}

/// No candidate table is free for a stay of `duration` minutes from `s`.
pub open spec fn none_free(tables: Seq<Seq<char>>, bookings: Seq<Booking>, s: int, duration: int) -> bool {
    forall|j: int| 0 <= j < tables.len() ==> !#[trigger] table_free(tables[j], bookings, s, duration)
}

/// Over some bookings of venue `venue` on day `day`, the allocator picks `table`.
pub open spec fn allocated_on_day(
    tables: Seq<Seq<char>>,
    venue: u128,
    day: int,
    s: int,
    duration: int,
    table: Seq<char>,
) -> bool {
    exists|bookings: Seq<Booking>| #[trigger]
        of_day(bookings, venue, day) && allocation(tables, bookings, s, duration, Some(table))
}

/// Over some bookings of venue `venue` on day `day`, no candidate is free.
pub open spec fn taken_on_day(
    tables: Seq<Seq<char>>,
    venue: u128,
    day: int,
    s: int,
    duration: int,
) -> bool {
    exists|bookings: Seq<Booking>| #[trigger]
        of_day(bookings, venue, day) && none_free(tables, bookings, s, duration)
}

/// The store query for all bookings of venue `venue` on day `day`: that filter,
/// unpaged.
pub fn day_query(venue: u128, day: i64) -> (r: (BookingsFilter, Option<i32>, Option<i32>))
    ensures
        r == (BookingsFilter { venue: Some(venue), day: Some(day) }, None::<i32>, None::<i32>),
{
    (BookingsFilter { venue: Some(venue), day: Some(day) }, None, None)
}

/// The store query for one page of a listing: the request's filter, page and limit.
pub fn page_query(filter: BookingsFilter, request: &GetBookingsRequest) -> (r: (
    BookingsFilter,
    Option<i32>,
    Option<i32>,
))
    ensures
        r == (filter, Some(request.page), Some(request.limit)),
{
    (filter, Some(request.page), Some(request.limit))
}

/// Accepts the rows that a store answered for `filter` only if the filter admits
/// every one of them; else `Internal`.
pub fn check_rows(filter: &BookingsFilter, rows: Vec<Booking>) -> (r: Result<Vec<Booking>, Status>)
    ensures
        (forall|i: int| 0 <= i < rows@.len() ==> #[trigger] filter.admits(rows@[i])) ==> r
            == Ok::<Vec<Booking>, Status>(rows),
        !(forall|i: int| 0 <= i < rows@.len() ==> #[trigger] filter.admits(rows@[i])) ==> (r matches Err(
            e,
        ) && e.code == Code::Internal),
{
    let mut i: usize = 0;
    while i < rows.len()
        invariant
            0 <= i <= rows.len(),
            forall|j: int| 0 <= j < i ==> #[trigger] filter.admits(rows@[j]),
        decreases rows.len() - i,
    {
        if !filter.matches(&rows[i]) {
            return Err(Status::internal("store returned a booking outside the filter"));
        }
        i = i + 1;
    }
    Ok(rows)
}

/// Picks the table for a validated creation request over the venue's bookings
/// of the day and confirms it under `id`: `NotFound` exactly when no candidate
/// is free; else the table that `allocation` picks, which must parse as a UUID
/// (else `Internal`).
pub fn allocate_booking(
    input: &BookingInput,
    plan: &RequestPlan,
    tables_with_capacity: &[String],
    bookings: &[Booking],
    id: u128,
) -> (r: Result<(Booking, api::Booking), Status>)
    requires
        plan.wf(),
    ensures
        none_free(
            texts(tables_with_capacity@),
            bookings@,
            plan.starts_at as int,
            input.duration as int,
        ) <==> (r matches Err(e) && e.code == Code::NotFound),
        r matches Err(e) ==> e.code == Code::NotFound || e.code == Code::Internal,
        r matches Ok((rec, resp)) ==> allocation(
            texts(tables_with_capacity@),
            bookings@,
            plan.starts_at as int,
            input.duration as int,
            Some(resp.table_id@),
        ),
        forall|t: Seq<char>|
            #[trigger] allocation(
                texts(tables_with_capacity@),
                bookings@,
                plan.starts_at as int,
                input.duration as int,
                Some(t),
            ) ==> match uuid_value(t) {
                None => r matches Err(e) && e.code == Code::Internal,
                Some(table) => r matches Ok((rec, resp)) && resp.table_id@ == t && records(
                    rec,
                    *input,
                    *plan,
                    table,
                    id,
                ) && confirms(resp, *input, plan.starts_at as int, plan.offset as int, t)
                    && resp.id@ == uuid_text(id),
            },
{
    let ghost tables = texts(tables_with_capacity@);
    let ghost s = plan.starts_at as int;
    let ghost d = input.duration as int;
    let found = get_free_table(
        input.duration as i64,
        tables_with_capacity,
        bookings,
        plan.starts_at,
    );
    proof {
        assert forall|t: Seq<char>| #[trigger] allocation(tables, bookings@, s, d, Some(t)) implies text_of(
            found,
        ) == Some(t) by {
            lemma_allocation_deterministic(tables, bookings@, s, d, text_of(found), Some(t));
        }
    }
    match found {
        None => {
            assert(none_free(tables, bookings@, s, d));
            Err(Status::not_found("could not find a free slot"))
        },
        Some(table_id) => {
            let ghost t = table_id@;
            proof {
                assert(allocation(tables, bookings@, s, d, Some(t)));
                let k = choose|k: int| #[trigger] first_free(tables, bookings@, s, d, k) && tables[k] == t;
                assert(table_free(tables[k], bookings@, s, d));
                assert(!none_free(tables, bookings@, s, d));
            }
            let r = confirm_booking(input, plan, table_id, id);
            assert(r matches Ok((rec, resp)) ==> resp.table_id@ == t);
            r
        },
    }
}

/// Durable storage of confirmed bookings.
pub trait Repository {
    /// The bookings that the filter admits, ascending by start; with a page
    /// and a limit, at most `limit + 1` of them from offset `page * limit`.
    fn get_bookings(
        &self,
        filter: BookingsFilter,
        page: Option<i32>,
        limit: Option<i32>,
    ) -> Result<Vec<Booking>, Status>;

    /// Stores a new booking.
    fn create_booking(&self, new_booking: &Booking) -> Result<(), Status>;

    /// Removes the booking with the given identifier and returns it.
    fn cancel_booking(&self, id: u128) -> Result<Booking, Status>;

    /// The number of bookings that the filter admits.
    fn count_bookings(&self, filter: &BookingsFilter) -> Result<i64, Status>;
}

/// A source of fresh booking identifiers.
pub trait UuidGetter {
    fn uuid(&self) -> u128;
}

/// Random (version 4) booking identifiers.
pub struct GetUuid;

impl UuidGetter for GetUuid {
    fn uuid(&self) -> u128 {
        random_uuid()
    }
}

/// A failure of the store reported as `Internal`, keeping its message.
fn store_failure(e: Status) -> (r: Status)
    ensures
        r.code == Code::Internal,
{
    Status::new(Code::Internal, e.message.as_str())
}

/// The booking orchestrator over a booking store and an identifier source.
pub struct BookingService<R: Repository, U: UuidGetter> {
    repository: R,
    uuid: U,
}

impl<R: Repository, U: UuidGetter> BookingService<R, U> {
    /// The store the service reads and writes.
    pub closed spec fn repository(&self) -> R {
        self.repository
    }

    /// The source of new booking identifiers.
    pub closed spec fn generator(&self) -> U {
        self.uuid
    }

    pub fn new(repository: R, uuid: U) -> (r: Self)
        ensures
            r.repository() == repository,
            r.generator() == uuid,
    {
        BookingService { repository, uuid }
    }

    /// All bookings of venue `venue` on day `day`, read with `day_query`; a
    /// failing store, or rows outside the filter, give `Internal`.
    fn get_bookings_by_date(&self, venue: u128, day: i64) -> (r: Result<Vec<Booking>, Status>)
        ensures
            r matches Ok(rows) ==> of_day(rows@, venue, day as int),
            r matches Err(e) ==> e.code == Code::Internal,
    {
        let (filter, page, limit) = day_query(venue, day);
        let rows = match self.repository.get_bookings(filter, page, limit) {
            Ok(rows) => rows,
            Err(e) => {
                return Err(store_failure(e));
            },
        };
        let r = check_rows(&filter, rows);
        proof {
            if r is Ok {
                let kept = r->Ok_0;
                assert forall|i: int| 0 <= i < kept@.len() implies #[trigger] kept@[i].venue_id
                    == venue && kept@[i].date == day by {
                    assert(filter.admits(kept@[i]));
                }
            }
        }
        r
    }

    /// Checks availability for a request, given the venue's description and the
    /// identifiers of its tables large enough for the party. Validation failures
    /// come as `plan_outcome` says, and a failing store gives `Internal`; on
    /// success the answer is `answers` over bookings of the requested venue and
    /// day as the store returned them.
    pub fn get_slot(&self, slot: SlotInput, venue: &Venue, tables_with_capacity: Vec<String>) -> (r:
        Result<GetSlotResponse, Status>)
        ensures
            plan_outcome(
                slot.venue_id@,
                slot.starts_at@,
                slot.duration as int,
                *venue,
                tables_with_capacity@.len() as int,
            ) matches Err(c) ==> (r matches Err(e) && e.code == c),
            plan_outcome(
                slot.venue_id@,
                slot.starts_at@,
                slot.duration as int,
                *venue,
                tables_with_capacity@.len() as int,
            ) is Ok ==> (r matches Err(e) ==> e.code == Code::Internal),
            r matches Ok(resp) ==> exists|p: RequestPlan, bookings: Seq<Booking>|
                {
                    &&& plan_view(Ok(p)) == plan_outcome(
                        slot.venue_id@,
                        slot.starts_at@,
                        slot.duration as int,
                        *venue,
                        tables_with_capacity@.len() as int,
                    )
                    &&& of_day(bookings, p.venue, p.date as int)
                    &&& #[trigger] answers(resp, slot, p, texts(tables_with_capacity@), bookings)
                },
    {
        let plan = match plan_request(
            slot.venue_id.as_str(),
            slot.starts_at.as_str(),
            slot.duration,
            venue,
            tables_with_capacity.as_slice(),
        ) {
            Ok(p) => p,
            Err(e) => {
                return Err(e);
            },
        };
        let bookings = match self.get_bookings_by_date(plan.venue, plan.date) {
            Ok(b) => b,
            Err(e) => {
                return Err(e);
            },
        };
        let resp = check_availability(&slot, &plan, tables_with_capacity.as_slice(), bookings.as_slice());
        assert(answers(resp, slot, plan, texts(tables_with_capacity@), bookings@));
        Ok(resp)
    }

    /// Books the least-loaded free table for a request, given the venue's
    /// description and the identifiers of its tables large enough for the
    /// party. Validation failures come as `plan_outcome` says. Otherwise, over
    /// the bookings of the requested venue and day as the store returned them:
    /// `NotFound` when no candidate is free; else the confirmation is
    /// `confirms` for the table that `allocation` picks, under a fresh
    /// identifier. A failing store or an unreadable table identifier gives
    /// `Internal`.
    pub fn create_booking(
        &self,
        input: BookingInput,
        venue: &Venue,
        tables_with_capacity: Vec<String>,
    ) -> (r: Result<api::Booking, Status>)
        ensures
            plan_outcome(
                input.venue_id@,
                input.starts_at@,
                input.duration as int,
                *venue,
                tables_with_capacity@.len() as int,
            ) matches Err(c) ==> (r matches Err(e) && e.code == c),
            plan_outcome(
                input.venue_id@,
                input.starts_at@,
                input.duration as int,
                *venue,
                tables_with_capacity@.len() as int,
            ) is Ok ==> (r matches Err(e) ==> e.code == Code::NotFound || e.code == Code::Internal),
            r matches Err(e) && e.code == Code::NotFound ==> (plan_outcome(
                input.venue_id@,
                input.starts_at@,
                input.duration as int,
                *venue,
                tables_with_capacity@.len() as int,
            ) matches Ok(f) && taken_on_day(
                texts(tables_with_capacity@),
                f.0,
                f.3,
                f.1,
                input.duration as int,
            )),
            r matches Ok(resp) ==> (plan_outcome(
                input.venue_id@,
                input.starts_at@,
                input.duration as int,
                *venue,
                tables_with_capacity@.len() as int,
            ) matches Ok(f) && confirms(resp, input, f.1, f.2, resp.table_id@) && allocated_on_day(
                texts(tables_with_capacity@),
                f.0,
                f.3,
                f.1,
                input.duration as int,
                resp.table_id@,
            ) && exists|id: u128| resp.id@ == #[trigger] uuid_text(id)),
    {
        proof {
            lemma_plan_never_not_found(
                input.venue_id@,
                input.starts_at@,
                input.duration as int,
                *venue,
                tables_with_capacity@.len() as int,
            );
        }
        let plan = match plan_request(
            input.venue_id.as_str(),
            input.starts_at.as_str(),
            input.duration,
            venue,
            tables_with_capacity.as_slice(),
        ) {
            Ok(p) => p,
            Err(e) => {
                return Err(e);
            },
        };
        let bookings = match self.get_bookings_by_date(plan.venue, plan.date) {
            Ok(b) => b,
            Err(e) => {
                return Err(e);
            },
        };
        let ghost tables = texts(tables_with_capacity@);
        let ghost s = plan.starts_at as int;
        let ghost d = input.duration as int;
        let id = self.uuid.uuid();
        let (record, response) = match allocate_booking(
            &input,
            &plan,
            tables_with_capacity.as_slice(),
            bookings.as_slice(),
            id,
        ) {
            Ok(pair) => pair,
            Err(e) => {
                if e.code == Code::NotFound {
                    assert(none_free(tables, bookings@, s, d));
                    assert(of_day(bookings@, plan.venue, plan.date as int));
                    assert(taken_on_day(tables, plan.venue, plan.date as int, s, d));
                }
                return Err(e);
            },
        };
        assert(of_day(bookings@, plan.venue, plan.date as int));
        assert(allocated_on_day(tables, plan.venue, plan.date as int, s, d, response.table_id@));
        match self.repository.create_booking(&record) {
            Ok(()) => {},
            Err(e) => {
                return Err(store_failure(e));
            },
        }
        Ok(response)
    }

    /// One page of the bookings that the request's filter admits, read with
    /// `page_query`. A malformed filter fails as `filter_outcome` says, a limit
    /// below one or a negative page with `InvalidArgument`; on success the page
    /// is `lists` over the rows and count as the store returned them.
    pub fn get_bookings(&self, request: GetBookingsRequest) -> (r: Result<
        GetBookingsResponse,
        Status,
    >)
        ensures
            filter_outcome(request.venue_id@, request.date@) matches Err(c) ==> (r matches Err(e)
                && e.code == c),
            filter_outcome(request.venue_id@, request.date@) is Ok && (request.limit < 1
                || request.page < 0) ==> (r matches Err(e) && e.code == Code::InvalidArgument),
            r matches Ok(resp) ==> request.limit >= 1 && resp.bookings@.len() <= request.limit
                && exists|rows: Seq<Booking>, count: int| #[trigger]
                lists(resp, rows, count, request.limit as int),
    {
        let filter = match bookings_filter(&request) {
            Ok(f) => f,
            Err(e) => {
                return Err(e);
            },
        };
        if request.limit < 1 || request.page < 0 {
            return Err(Status::invalid_argument("page and limit must be positive"));
        }
        let count = match self.repository.count_bookings(&filter) {
            Ok(c) => c,
            Err(e) => {
                return Err(e);
            },
        };
        let (filter, page, limit) = page_query(filter, &request);
        let rows = match self.repository.get_bookings(filter, page, limit) {
            Ok(b) => b,
            Err(e) => {
                return Err(e);
            },
        };
        let ghost all = rows@;
        let resp = match list_response(rows, count, request.limit) {
            Ok(resp) => resp,
            Err(e) => {
                return Err(e);
            },
        };
        assert(lists(resp, all, count as int, request.limit as int));
        Ok(resp)
    }

    /// Cancels a booking and returns what was stored. A malformed identifier
    /// fails with `InvalidArgument`; on success the result presents the record
    /// that the store removed.
    pub fn cancel_booking(&self, request: CancelBookingRequest) -> (r: Result<api::Booking, Status>)
        ensures
            uuid_value(request.id@) is None ==> (r matches Err(e) && e.code
                == Code::InvalidArgument),
            r matches Ok(resp) ==> uuid_value(request.id@) is Some && exists|b: Booking| #[trigger]
                presents(resp, b),
    {
        let id = match parse_uuid(request.id.as_str()) {
            Some(id) => id,
            None => {
                return Err(Status::invalid_argument("could not parse uuid"));
            },
        };
        let removed = match self.repository.cancel_booking(id) {
            Ok(b) => b,
            Err(e) => {
                return Err(e);
            },
        };
        let resp = match present_booking(&removed) {
            Ok(a) => a,
            Err(e) => {
                return Err(e);
            },
        };
        assert(presents(resp, removed));
        Ok(resp)
    }
}

} // verus!
