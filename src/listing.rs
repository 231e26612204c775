//! Listing stored bookings: the filter a request asks for, pagination, and the
//! presentation of stored records.
use vstd::prelude::*;

use crate::api;
use crate::api::{Code, GetBookingsRequest, GetBookingsResponse, Status};
use crate::ident::{format_uuid, parse_uuid, uuid_text, uuid_value};
use crate::models::{Booking, BookingsFilter};
use crate::time::{
    date_of, day_of, format_rfc3339, parse_rfc3339, rfc3339_instant, rfc3339_text,
    MAX_FORMATTED_INSTANT,
};

verus! {

/// The filter that a listing request asks for: an empty venue identifier or
/// date does not constrain; a non-empty one must parse (else `InvalidArgument`),
/// and a date constrains to the UTC calendar day of the instant it denotes.
pub open spec fn filter_outcome(venue_id: Seq<char>, date: Seq<char>) -> Result<BookingsFilter, Code> {
    let venue = if venue_id.len() == 0 {
        Ok(None)
    } else {
        match uuid_value(venue_id) {
            Some(v) => Ok(Some(v)),
            None => Err(Code::InvalidArgument),
        }
    };
    let day = if date.len() == 0 {
        Ok(None)
    } else {
        match rfc3339_instant(date) {
            Some((t, _)) => Ok(Some(day_of(t) as i64)),
            None => Err(Code::InvalidArgument),
        }
    };
    match (venue, day) {
        (Ok(v), Ok(d)) => Ok(BookingsFilter { venue: v, day: d }),
        (Err(c), _) => Err(c),
        (_, Err(c)) => Err(c),
    }
}

pub open spec fn filter_view(r: Result<BookingsFilter, Status>) -> Result<BookingsFilter, Code> {
    match r {
        Ok(f) => Ok(f),
        Err(e) => Err(e.code),
    }
}

/// The filter that a listing request asks for.
pub fn bookings_filter(request: &GetBookingsRequest) -> (r: Result<BookingsFilter, Status>)
    ensures
        filter_view(r) == filter_outcome(request.venue_id@, request.date@),
{
    let venue = if request.venue_id.as_str().is_empty() {
        None
    } else {
        match parse_uuid(request.venue_id.as_str()) {
            Some(v) => Some(v),
            None => {
                return Err(Status::invalid_argument("could not parse uuid"));
            },
        }
    };
    let day = if request.date.as_str().is_empty() {
        None
    } else {
        match parse_rfc3339(request.date.as_str()) {
            Some((t, _)) => Some(date_of(t)),
            None => {
                return Err(Status::invalid_argument("could not parse date"));
            },
        }
    };
    Ok(BookingsFilter { venue, day })
}

/// Number of pages of `limit` rows that `count` rows fill, the last one possibly
/// partly.
pub open spec fn pages_for(count: int, limit: int) -> int {
    if count % limit == 0 {
        count / limit
    } else {
        count / limit + 1
    }
}

/// The page count is the ceiling of `count / limit`.
pub proof fn lemma_pages_for_is_ceiling(count: int, limit: int)
    requires
        count >= 0,
        limit >= 1,
    ensures
        pages_for(count, limit) == (count + limit - 1) / limit,
        (pages_for(count, limit) - 1) * limit < count <= pages_for(count, limit) * limit,
{
    let q = count / limit;
    let m = count % limit;
    assert(count == q * limit + m && 0 <= m < limit) by (nonlinear_arith)
        requires
            limit >= 1,
            q == count / limit,
            m == count % limit,
    ;
    if m == 0 {
        assert((count + limit - 1) / limit == q) by (nonlinear_arith)
            requires
                count == q * limit,
                limit >= 1,
        ;
    } else {
        assert((count + limit - 1) / limit == q + 1) by (nonlinear_arith)
            requires
                count == q * limit + m,
                1 <= m < limit,
        ;
    }
    assert((pages_for(count, limit) - 1) * limit < count <= pages_for(count, limit) * limit)
        by (nonlinear_arith)
        requires
            count == q * limit + m,
            0 <= m < limit,
            pages_for(count, limit) == if m == 0 {
                q
            } else {
                q + 1
            },
    ;
}

/// The page count for `count` matching rows, or nothing when the count is
/// negative or the page count does not fit an `i32`.
pub fn page_count(count: i64, limit: i32) -> (r: Option<i32>)
    requires
        limit >= 1,
    ensures
        r matches Some(p) ==> count >= 0 && p == pages_for(count as int, limit as int),
        r is None ==> count < 0 || pages_for(count as int, limit as int) > i32::MAX,
{
    if count < 0 {
        return None;
    }
    let l = limit as i64;
    let q = count / l;
    if count % l == 0 {
        if q > i32::MAX as i64 {
            None
        } else {
            Some(q as i32)
        }
    } else {
        if q >= i32::MAX as i64 {
            None
        } else {
            Some((q + 1) as i32)
        }
    }
}

/// Trims a page read with one row beyond `limit` down to `limit` rows, and
/// reports whether there was more than `limit`, that is, whether a next page exists.
pub fn paginate(rows: &mut Vec<Booking>, limit: i32) -> (has_next_page: bool)
    requires
        limit >= 1,
    ensures
        has_next_page == (old(rows)@.len() > limit),
        has_next_page ==> final(rows)@ == old(rows)@.take(limit as int),
        !has_next_page ==> final(rows)@ == old(rows)@,
        final(rows)@.len() <= limit,
{
    let has_next_page = rows.len() > limit as usize;
    if has_next_page {
        rows.truncate(limit as usize);
    }
    has_next_page
}

/// The presented booking shows the stored record: identifiers as UUID text and
/// instants in UTC.
pub open spec fn presents(a: api::Booking, b: Booking) -> bool {
    &&& a.id@ == uuid_text(b.id)
    &&& a.venue_id@ == uuid_text(b.venue_id)
    &&& a.email@ == b.customer_email@
    &&& a.people == b.people as u32
    &&& a.starts_at@ == rfc3339_text(b.starts_at as int, 0)
    &&& a.ends_at@ == rfc3339_text(b.ends_at as int, 0)
    &&& a.duration == b.duration as u32
    &&& a.table_id@ == uuid_text(b.table_id)
    &&& a.name@ == b.name@
    &&& a.given_name@ == b.given_name@
}

/// The record's instants can be written out.
pub open spec fn presentable(b: Booking) -> bool {
    &&& -MAX_FORMATTED_INSTANT <= b.starts_at <= MAX_FORMATTED_INSTANT
    &&& -MAX_FORMATTED_INSTANT <= b.ends_at <= MAX_FORMATTED_INSTANT
}

/// Presents a stored booking; fails with `Internal` when its instants are out
/// of range.
pub fn present_booking(b: &Booking) -> (r: Result<api::Booking, Status>)
    ensures
        presentable(*b) ==> (r matches Ok(a) && presents(a, *b)),
        !presentable(*b) ==> (r matches Err(e) && e.code == Code::Internal),
{
    if b.starts_at < -MAX_FORMATTED_INSTANT || b.starts_at > MAX_FORMATTED_INSTANT
        || b.ends_at < -MAX_FORMATTED_INSTANT || b.ends_at > MAX_FORMATTED_INSTANT {
        return Err(Status::internal("stored booking time out of range"));
    }
    Ok(
        api::Booking {
            id: format_uuid(b.id),
            venue_id: format_uuid(b.venue_id),
            email: b.customer_email.clone(),
            people: b.people as u32,
            starts_at: format_rfc3339(b.starts_at, 0),
            ends_at: format_rfc3339(b.ends_at, 0),
            duration: b.duration as u32,
            table_id: format_uuid(b.table_id),
            name: b.name.clone(),
            given_name: b.given_name.clone(),
        },
    )
}

/// The page that `rows` (read with one row beyond `limit`) and `count`
/// matching rows make: at most `limit` presented rows, whether a next page
/// exists, and the page count.
pub open spec fn lists(
    resp: GetBookingsResponse,
    rows: Seq<Booking>,
    count: int,
    limit: int,
) -> bool {
    let shown = if rows.len() > limit {
        rows.take(limit)
    } else {
        rows
    };
    &&& resp.has_next_page == (rows.len() > limit)
    &&& resp.pages == pages_for(count, limit)
    &&& resp.bookings@.len() == shown.len()
    &&& forall|i: int| 0 <= i < shown.len() ==> presents(#[trigger] resp.bookings@[i], shown[i])
}

/// The rows of a page that are shown.
pub open spec fn shown_rows(rows: Seq<Booking>, limit: int) -> Seq<Booking> {
    if rows.len() > limit {
        rows.take(limit)
    } else {
        rows
    }
}

/// Shapes one page of a listing from the rows read and the matching count.
pub fn list_response(rows: Vec<Booking>, count: i64, limit: i32) -> (r: Result<
    GetBookingsResponse,
    Status,
>)
    requires
        limit >= 1,
    ensures
        r is Ok <==> (count >= 0 && pages_for(count as int, limit as int) <= i32::MAX && forall|
            i: int,
        |
            0 <= i < shown_rows(rows@, limit as int).len() ==> presentable(
                #[trigger] shown_rows(rows@, limit as int)[i],
            )),
        r matches Err(e) ==> e.code == Code::Internal,
        r matches Ok(resp) ==> lists(resp, rows@, count as int, limit as int),
{
    let pages = match page_count(count, limit) {
        Some(p) => p,
        None => {
            assert(!(count >= 0 && pages_for(count as int, limit as int) <= i32::MAX));
            return Err(Status::internal("could not count bookings"));
        },
    };
    let mut page = rows;
    let has_next_page = paginate(&mut page, limit);
    assert(page@ == shown_rows(rows@, limit as int));
    let mut bookings: Vec<api::Booking> = Vec::new();
    let mut i: usize = 0;
    while i < page.len()
        invariant
            0 <= i <= page.len(),
            page@ == shown_rows(rows@, limit as int),
            bookings@.len() == i,
            forall|j: int| 0 <= j < i ==> presentable(#[trigger] page@[j]),
            forall|j: int| 0 <= j < i ==> presents(#[trigger] bookings@[j], page@[j]),
        decreases page.len() - i,
    {
        match present_booking(&page[i]) {
            Ok(a) => bookings.push(a),
            Err(e) => {
                assert(!presentable(shown_rows(rows@, limit as int)[i as int]));
                return Err(e);
            },
        }
        i = i + 1;
    }
    assert(forall|j: int|
        0 <= j < shown_rows(rows@, limit as int).len() ==> presentable(
            #[trigger] shown_rows(rows@, limit as int)[j],
        ));
    Ok(GetBookingsResponse { bookings, has_next_page, pages })
}

} // verus!
