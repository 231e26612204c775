use std::cell::RefCell;

use booking_api::api::{
    self, BookingInput, CancelBookingRequest, Code, GetBookingsRequest, GetBookingsResponse,
    GetSlotResponse, OpeningHoursSpecification, Slot, SlotInput, Status, Venue,
};
use booking_api::listing::{page_count, paginate};
use booking_api::models::{Booking, BookingsFilter};
use booking_api::service::{
    allocate_booking, check_rows, day_query, page_query, plan_request, request_start,
    BookingService, GetUuid, Repository, UuidGetter,
};

const VENUE: &str = "3a3789ca-7174-4127-ae50-a644d69f1d27";
const TABLE: &str = "eb7a8544-1595-4b62-ab72-137dd03b538f";
const BOOKING_ID: &str = "5a77fdd3-9f2c-4096-8fc3-8eaae0d54e1d";
// 1992-05-01T15:00:00+00:00, a Friday.
const STARTS: i64 = 704732400;
const DAY: i64 = 8156;

fn uuid_of(s: &str) -> u128 {
    uuid::Uuid::parse_str(s).expect("could not parse uuid").as_u128()
}

/// An in-memory store that checks the arguments it is called with.
#[derive(Default)]
struct FakeStore {
    rows: RefCell<Vec<Booking>>,
    count: Option<i64>,
    expect_filter: Option<BookingsFilter>,
    expect_page: Option<(Option<i32>, Option<i32>)>,
    created: RefCell<Vec<Booking>>,
}

impl Repository for FakeStore {
    fn get_bookings(
        &self,
        filter: BookingsFilter,
        page: Option<i32>,
        limit: Option<i32>,
    ) -> Result<Vec<Booking>, Status> {
        if let Some(expected) = self.expect_filter {
            assert_eq!(filter, expected);
        }
        if let Some(expected) = self.expect_page {
            assert_eq!((page, limit), expected);
        }
        let mut rows: Vec<Booking> =
            self.rows.borrow().iter().filter(|b| filter.matches(b)).cloned().collect();
        rows.sort_by_key(|b| b.starts_at);
        if let (Some(page), Some(limit)) = (page, limit) {
            rows = rows.into_iter().skip((page * limit) as usize).take(limit as usize + 1).collect();
        }
        Ok(rows)
    }

    fn create_booking(&self, new_booking: &Booking) -> Result<(), Status> {
        self.created.borrow_mut().push(new_booking.clone());
        self.rows.borrow_mut().push(new_booking.clone());
        Ok(())
    }

    fn cancel_booking(&self, id: u128) -> Result<Booking, Status> {
        let mut rows = self.rows.borrow_mut();
        match rows.iter().position(|b| b.id == id) {
            Some(i) => Ok(rows.remove(i)),
            None => Err(Status::not_found("booking not found")),
        }
    }

    fn count_bookings(&self, filter: &BookingsFilter) -> Result<i64, Status> {
        if let Some(expected) = self.expect_filter {
            assert_eq!(*filter, expected);
        }
        match self.count {
            Some(c) => Ok(c),
            None => Ok(self.rows.borrow().iter().filter(|b| filter.matches(b)).count() as i64),
        }
    }
}

struct FixedUuid(u128);

impl UuidGetter for FixedUuid {
    fn uuid(&self) -> u128 {
        self.0
    }
}

fn test_venue() -> Venue {
    Venue {
        id: VENUE.to_string(),
        name: "test venue".to_string(),
        opening_hours: vec![OpeningHoursSpecification {
            day_of_week: 5,
            opens: "14:00".to_string(),
            closes: "16:00".to_string(),
            valid_from: "".to_string(),
            valid_through: "".to_string(),
        }],
        special_opening_hours: vec![],
        slug: "test-venue".to_string(),
    }
}

fn slot(starts_at: &str, ends_at: &str) -> Slot {
    Slot {
        venue_id: VENUE.to_string(),
        email: "test@test.com".to_string(),
        people: 4,
        starts_at: starts_at.to_string(),
        ends_at: ends_at.to_string(),
        duration: 60,
    }
}

fn slot_input(starts_at: &str) -> SlotInput {
    SlotInput {
        venue_id: VENUE.to_string(),
        email: "test@test.com".to_string(),
        people: 4,
        starts_at: starts_at.to_string(),
        duration: 60,
    }
}

fn booking_input(starts_at: &str) -> BookingInput {
    BookingInput {
        venue_id: VENUE.to_string(),
        email: "test@test.com".to_string(),
        people: 4,
        starts_at: starts_at.to_string(),
        duration: 60,
        name: "matthew cobbing".to_string(),
        given_name: "matthew".to_string(),
    }
}

fn stored(email: &str, venue: u128, table: u128, starts_at: i64, minutes: i64) -> Booking {
    Booking {
        id: uuid_of(BOOKING_ID),
        customer_email: email.to_string(),
        venue_id: venue,
        table_id: table,
        people: 4,
        date: DAY,
        starts_at,
        ends_at: starts_at + minutes * 60,
        duration: minutes as i32,
        name: "matthew cobbing".to_string(),
        given_name: "matthew".to_string(),
    }
}

fn day_filter(venue: &str) -> BookingsFilter {
    BookingsFilter { venue: Some(uuid_of(venue)), day: Some(DAY) }
}

#[test]
fn test_get_slot() {
    let repository = FakeStore {
        expect_filter: Some(day_filter(VENUE)),
        expect_page: Some((None, None)),
        ..Default::default()
    };
    let service = BookingService::new(repository, GetUuid);

    let result = service
        .get_slot(slot_input("1992-05-01T15:00:00+00:00"), &test_venue(), vec![TABLE.to_string()])
        .expect("did not expect error from get slot");

    assert_eq!(
        result,
        GetSlotResponse {
            exact_match: Some(slot("1992-05-01T15:00:00+00:00", "1992-05-01T16:00:00+00:00")),
            other_available_slots: vec![
                slot("1992-05-01T14:00:00+00:00", "1992-05-01T15:00:00+00:00"),
                slot("1992-05-01T14:30:00+00:00", "1992-05-01T15:30:00+00:00"),
                slot("1992-05-01T15:00:00+00:00", "1992-05-01T16:00:00+00:00"),
            ]
        }
    )
}

#[test]
fn test_create_booking() {
    let repository = FakeStore {
        expect_filter: Some(day_filter(VENUE)),
        expect_page: Some((None, None)),
        ..Default::default()
    };
    let service = BookingService::new(repository, FixedUuid(uuid_of(BOOKING_ID)));

    let result = service
        .create_booking(
            booking_input("1992-05-01T15:00:00+00:00"),
            &test_venue(),
            vec![TABLE.to_string()],
        )
        .expect("did not expect error from create booking");

    assert_eq!(
        result,
        api::Booking {
            id: BOOKING_ID.to_string(),
            venue_id: VENUE.to_string(),
            email: "test@test.com".to_string(),
            people: 4,
            starts_at: "1992-05-01T15:00:00+00:00".to_string(),
            ends_at: "1992-05-01T16:00:00+00:00".to_string(),
            duration: 60,
            table_id: TABLE.to_string(),
            name: "matthew cobbing".to_string(),
            given_name: "matthew".to_string()
        }
    );
}

#[test]
fn created_record_is_what_the_request_asked_for() {
    let repository = FakeStore::default();
    let service = BookingService::new(repository, FixedUuid(uuid_of(BOOKING_ID)));
    service
        .create_booking(booking_input("1992-05-01T15:00:00+00:00"), &test_venue(), vec![TABLE.to_string()])
        .expect("did not expect error from create booking");
    let listed = service
        .get_bookings(GetBookingsRequest {
            venue_id: VENUE.to_string(),
            date: "1992-05-01T15:00:00+00:00".to_string(),
            page: 0,
            limit: 10,
        })
        .expect("did not expect error from get bookings");
    assert_eq!(listed.bookings.len(), 1);
    let b = &listed.bookings[0];
    assert_eq!(b.email, "test@test.com");
    assert_eq!(b.people, 4);
    assert_eq!(b.duration, 60);
    assert_eq!(b.name, "matthew cobbing");
    assert_eq!(b.given_name, "matthew");
    assert_eq!(b.venue_id, VENUE);
    assert_eq!(b.starts_at, "1992-05-01T15:00:00+00:00");
    assert_eq!(b.ends_at, "1992-05-01T16:00:00+00:00");
    assert_eq!(b.table_id, TABLE);
    assert_eq!(b.id, BOOKING_ID);
}

#[test]
fn create_on_taken_table_is_not_found() {
    let repository = FakeStore::default();
    repository.rows.borrow_mut().push(stored("a@b.c", uuid_of(VENUE), uuid_of(TABLE), STARTS, 60));
    let service = BookingService::new(repository, FixedUuid(1));
    let err = service
        .create_booking(booking_input("1992-05-01T15:00:00+00:00"), &test_venue(), vec![TABLE.to_string()])
        .unwrap_err();
    assert_eq!(err.code, Code::NotFound);
}

#[test]
fn request_outside_opening_hours_is_invalid_argument() {
    let service = BookingService::new(FakeStore::default(), GetUuid);
    for start in ["1992-05-01T13:30:00+00:00", "1992-05-01T15:30:00+00:00", "1992-05-01T16:00:00+00:00"] {
        let err = service.get_slot(slot_input(start), &test_venue(), vec![TABLE.to_string()]).unwrap_err();
        assert_eq!(err.code, Code::InvalidArgument);
        assert_eq!(err.message, "venue is closed at that time");
    }
    let err = service
        .create_booking(booking_input("1992-05-01T13:00:00+00:00"), &test_venue(), vec![TABLE.to_string()])
        .unwrap_err();
    assert_eq!(err.code, Code::InvalidArgument);
}

#[test]
fn request_errors_by_kind() {
    let service = BookingService::new(FakeStore::default(), GetUuid);
    let venue = test_venue();
    let err = service.get_slot(slot_input("yesterday"), &venue, vec![TABLE.to_string()]).unwrap_err();
    assert_eq!(err.code, Code::InvalidArgument);
    // 1992-05-02 is a Saturday: no opening hours.
    let err = service
        .get_slot(slot_input("1992-05-02T15:00:00+00:00"), &venue, vec![TABLE.to_string()])
        .unwrap_err();
    assert_eq!(err.code, Code::InvalidArgument);
    let err = service.get_slot(slot_input("1992-05-01T15:00:00+00:00"), &venue, vec![]).unwrap_err();
    assert_eq!(err.code, Code::InvalidArgument);
    assert_eq!(err.message, "venue does not have tables that large");
    let mut bad_venue = slot_input("1992-05-01T15:00:00+00:00");
    bad_venue.venue_id = "not-a-uuid".to_string();
    let err = service.get_slot(bad_venue, &venue, vec![TABLE.to_string()]).unwrap_err();
    assert_eq!(err.code, Code::InvalidArgument);
    let err = service
        .create_booking(booking_input("1992-05-01T15:00:00+00:00"), &venue, vec!["table one".to_string()])
        .unwrap_err();
    assert_eq!(err.code, Code::Internal);
}

#[test]
fn exact_match_keeps_the_requested_offset() {
    let service = BookingService::new(FakeStore::default(), GetUuid);
    let result = service
        .get_slot(slot_input("1992-05-01T17:00:00+02:00"), &test_venue(), vec![TABLE.to_string()])
        .expect("did not expect error from get slot");
    let m = result.exact_match.expect("the requested slot is free");
    assert_eq!(m.starts_at, "1992-05-01T17:00:00+02:00");
    assert_eq!(m.ends_at, "1992-05-01T18:00:00+02:00");
    assert_eq!(result.other_available_slots.len(), 3);
}

#[test]
fn unaligned_request_has_no_exact_match() {
    let service = BookingService::new(FakeStore::default(), GetUuid);
    let result = service
        .get_slot(slot_input("1992-05-01T14:15:00+00:00"), &test_venue(), vec![TABLE.to_string()])
        .expect("did not expect error from get slot");
    assert_eq!(result.exact_match, None);
    assert_eq!(result.other_available_slots.len(), 3);
}

#[test]
fn taken_slot_is_left_out() {
    let repository = FakeStore::default();
    repository.rows.borrow_mut().push(stored("a@b.c", uuid_of(VENUE), uuid_of(TABLE), STARTS, 60));
    let service = BookingService::new(repository, GetUuid);
    let result = service
        .get_slot(slot_input("1992-05-01T15:00:00+00:00"), &test_venue(), vec![TABLE.to_string()])
        .expect("did not expect error from get slot");
    assert_eq!(result.exact_match, None);
    assert_eq!(
        result.other_available_slots,
        vec![slot("1992-05-01T14:00:00+00:00", "1992-05-01T15:00:00+00:00")]
    );
}

fn three_bookings_store(count: i64) -> FakeStore {
    let venue = uuid_of("0441d2c0-458d-4f4a-81cc-92e44807365b");
    let table = uuid_of(BOOKING_ID);
    let store = FakeStore {
        count: Some(count),
        expect_filter: Some(day_filter("0441d2c0-458d-4f4a-81cc-92e44807365b")),
        ..Default::default()
    };
    for email in ["test@test.com", "test2@test.com", "test3@test.com"] {
        store.rows.borrow_mut().push(stored(email, venue, table, STARTS, 30));
    }
    store
}

fn listed(email: &str) -> api::Booking {
    api::Booking {
        id: BOOKING_ID.to_string(),
        venue_id: "0441d2c0-458d-4f4a-81cc-92e44807365b".to_string(),
        email: email.to_string(),
        people: 4,
        starts_at: "1992-05-01T15:00:00+00:00".to_string(),
        ends_at: "1992-05-01T15:30:00+00:00".to_string(),
        duration: 30,
        table_id: BOOKING_ID.to_string(),
        name: "matthew cobbing".to_string(),
        given_name: "matthew".to_string(),
    }
}

#[test]
fn test_get_bookings() {
    let mut store = three_bookings_store(3);
    store.expect_page = Some((Some(0), Some(2)));
    let service = BookingService::new(store, GetUuid);

    let result = service
        .get_bookings(GetBookingsRequest {
            venue_id: "0441d2c0-458d-4f4a-81cc-92e44807365b".to_string(),
            date: "1992-05-01T15:00:00+00:00".to_string(),
            page: 0,
            limit: 2,
        })
        .expect("did not expect error from get bookings");

    assert_eq!(
        result,
        GetBookingsResponse {
            bookings: vec![listed("test@test.com"), listed("test2@test.com")],
            has_next_page: true,
            pages: 2
        }
    )
}

#[test]
fn test_get_bookings_no_bookings() {
    let store = FakeStore {
        count: Some(0),
        expect_filter: Some(day_filter("0441d2c0-458d-4f4a-81cc-92e44807365b")),
        expect_page: Some((Some(0), Some(5))),
        ..Default::default()
    };
    let service = BookingService::new(store, GetUuid);

    let result = service
        .get_bookings(GetBookingsRequest {
            venue_id: "0441d2c0-458d-4f4a-81cc-92e44807365b".to_string(),
            date: "1992-05-01T15:00:00+00:00".to_string(),
            page: 0,
            limit: 5,
        })
        .expect("did not expect error from get bookings");

    assert_eq!(result, GetBookingsResponse { bookings: vec![], has_next_page: false, pages: 0 })
}

#[test]
fn last_page_has_no_next_page() {
    let store = three_bookings_store(3);
    let service = BookingService::new(store, GetUuid);
    let result = service
        .get_bookings(GetBookingsRequest {
            venue_id: "0441d2c0-458d-4f4a-81cc-92e44807365b".to_string(),
            date: "1992-05-01T15:00:00+00:00".to_string(),
            page: 1,
            limit: 2,
        })
        .expect("did not expect error from get bookings");
    assert_eq!(result.bookings, vec![listed("test3@test.com")]);
    assert!(!result.has_next_page);
    assert_eq!(result.pages, 2);
}

#[test]
fn listing_errors_by_kind() {
    let service = BookingService::new(FakeStore::default(), GetUuid);
    let request = |venue_id: &str, date: &str, page: i32, limit: i32| GetBookingsRequest {
        venue_id: venue_id.to_string(),
        date: date.to_string(),
        page,
        limit,
    };
    assert_eq!(service.get_bookings(request("nope", "", 0, 2)).unwrap_err().code, Code::InvalidArgument);
    assert_eq!(service.get_bookings(request("", "May Day", 0, 2)).unwrap_err().code, Code::InvalidArgument);
    assert_eq!(service.get_bookings(request("", "", 0, 0)).unwrap_err().code, Code::InvalidArgument);
    assert_eq!(service.get_bookings(request("", "", -1, 2)).unwrap_err().code, Code::InvalidArgument);
    let empty = service.get_bookings(request("", "", 0, 2)).expect("no filter is fine");
    assert_eq!(empty, GetBookingsResponse { bookings: vec![], has_next_page: false, pages: 0 });
}

#[test]
fn pagination_trims_and_counts() {
    let row = stored("a@b.c", 1, 2, STARTS, 30);
    let mut rows = vec![row.clone(), row.clone(), row.clone()];
    assert!(paginate(&mut rows, 2));
    assert_eq!(rows.len(), 2);
    let mut rows = vec![row.clone(), row.clone()];
    assert!(!paginate(&mut rows, 2));
    assert_eq!(rows.len(), 2);
    let mut rows = vec![row.clone(), row.clone(), row.clone(), row];
    assert!(paginate(&mut rows, 1));
    assert_eq!(rows.len(), 1);
    assert_eq!(page_count(3, 2), Some(2));
    assert_eq!(page_count(4, 2), Some(2));
    assert_eq!(page_count(0, 5), Some(0));
    assert_eq!(page_count(1, 5), Some(1));
    assert_eq!(page_count(-1, 5), None);
    assert_eq!(page_count(i64::MAX, 1), None);
}

#[test]
fn test_cancel_booking() {
    let booking_id = "150dfddc-516f-443f-bb48-6add094e545d";
    let store = FakeStore::default();
    store.rows.borrow_mut().push(Booking {
        id: uuid_of(booking_id),
        customer_email: "test@test.com".to_string(),
        venue_id: uuid_of("0441d2c0-458d-4f4a-81cc-92e44807365b"),
        table_id: uuid_of("9dce92ae-1605-4045-8ec5-ba79ad2165b0"),
        people: 4,
        date: DAY,
        starts_at: STARTS,
        ends_at: STARTS + 60 * 60,
        duration: 60,
        name: "matthew cobbing".to_string(),
        given_name: "matthew".to_string(),
    });
    let service = BookingService::new(store, GetUuid);

    let result = service
        .cancel_booking(CancelBookingRequest { id: booking_id.to_string() })
        .expect("did not expect error from cancel booking");

    assert_eq!(
        result,
        api::Booking {
            id: booking_id.to_string(),
            venue_id: "0441d2c0-458d-4f4a-81cc-92e44807365b".to_string(),
            email: "test@test.com".to_string(),
            people: 4,
            starts_at: "1992-05-01T15:00:00+00:00".to_string(),
            ends_at: "1992-05-01T16:00:00+00:00".to_string(),
            duration: 60,
            table_id: "9dce92ae-1605-4045-8ec5-ba79ad2165b0".to_string(),
            name: "matthew cobbing".to_string(),
            given_name: "matthew".to_string()
        }
    )
}

#[test]
fn cancel_errors_by_kind() {
    let service = BookingService::new(FakeStore::default(), GetUuid);
    let err = service.cancel_booking(CancelBookingRequest { id: "xyz".to_string() }).unwrap_err();
    assert_eq!(err.code, Code::InvalidArgument);
    let err = service
        .cancel_booking(CancelBookingRequest { id: BOOKING_ID.to_string() })
        .unwrap_err();
    assert_eq!(err.code, Code::NotFound);
}

#[test]
fn stored_time_out_of_range_is_internal() {
    let store = FakeStore::default();
    store.rows.borrow_mut().push(stored("a@b.c", 1, 2, i64::MAX - 10, 0));
    let service = BookingService::new(store, GetUuid);
    let err = service
        .cancel_booking(CancelBookingRequest { id: BOOKING_ID.to_string() })
        .unwrap_err();
    assert_eq!(err.code, Code::Internal);
}

#[test]
fn requested_start_is_read_before_anything_else() {
    assert_eq!(request_start("1992-05-01T15:00:00+00:00"), Ok((STARTS, 0)));
    assert_eq!(request_start("1992-05-01T17:00:00+02:00"), Ok((STARTS, 7200)));
    assert_eq!(request_start("15:00").unwrap_err().code, Code::InvalidArgument);
}

#[test]
fn store_queries_are_fixed_by_the_request() {
    assert_eq!(day_query(7, DAY), (BookingsFilter { venue: Some(7), day: Some(DAY) }, None, None));
    let filter = BookingsFilter { venue: None, day: Some(DAY) };
    let request = GetBookingsRequest { venue_id: "".to_string(), date: "".to_string(), page: 3, limit: 4 };
    assert_eq!(page_query(filter, &request), (filter, Some(3), Some(4)));
}

#[test]
fn rows_outside_the_filter_are_refused() {
    let filter = day_filter(VENUE);
    let inside = stored("a@b.c", uuid_of(VENUE), 2, STARTS, 30);
    let outside = stored("a@b.c", uuid_of(TABLE), 2, STARTS, 30);
    assert_eq!(check_rows(&filter, vec![inside.clone()]), Ok(vec![inside.clone()]));
    assert_eq!(check_rows(&filter, vec![inside, outside]).unwrap_err().code, Code::Internal);
}

#[test]
fn store_answering_another_venue_is_internal() {
    let repository = FakeStore::default();
    repository.rows.borrow_mut().push(stored("a@b.c", uuid_of(TABLE), uuid_of(TABLE), STARTS, 60));
    struct Careless(FakeStore);
    impl Repository for Careless {
        fn get_bookings(&self, _: BookingsFilter, p: Option<i32>, l: Option<i32>) -> Result<Vec<Booking>, Status> {
            self.0.get_bookings(BookingsFilter { venue: None, day: None }, p, l)
        }
        fn create_booking(&self, b: &Booking) -> Result<(), Status> {
            self.0.create_booking(b)
        }
        fn cancel_booking(&self, id: u128) -> Result<Booking, Status> {
            self.0.cancel_booking(id)
        }
        fn count_bookings(&self, f: &BookingsFilter) -> Result<i64, Status> {
            self.0.count_bookings(f)
        }
    }
    let service = BookingService::new(Careless(repository), GetUuid);
    let err = service
        .get_slot(slot_input("1992-05-01T15:00:00+00:00"), &test_venue(), vec![TABLE.to_string()])
        .unwrap_err();
    assert_eq!(err.code, Code::Internal);
}

#[test]
fn allocation_miss_is_not_found_and_hit_is_confirmed() {
    let venue = test_venue();
    let tables = vec![TABLE.to_string()];
    let input = booking_input("1992-05-01T15:00:00+00:00");
    let plan = plan_request(&input.venue_id, &input.starts_at, input.duration, &venue, &tables)
        .expect("request is valid");
    let taken = vec![stored("a@b.c", uuid_of(VENUE), uuid_of(TABLE), STARTS, 60)];
    let err = allocate_booking(&input, &plan, &tables, &taken, 9).unwrap_err();
    assert_eq!(err.code, Code::NotFound);
    assert_eq!(err.message, "could not find a free slot");
    let (record, response) = allocate_booking(&input, &plan, &tables, &[], 9).expect("table is free");
    assert_eq!(record.table_id, uuid_of(TABLE));
    assert_eq!(record.id, 9);
    assert_eq!(record.starts_at, STARTS);
    assert_eq!(record.ends_at, STARTS + 3600);
    assert_eq!(record.date, DAY);
    assert_eq!(response.table_id, TABLE);
    assert_eq!(response.id, "00000000-0000-0000-0000-000000000009");
    let bad = vec!["table one".to_string()];
    let err = allocate_booking(&input, &plan, &bad, &[], 9).unwrap_err();
    assert_eq!(err.code, Code::Internal);
}
