//! The availability and allocation engine: the conflict oracle, the table
//! allocator and the slot enumerator.
use vstd::prelude::*;

use crate::api::{Code, OpeningHoursSpecification, Status, Table, Venue};
use crate::ident::{format_uuid, uuid_text};
use crate::time::{parse_wall_clock, wall_clock_seconds, weekday, weekday_of, SECONDS_PER_DAY};
use crate::models::Booking;

verus! {

/// Largest magnitude of an instant that the engine works with; windows and
/// requests built from parsed timestamps stay well inside it.
pub const MAX_INSTANT: i64 = 400_000_000_000;

/// Largest magnitude of a day number that the opening-window resolver accepts.
pub const MAX_DAY: i64 = 4_000_000;

/// Longest duration, in minutes, that a request can carry.
pub const MAX_DURATION_MINUTES: i64 = 4_294_967_295;

/// Step between candidate start times, in seconds.
pub const SLOT_STEP_SECONDS: i64 = 1800;

/// Half-open intervals `[s, s + len)` and `[start, end)` intersect.
pub open spec fn overlaps(s: int, len: int, start: int, end: int) -> bool {
    s < end && start < s + len
}

/// A booking conflicts with a stay of `duration` minutes from `s`.
pub open spec fn conflicts(b: Booking, s: int, duration: int) -> bool {
    overlaps(s, duration * 60, b.starts_at as int, b.ends_at as int)
}

/// The booking holds the table written `table`.
pub open spec fn on_table(b: Booking, table: Seq<char>) -> bool {
    uuid_text(b.table_id) == table
}

/// No booking on `table` conflicts with a stay of `duration` minutes from `s`.
pub open spec fn table_free(table: Seq<char>, bookings: Seq<Booking>, s: int, duration: int) -> bool {
    forall|i: int|
        0 <= i < bookings.len() && #[trigger] on_table(bookings[i], table) ==> !conflicts(
            bookings[i],
            s,
            duration,
        )
}

/// Number of bookings on `table`.
pub open spec fn load(table: Seq<char>, bookings: Seq<Booking>) -> nat
    decreases bookings.len(),
{
    if bookings.len() == 0 {
        0
    } else {
        load(table, bookings.drop_last()) + if on_table(bookings.last(), table) {
            1nat
        } else {
            0nat
        }
    }
}

/// Some candidate table is free for a stay of `duration` minutes from `s`.
pub open spec fn some_table_free(
    tables: Seq<Seq<char>>,
    bookings: Seq<Booking>,
    s: int,
    duration: int,
) -> bool {
    exists|i: int| 0 <= i < tables.len() && #[trigger] table_free(tables[i], bookings, s, duration)
}

/// The free start times from `t` on, stepping by half an hour while a stay of
/// `duration` minutes still ends by `closes`.
pub open spec fn free_starts_from(
    tables: Seq<Seq<char>>,
    bookings: Seq<Booking>,
    duration: int,
    closes: int,
    t: int,
) -> Seq<int>
    decreases closes + 1800 - t,
{
    if t > closes || t + duration * 60 > closes {
        seq![]
    } else {
        let rest = free_starts_from(tables, bookings, duration, closes, t + 1800);
        if some_table_free(tables, bookings, t, duration) {
            seq![t] + rest
        } else {
            rest
        }
    }
}

/// The free start times of a day open from `opens` to `closes`, ascending.
pub open spec fn free_starts(
    tables: Seq<Seq<char>>,
    bookings: Seq<Booking>,
    duration: int,
    opens: int,
    closes: int,
) -> Seq<int> {
    free_starts_from(tables, bookings, duration, closes, opens)
}

pub open spec fn instants(v: Seq<i64>) -> Seq<int> {
    v.map_values(|x: i64| x as int)
}

/// The texts of a list of table identifiers.
pub open spec fn texts(tables: Seq<String>) -> Seq<Seq<char>> {
    tables.map_values(|t: String| t@)
}

/// Candidate `k` comes no later than candidate `j` in least-loaded-first order,
/// ties kept in input order.
pub open spec fn ranks_no_later(tables: Seq<Seq<char>>, bookings: Seq<Booking>, k: int, j: int) -> bool {
    let lk = load(tables[k], bookings);
    let lj = load(tables[j], bookings);
    lk < lj || (lk == lj && k <= j)
}

/// Candidate `k` is free and comes first among the free candidates.
pub open spec fn first_free(
    tables: Seq<Seq<char>>,
    bookings: Seq<Booking>,
    s: int,
    duration: int,
    k: int,
) -> bool {
    &&& 0 <= k < tables.len()
    &&& table_free(tables[k], bookings, s, duration)
    &&& forall|j: int|
        0 <= j < tables.len() && #[trigger] table_free(tables[j], bookings, s, duration)
            ==> ranks_no_later(tables, bookings, k, j)
}

/// What the allocator owes: no table when every candidate is taken, else the
/// first free candidate in least-loaded-first order.
pub open spec fn allocation(
    tables: Seq<Seq<char>>,
    bookings: Seq<Booking>,
    s: int,
    duration: int,
    r: Option<Seq<char>>,
) -> bool {
    match r {
        None => forall|j: int|
            0 <= j < tables.len() ==> !#[trigger] table_free(tables[j], bookings, s, duration),
        Some(t) => exists|k: int| #[trigger]
            first_free(tables, bookings, s, duration, k) && tables[k] == t,
    }
}

pub open spec fn text_of(r: Option<String>) -> Option<Seq<char>> {
    match r {
        Some(t) => Some(t@),
        None => None,
    }
}

/// The opening window of day `date` from the first entry at index `i` or later
/// whose weekday matches: an `InvalidArgument` when none does, an `Internal`
/// when its times do not read as `HH:MM`.
pub open spec fn window_from(
    hours: Seq<OpeningHoursSpecification>,
    date: int,
    i: int,
) -> Result<(int, int), Code>
    decreases hours.len() - i,
{
    if i < 0 || i >= hours.len() {
        Err(Code::InvalidArgument)
    } else if hours[i].day_of_week == weekday_of(date) {
        match (wall_clock_seconds(hours[i].opens@), wall_clock_seconds(hours[i].closes@)) {
            (Some(o), Some(c)) => Ok((date * 86400 + o, date * 86400 + c)),
            _ => Err(Code::Internal),
        }
    } else {
        window_from(hours, date, i + 1)
    }
}

/// The opening window of a venue on day `date`, as UTC instants.
pub open spec fn opening_window(venue: Venue, date: int) -> Result<(int, int), Code> {
    window_from(venue.opening_hours@, date, 0)
}

/// Drops the details of a failure, keeping its kind.
pub open spec fn outcome<T>(r: Result<T, Status>) -> Result<T, Code> {
    match r {
        Ok(v) => Ok(v),
        Err(e) => Err(e.code),
    }
}

pub open spec fn window_int(r: Result<(i64, i64), Status>) -> Result<(int, int), Code> {
    match r {
        Ok((o, c)) => Ok((o as int, c as int)),
        Err(e) => Err(e.code),
    }
}

/// Opening and closing instants of a venue on calendar day `date`, from the
/// regular opening hours of that weekday.
pub fn get_opening_times(venue: &Venue, date: i64) -> (r: Result<(i64, i64), Status>)
    requires
        -MAX_DAY <= date <= MAX_DAY,
    ensures
        window_int(r) == opening_window(*venue, date as int),
        r matches Ok((o, c)) ==> -MAX_INSTANT <= o <= MAX_INSTANT && -MAX_INSTANT <= c
            <= MAX_INSTANT,
{
    let wd = weekday(date);
    let mut i: usize = 0;
    while i < venue.opening_hours.len()
        invariant
            0 <= i <= venue.opening_hours.len(),
            wd as int == weekday_of(date as int),
            -MAX_DAY <= date <= MAX_DAY,
            opening_window(*venue, date as int) == window_from(
                venue.opening_hours@,
                date as int,
                i as int,
            ),
        decreases venue.opening_hours.len() - i,
    {
        let hours = &venue.opening_hours[i];
        if hours.day_of_week == wd {
            assert(-MAX_DAY * 86400 <= date * 86400 <= MAX_DAY * 86400) by (nonlinear_arith)
                requires
                    -MAX_DAY <= date <= MAX_DAY,
            ;
            let start = date * SECONDS_PER_DAY;
            let opens = match parse_wall_clock(hours.opens.as_str()) {
                Some(o) => o,
                None => {
                    return Err(Status::internal("could not parse opens time"));
                },
            };
            let closes = match parse_wall_clock(hours.closes.as_str()) {
                Some(c) => c,
                None => {
                    return Err(Status::internal("could not parse closes time"));
                },
            };
            return Ok((start + opens as i64, start + closes as i64));
        }
        i = i + 1;
    }
    Err(Status::invalid_argument("venue not open on given date"))
}

/// The table seats at least `capacity` people.
pub open spec fn seats(capacity: u32) -> spec_fn(Table) -> bool {
    |t: Table| t.capacity >= capacity
}

/// The identifiers of a list of tables, as text.
pub open spec fn table_ids(tables: Seq<Table>) -> Seq<Seq<char>> {
    tables.map_values(|t: Table| t.id@)
}

/// Identifiers of the tables seating at least `capacity`, in directory order.
pub fn tables_with_capacity(tables: &[Table], capacity: u32) -> (r: Vec<String>)
    ensures
        texts(r@) == table_ids(tables@.filter(seats(capacity))),
{
    let mut out: Vec<String> = Vec::new();
    let mut i: usize = 0;
    while i < tables.len()
        invariant
            0 <= i <= tables.len(),
            texts(out@) == table_ids(tables@.take(i as int).filter(seats(capacity))),
        decreases tables.len() - i,
    {
        let ghost before = out@;
        let ghost prefix = tables@.take(i as int + 1);
        assert(prefix.drop_last() =~= tables@.take(i as int));
        reveal_with_fuel(Seq::filter, 1);
        if tables[i].capacity >= capacity {
            out.push(tables[i].id.clone());
            assert(prefix.filter(seats(capacity)) == tables@.take(i as int).filter(
                seats(capacity),
            ).push(tables@[i as int]));
            assert(texts(out@) =~= texts(before).push(tables@[i as int].id@));
            assert(table_ids(prefix.filter(seats(capacity))) =~= table_ids(
                tables@.take(i as int).filter(seats(capacity)),
            ).push(tables@[i as int].id@));
        } else {
            assert(prefix.filter(seats(capacity)) == tables@.take(i as int).filter(
                seats(capacity),
            ));
        }
        i = i + 1;
    }
    assert(tables@.take(tables.len() as int) =~= tables@);
    out
}

/// Whether a booking conflicts with a stay of `duration` minutes from `starts_at`.
pub fn conflicts_with(duration: i64, booking: &Booking, starts_at: i64) -> (r: bool)
    requires
        -MAX_INSTANT <= starts_at <= MAX_INSTANT,
        0 <= duration <= MAX_DURATION_MINUTES,
    ensures
        r == conflicts(*booking, starts_at as int, duration as int),
{
    starts_at < booking.ends_at && booking.starts_at < starts_at + duration * 60
}

/// Number of bookings on a table.
pub fn bookings_on_table(table_id: &String, bookings: &[Booking]) -> (r: usize)
    ensures
        r == load(table_id@, bookings@),
{
    let mut count: usize = 0;
    let mut i: usize = 0;
    while i < bookings.len()
        invariant
            0 <= i <= bookings.len(),
            count == load(table_id@, bookings@.take(i as int)),
            count <= i,
        decreases bookings.len() - i,
    {
        assert(bookings@.take(i as int + 1).drop_last() =~= bookings@.take(i as int));
        let text = format_uuid(bookings[i].table_id);
        if text == *table_id {
            count = count + 1;
        }
        i = i + 1;
    }
    assert(bookings@.take(i as int) =~= bookings@);
    count
}

/// Whether no booking on a table conflicts with a stay of `duration` minutes
/// from `starts_at`.
pub fn table_is_free(duration: i64, table_id: &String, bookings: &[Booking], starts_at: i64) -> (r:
    bool)
    requires
        -MAX_INSTANT <= starts_at <= MAX_INSTANT,
        0 <= duration <= MAX_DURATION_MINUTES,
    ensures
        r == table_free(table_id@, bookings@, starts_at as int, duration as int),
{
    let mut i: usize = 0;
    while i < bookings.len()
        invariant
            0 <= i <= bookings.len(),
            -MAX_INSTANT <= starts_at <= MAX_INSTANT,
            0 <= duration <= MAX_DURATION_MINUTES,
            forall|j: int|
                0 <= j < i && #[trigger] on_table(bookings@[j], table_id@) ==> !conflicts(
                    bookings@[j],
                    starts_at as int,
                    duration as int,
                ),
        decreases bookings.len() - i,
    {
        let text = format_uuid(bookings[i].table_id);
        if text == *table_id && conflicts_with(duration, &bookings[i], starts_at) {
            assert(on_table(bookings@[i as int], table_id@));
            return false;
        }
        i = i + 1;
    }
    true
}

/// The table to book for a stay of `duration` minutes from `starts_at`: among
/// the candidates that no booking conflicts with, the one with the fewest
/// bookings, the earliest in input order on a tie; none if every candidate is
/// taken.
pub fn get_free_table(
    duration: i64,
    tables_with_capacity: &[String],
    bookings: &[Booking],
    starts_at: i64,
) -> (r: Option<String>)
    requires
        -MAX_INSTANT <= starts_at <= MAX_INSTANT,
        0 <= duration <= MAX_DURATION_MINUTES,
    ensures
        allocation(
            texts(tables_with_capacity@),
            bookings@,
            starts_at as int,
            duration as int,
            text_of(r),
        ),
{
    let ghost tables = texts(tables_with_capacity@);
    let ghost s = starts_at as int;
    let ghost d = duration as int;
    let mut best: Option<usize> = None;
    let mut best_load: usize = 0;
    let mut k: usize = 0;
    while k < tables_with_capacity.len()
        invariant
            0 <= k <= tables_with_capacity.len(),
            tables == texts(tables_with_capacity@),
            s == starts_at as int,
            d == duration as int,
            -MAX_INSTANT <= starts_at <= MAX_INSTANT,
            0 <= duration <= MAX_DURATION_MINUTES,
            best is None ==> forall|j: int|
                0 <= j < k ==> !#[trigger] table_free(tables[j], bookings@, s, d),
            best matches Some(b) ==> {
                &&& b < k
                &&& table_free(tables[b as int], bookings@, s, d)
                &&& best_load == load(tables[b as int], bookings@)
                &&& forall|j: int|
                    0 <= j < k && #[trigger] table_free(tables[j], bookings@, s, d)
                        ==> ranks_no_later(tables, bookings@, b as int, j)
            },
        decreases tables_with_capacity.len() - k,
    {
        assert(tables[k as int] == tables_with_capacity@[k as int]@);
        if table_is_free(duration, &tables_with_capacity[k], bookings, starts_at) {
            let l = bookings_on_table(&tables_with_capacity[k], bookings);
            match best {
                None => {
                    best = Some(k);
                    best_load = l;
                },
                Some(b) => {
                    if l < best_load {
                        best = Some(k);
                        best_load = l;
                    }
                },
            }
        }
        k = k + 1;
    }
    match best {
        Some(b) => {
            assert(first_free(tables, bookings@, s, d, b as int));
            let t = tables_with_capacity[b].clone();
            assert(tables[b as int] == t@);
            Some(t)
        },
        None => None,
    }
}

/// Every start time from `opens` in half-hour steps at which a stay of
/// `duration` minutes ends by `closes` and some candidate table is free, ascending.
pub fn free_slots(
    duration: i64,
    tables_with_capacity: &[String],
    bookings: &[Booking],
    opens: i64,
    closes: i64,
) -> (r: Vec<i64>)
    requires
        -MAX_INSTANT <= opens <= MAX_INSTANT,
        -MAX_INSTANT <= closes <= MAX_INSTANT,
        0 <= duration <= MAX_DURATION_MINUTES,
    ensures
        instants(r@) == free_starts(
            texts(tables_with_capacity@),
            bookings@,
            duration as int,
            opens as int,
            closes as int,
        ),
{
    let ghost tables = texts(tables_with_capacity@);
    let ghost d = duration as int;
    let mut out: Vec<i64> = Vec::new();
    let mut t: i64 = opens;
    let last = closes - duration * 60;
    while t <= last
        invariant
            tables == texts(tables_with_capacity@),
            d == duration as int,
            0 <= duration <= MAX_DURATION_MINUTES,
            -MAX_INSTANT <= closes <= MAX_INSTANT,
            last == closes - duration * 60,
            -MAX_INSTANT <= t <= MAX_INSTANT + 1800,
            free_starts(tables, bookings@, d, opens as int, closes as int) == instants(out@)
                + free_starts_from(tables, bookings@, d, closes as int, t as int),
        decreases closes + 1800 - t,
    {
        let ghost before = out@;
        let found = get_free_table(duration, tables_with_capacity, bookings, t);
        let ghost rest = free_starts_from(tables, bookings@, d, closes as int, t + 1800);
        if found.is_some() {
            let ghost k = choose|k: int| #[trigger]
                first_free(tables, bookings@, t as int, d, k) && tables[k] == text_of(found)->0;
            assert(table_free(tables[k], bookings@, t as int, d));
            assert(some_table_free(tables, bookings@, t as int, d));
            out.push(t);
            assert(instants(out@) =~= instants(before).push(t as int));
            assert(instants(before) + (seq![t as int] + rest) =~= instants(out@) + rest);
        } else {
            assert(!some_table_free(tables, bookings@, t as int, d));
        }
        t = t + SLOT_STEP_SECONDS;
    }
    assert(instants(out@) + seq![] =~= instants(out@));
    out
}

/// Every free start time from `t` on is at least `t`, and a stay from it ends by `closes`.
pub proof fn lemma_free_starts_bounded(
    tables: Seq<Seq<char>>,
    bookings: Seq<Booking>,
    duration: int,
    closes: int,
    t: int,
)
    ensures
        forall|i: int|
            0 <= i < free_starts_from(tables, bookings, duration, closes, t).len() ==> {
                let u = #[trigger] free_starts_from(tables, bookings, duration, closes, t)[i];
                t <= u && u + duration * 60 <= closes
            },
    decreases closes + 1800 - t,
{
    if !(t > closes || t + duration * 60 > closes) {
        lemma_free_starts_bounded(tables, bookings, duration, closes, t + 1800);
        let rest = free_starts_from(tables, bookings, duration, closes, t + 1800);
        if some_table_free(tables, bookings, t, duration) {
            assert forall|i: int| 0 <= i < (seq![t] + rest).len() implies {
                let u = #[trigger] (seq![t] + rest)[i];
                t <= u && u + duration * 60 <= closes
            } by {
                if i > 0 {
                    assert((seq![t] + rest)[i] == rest[i - 1]);
                }
            }
        }
    }
}

/// The free start times come in strictly ascending order.
pub proof fn lemma_free_starts_ascending(
    tables: Seq<Seq<char>>,
    bookings: Seq<Booking>,
    duration: int,
    closes: int,
    t: int,
)
    ensures
        forall|i: int, j: int|
            0 <= i < j < free_starts_from(tables, bookings, duration, closes, t).len() ==> #[trigger] free_starts_from(
                tables,
                bookings,
                duration,
                closes,
                t,
            )[i] < #[trigger] free_starts_from(tables, bookings, duration, closes, t)[j],
    decreases closes + 1800 - t,
{
    if !(t > closes || t + duration * 60 > closes) {
        lemma_free_starts_ascending(tables, bookings, duration, closes, t + 1800);
        lemma_free_starts_bounded(tables, bookings, duration, closes, t + 1800);
        let rest = free_starts_from(tables, bookings, duration, closes, t + 1800);
        if some_table_free(tables, bookings, t, duration) {
            let all = seq![t] + rest;
            assert forall|i: int, j: int| 0 <= i < j < all.len() implies #[trigger] all[i]
                < #[trigger] all[j] by {
                assert(all[j] == rest[j - 1]);
                if i > 0 {
                    assert(all[i] == rest[i - 1]);
                }
            }
        }
    }
}

/// With no bookings and at least one candidate table, every half-hour-aligned
/// start in the window at which the stay ends by closing time is free.
pub proof fn lemma_empty_day_all_free(
    tables: Seq<Seq<char>>,
    duration: int,
    opens: int,
    closes: int,
    t: int,
)
    requires
        tables.len() >= 1,
        duration >= 0,
        opens <= t,
        (t - opens) % 1800 == 0,
        t + duration * 60 <= closes,
    ensures
        free_starts(tables, Seq::empty(), duration, opens, closes).contains(t),
{
    lemma_empty_from_all_free(tables, duration, closes, opens, t);
}

proof fn lemma_empty_from_all_free(tables: Seq<Seq<char>>, duration: int, closes: int, u: int, t: int)
    requires
        tables.len() >= 1,
        duration >= 0,
        u <= t,
        (t - u) % 1800 == 0,
        t + duration * 60 <= closes,
    ensures
        free_starts_from(tables, Seq::empty(), duration, closes, u).contains(t),
    decreases t - u,
{
    let empty = Seq::<Booking>::empty();
    assert(table_free(tables[0], empty, u, duration));
    assert(some_table_free(tables, empty, u, duration));
    let rest = free_starts_from(tables, empty, duration, closes, u + 1800);
    assert(free_starts_from(tables, empty, duration, closes, u) == seq![u] + rest);
    if u == t {
        assert((seq![u] + rest)[0] == t);
    } else {
        assert(u + 1800 <= t);
        lemma_empty_from_all_free(tables, duration, closes, u + 1800, t);
        let i = choose|i: int| 0 <= i < rest.len() && rest[i] == t;
        assert((seq![u] + rest)[i + 1] == t);
    }
}

/// With one candidate, the allocator books it exactly when no booking on it
/// overlaps the stay in the half-open sense; bookings on other tables never
/// count.
pub proof fn lemma_single_candidate(
    table: Seq<char>,
    bookings: Seq<Booking>,
    s: int,
    duration: int,
    r: Option<Seq<char>>,
)
    requires
        allocation(seq![table], bookings, s, duration, r),
    ensures
        r == Some(table) <==> (forall|i: int|
            0 <= i < bookings.len() && uuid_text((#[trigger] bookings[i]).table_id) == table ==> !(s
                < bookings[i].ends_at && bookings[i].starts_at < s + duration * 60)),
        r is None <==> r != Some(table),
{
    let tables = seq![table];
    if table_free(table, bookings, s, duration) {
        assert forall|i: int|
            0 <= i < bookings.len() && uuid_text((#[trigger] bookings[i]).table_id) == table implies !(s
                < bookings[i].ends_at && bookings[i].starts_at < s + duration * 60) by {
            assert(on_table(bookings[i], table));
        }
        assert(first_free(tables, bookings, s, duration, 0));
        lemma_allocation_deterministic(tables, bookings, s, duration, r, Some(table));
    } else {
        assert(allocation(tables, bookings, s, duration, None));
        lemma_allocation_deterministic(tables, bookings, s, duration, r, None);
        let i = choose|i: int|
            0 <= i < bookings.len() && #[trigger] on_table(bookings[i], table) && conflicts(
                bookings[i],
                s,
                duration,
            );
        assert(uuid_text(bookings[i].table_id) == table);
    }
}

/// Intervals that only touch do not conflict.
pub proof fn lemma_touching_intervals_do_not_conflict(b: Booking, s: int, duration: int)
    requires
        s + duration * 60 == b.starts_at || b.ends_at == s,
    ensures
        !conflicts(b, s, duration),
{
}

/// Allocation is deterministic: one set of candidates, bookings, start and
/// duration admit exactly one allocator result.
pub proof fn lemma_allocation_deterministic(
    tables: Seq<Seq<char>>,
    bookings: Seq<Booking>,
    s: int,
    duration: int,
    r1: Option<Seq<char>>,
    r2: Option<Seq<char>>,
)
    requires
        allocation(tables, bookings, s, duration, r1),
        allocation(tables, bookings, s, duration, r2),
    ensures
        r1 == r2,
{
    match (r1, r2) {
        (Some(t1), Some(t2)) => {
            let k1 = choose|k: int| #[trigger]
                first_free(tables, bookings, s, duration, k) && tables[k] == t1;
            let k2 = choose|k: int| #[trigger]
                first_free(tables, bookings, s, duration, k) && tables[k] == t2;
            assert(table_free(tables[k2], bookings, s, duration));
            assert(table_free(tables[k1], bookings, s, duration));
            assert(ranks_no_later(tables, bookings, k1, k2));
            assert(ranks_no_later(tables, bookings, k2, k1));
        },
        (Some(t1), None) => {
            let k1 = choose|k: int| #[trigger]
                first_free(tables, bookings, s, duration, k) && tables[k] == t1;
            assert(table_free(tables[k1], bookings, s, duration));
        },
        (None, Some(t2)) => {
            let k2 = choose|k: int| #[trigger]
                first_free(tables, bookings, s, duration, k) && tables[k] == t2;
            assert(table_free(tables[k2], bookings, s, duration));
        },
        (None, None) => {},
    }
}

} // verus!
