//! Cron expressions for periodic restarts: five fields (minute, hour, day
//! of the month, month, day of the week), the moments at which such an
//! expression fires, and the calendar that turns a time stamp into a
//! moment.

use vstd::prelude::*;

use crate::text::{
    chars_of, digits_bounded, fields, parse_digits, pieces, split, split_fields, texts,
};

verus! {

// ------------------------------------------------------------------
// Items and fields
// ------------------------------------------------------------------
/// The values that one item of a field stands for: every `step`-th value
/// from `first` to `last`.
#[derive(Debug, Clone, Copy, PartialEq, Eq, Structural)]
pub struct Span {
    pub first: u64,
    pub last: u64,
    pub step: u64,
}

impl Span {
    /// Whether the span holds `v`.
    pub open spec fn hits(self, v: int) -> bool {
        self.first <= v <= self.last && self.step > 0 && (v - self.first) % (self.step as int) == 0
    }

    /// Tells whether the span holds `v`.
    pub fn contains(&self, v: u64) -> (r: bool)
        ensures
            r == self.hits(v as int),
    {
        self.first <= v && v <= self.last && self.step > 0 && (v - self.first) % self.step == 0
    }
}

/// The step that an item asks for: 1 without a slash, else the number
/// after the slash, which must be positive. `parts` are the pieces of the
/// item around its slashes.
pub open spec fn step_of(parts: Seq<Seq<char>>) -> Option<u64> {
    if parts.len() == 1 {
        Some(1)
    } else if parts.len() == 2 {
        match digits_bounded(parts[1], u32::MAX as u64) {
            Some(s) => if s >= 1 {
                Some(s)
            } else {
                None
            },
            None => None,
        }
    } else {
        None
    }
}

/// The bounds that the part of an item before its slash asks for, within
/// `lo..=hi`: all of it for `*`; `a..=b` for `a-b`; for a single number
/// that number alone, or from that number to `hi` where a step follows.
pub open spec fn bounds_of(range: Seq<char>, lo: u64, hi: u64, stepped: bool) -> Option<
    (u64, u64),
> {
    let ends = pieces(range, '-');
    if range == seq!['*'] {
        Some((lo, hi))
    } else if ends.len() == 1 {
        match digits_bounded(ends[0], hi) {
            Some(a) => if a >= lo {
                Some(
                    (
                        a,
                        if stepped {
                            hi
                        } else {
                            a
                        },
                    ),
                )
            } else {
                None
            },
            None => None,
        }
    } else if ends.len() == 2 {
        match (digits_bounded(ends[0], hi), digits_bounded(ends[1], hi)) {
            (Some(a), Some(b)) => if lo <= a && a <= b {
                Some((a, b))
            } else {
                None
            },
            _ => None,
        }
    } else {
        None
    }
}

/// The span that an item of a field over `lo..=hi` stands for; `None`
/// where the item is malformed or leaves the field's range.
pub open spec fn span_of(item: Seq<char>, lo: u64, hi: u64) -> Option<Span> {
    let parts = pieces(item, '/');
    match step_of(parts) {
        Some(step) => match bounds_of(parts[0], lo, hi, parts.len() == 2) {
            Some((first, last)) => Some(Span { first, last, step }),
            None => None,
        },
        None => None,
    }
}

/// Whether every item of the comma-separated `field` is well formed.
pub open spec fn field_valid(field: Seq<char>, lo: u64, hi: u64) -> bool {
    let items = pieces(field, ',');
    forall|i: int| 0 <= i < items.len() ==> (#[trigger] span_of(items[i], lo, hi)) is Some
}

/// Whether one of the first `n` items holds `v`.
pub open spec fn items_allow(items: Seq<Seq<char>>, n: int, lo: u64, hi: u64, v: int) -> bool {
    exists|i: int|
        0 <= i < n && i < items.len() && (#[trigger] span_of(items[i], lo, hi)) is Some && span_of(
            items[i],
            lo,
            hi,
        )->0.hits(v)
}

/// Whether the comma-separated `field` allows the value `v`: one of its
/// items holds it.
pub open spec fn field_allows(field: Seq<char>, lo: u64, hi: u64, v: int) -> bool {
    items_allow(pieces(field, ','), pieces(field, ',').len() as int, lo, hi, v)
}

/// For each value from 0 to `hi`, whether `field` allows it.
pub open spec fn allowed(field: Seq<char>, lo: u64, hi: u64) -> Seq<bool> {
    Seq::new((hi + 1) as nat, |v: int| field_allows(field, lo, hi, v))
}

/// Reads one item of a field.
pub fn parse_span(item: &[char], lo: u64, hi: u64) -> (r: Option<Span>)
    ensures
        r == span_of(item@, lo, hi),
{
    let parts = split(item, '/');
    proof {
        crate::text::lemma_pieces_nonempty(item@, '/');
    }
    assert(texts(parts@).len() == parts@.len());
    assert(forall|k: int| 0 <= k < parts@.len() ==> texts(parts@)[k] == parts@[k]@);
    let step: u64 = if parts.len() == 1 {
        1
    } else if parts.len() == 2 {
        match parse_digits(parts[1].as_slice(), 4294967295) {
            Some(s) => {
                if s < 1 {
                    return None;
                }
                s
            },
            None => {
                return None;
            },
        }
    } else {
        return None;
    };
    let stepped: bool = parts.len() == 2;
    let range: &[char] = parts[0].as_slice();
    let ends = split(range, '-');
    proof {
        crate::text::lemma_pieces_nonempty(range@, '-');
    }
    assert(texts(ends@).len() == ends@.len());
    assert(forall|k: int| 0 <= k < ends@.len() ==> texts(ends@)[k] == ends@[k]@);
    if range.len() == 1 && range[0] == '*' {
        assert(range@ =~= seq!['*']);
        return Some(Span { first: lo, last: hi, step });
    }
    if ends.len() == 1 {
        match parse_digits(ends[0].as_slice(), hi) {
            Some(a) => {
                if a >= lo {
                    let last: u64 = if stepped {
                        hi
                    } else {
                        a
                    };
                    Some(Span { first: a, last, step })
                } else {
                    None
                }
            },
            None => None,
        }
    } else if ends.len() == 2 {
        match (parse_digits(ends[0].as_slice(), hi), parse_digits(ends[1].as_slice(), hi)) {
            (Some(a), Some(b)) => {
                if lo <= a && a <= b {
                    Some(Span { first: a, last: b, step })
                } else {
                    None
                }
            },
            _ => None,
        }
    } else {
        None
    }
}

/// Reads a field over `lo..=hi`: for each value from 0 to `hi`, whether
/// the field allows it; `None` where an item is malformed.
pub fn parse_field(field: &[char], lo: u64, hi: u64) -> (r: Option<Vec<bool>>)
    requires
        hi < 64,
    ensures
        r is Some <==> field_valid(field@, lo, hi),
        r matches Some(marks) ==> marks@ == allowed(field@, lo, hi),
{
    let items = split(field, ',');
    let ghost texts_of = pieces(field@, ',');
    assert(texts(items@).len() == items@.len());
    assert(forall|k: int| 0 <= k < items@.len() ==> texts(items@)[k] == items@[k]@);
    let mut marks: Vec<bool> = Vec::new();
    let mut v: u64 = 0;
    while v <= hi
        invariant
            v <= hi + 1,
            hi < 64,
            marks@.len() == v,
            forall|k: int| 0 <= k < v ==> !marks@[k],
        decreases hi + 1 - v,
    {
        marks.push(false);
        v += 1;
    }
    let mut i: usize = 0;
    while i < items.len()
        invariant
            i <= items.len(),
            hi < 64,
            texts_of == pieces(field@, ','),
            texts_of.len() == items@.len(),
            forall|k: int| 0 <= k < items@.len() ==> texts_of[k] == items@[k]@,
            forall|k: int| 0 <= k < i ==> (#[trigger] span_of(texts_of[k], lo, hi)) is Some,
            marks@.len() == hi + 1,
            forall|k: int| 0 <= k <= hi ==> marks@[k] == items_allow(texts_of, i as int, lo, hi, k),
        decreases items.len() - i,
    {
        let span = match parse_span(items[i].as_slice(), lo, hi) {
            Some(span) => span,
            None => {
                assert(span_of(texts_of[i as int], lo, hi) is None);
                return None;
            },
        };
        let ghost before = marks@;
        let mut v: u64 = 0;
        while v <= hi
            invariant
                v <= hi + 1,
                hi < 64,
                marks@.len() == hi + 1,
                before.len() == hi + 1,
                forall|k: int| 0 <= k < v ==> marks@[k] == (before[k] || span.hits(k)),
                forall|k: int| v <= k <= hi ==> marks@[k] == before[k],
            decreases hi + 1 - v,
        {
            if span.contains(v) {
                marks.set(v as usize, true);
            }
            v += 1;
        }
        assert forall|k: int| 0 <= k <= hi implies marks@[k] == items_allow(
            texts_of,
            i + 1,
            lo,
            hi,
            k,
        ) by {
            if items_allow(texts_of, i + 1, lo, hi, k) {
                let at = choose|at: int|
                    0 <= at < i + 1 && at < texts_of.len() && (#[trigger] span_of(
                        texts_of[at],
                        lo,
                        hi,
                    )) is Some && span_of(texts_of[at], lo, hi)->0.hits(k);
                if at < i {
                    assert(items_allow(texts_of, i as int, lo, hi, k));
                }
            }
            if before[k] {
                assert(items_allow(texts_of, i as int, lo, hi, k));
                let at = choose|at: int|
                    0 <= at < i && at < texts_of.len() && (#[trigger] span_of(
                        texts_of[at],
                        lo,
                        hi,
                    )) is Some && span_of(texts_of[at], lo, hi)->0.hits(k);
                assert(span_of(texts_of[at], lo, hi) is Some);
            }
            if span.hits(k) {
                assert(span_of(texts_of[i as int], lo, hi) is Some);
            }
        }
        i += 1;
    }
    assert(marks@ =~= allowed(field@, lo, hi));
    Some(marks)
}

// ------------------------------------------------------------------
// The calendar
// ------------------------------------------------------------------
/// Milliseconds in a day.
pub const DAY_MS: u64 = 86_400_000;

/// Days in 400 years of the Gregorian calendar.
pub const CYCLE_DAYS: u64 = 146_097;

/// Whether `y` is a leap year of the Gregorian calendar.
pub open spec fn is_leap(y: int) -> bool {
    y % 4 == 0 && (y % 100 != 0 || y % 400 == 0)
}

/// The number of days of the year `y`.
pub open spec fn year_len(y: int) -> int {
    if is_leap(y) {
        366
    } else {
        365
    }
}

/// The number of days of the month `m` of the year `y`.
pub open spec fn month_len(y: int, m: int) -> int {
    if m == 2 {
        if is_leap(y) {
            29
        } else {
            28
        }
    } else if m == 4 || m == 6 || m == 9 || m == 11 {
        30
    } else {
        31
    }
}

/// The days from 1 January 1970 to 1 January of the year `y`.
pub open spec fn year_start(y: int) -> int
    decreases y - 1970,
{
    if y <= 1970 {
        0
    } else {
        year_start(y - 1) + year_len(y - 1)
    }
}

/// The days from 1 January of the year `y` to the first of its month `m`.
pub open spec fn month_start(y: int, m: int) -> int
    decreases m,
{
    if m <= 1 {
        0
    } else {
        month_start(y, m - 1) + month_len(y, m - 1)
    }
}

/// A day of the calendar, from 1970 on.
#[derive(Debug, Clone, Copy, PartialEq, Eq, Structural)]
pub struct Date {
    pub year: u64,
    /// From 1 (January) to 12.
    pub month: u8,
    /// From 1.
    pub day: u8,
}

impl Date {
    /// Whether the calendar has this day.
    pub open spec fn exists_in_calendar(self) -> bool {
        self.year >= 1970 && 1 <= self.month <= 12 && 1 <= self.day <= month_len(
            self.year as int,
            self.month as int,
        )
    }

    /// The days from 1 January 1970 to this day.
    pub open spec fn number(self) -> int {
        year_start(self.year as int) + month_start(self.year as int, self.month as int) + self.day
            - 1
    }
}

/// The day of the calendar with the number `days`.
pub open spec fn date_of(days: int) -> Date {
    choose|d: Date| d.exists_in_calendar() && d.number() == days
}

/// The leap years before the year `y`, counted from the year 1.
pub open spec fn leaps_before(y: int) -> int {
    (y - 1) / 4 - (y - 1) / 100 + (y - 1) / 400
}

/// The start of a year in closed form.
pub proof fn lemma_year_start(y: int)
    requires
        y >= 1970,
    ensures
        year_start(y) == 365 * (y - 1970) + leaps_before(y) - 477,
    decreases y - 1970,
{
    if y > 1970 {
        lemma_year_start(y - 1);
    }
}

/// Every 400 years hold 97 leap years.
proof fn lemma_leaps_cycle(y: int)
    ensures
        leaps_before(y + 400) == leaps_before(y) + 97,
{
    let x = y - 1;
    assert((x + 400) / 4 == x / 4 + 100);
    assert((x + 400) / 100 == x / 100 + 4);
    assert((x + 400) / 400 == x / 400 + 1);
}

/// Every 400 years have the same number of days.
pub proof fn lemma_cycle(y: int)
    requires
        y >= 1970,
    ensures
        year_start(y + 400) == year_start(y) + CYCLE_DAYS,
{
    let later = year_start(y + 400);
    let sooner = year_start(y);
    assert(later == 365 * (y + 400 - 1970) + leaps_before(y + 400) - 477) by {
        lemma_year_start(y + 400);
    }
    assert(sooner == 365 * (y - 1970) + leaps_before(y) - 477) by {
        lemma_year_start(y);
    }
    assert(leaps_before(y + 400) == leaps_before(y) + 97) by {
        lemma_leaps_cycle(y);
    }
}

/// The start of the year that lies `c` cycles of 400 years after 1970.
pub proof fn lemma_cycles(c: nat)
    ensures
        year_start(1970 + 400 * (c as int)) == CYCLE_DAYS * c,
    decreases c,
{
    if c > 0 {
        lemma_cycles((c - 1) as nat);
        lemma_cycle(1970 + 400 * (c - 1));
    }
}

/// A month lies within its year.
pub proof fn lemma_month_in_year(y: int, m: int)
    requires
        1 <= m <= 12,
    ensures
        0 <= month_start(y, m),
        month_start(y, m) + month_len(y, m) <= year_len(y),
        month_start(y, 13) == year_len(y),
{
    reveal_with_fuel(month_start, 14);
}

/// Later years start later, by at least their distance in common years.
pub proof fn lemma_year_start_grows(a: int, b: int)
    requires
        1970 <= a <= b,
    ensures
        year_start(b) >= year_start(a) + 365 * (b - a),
    decreases b - a,
{
    if a < b {
        lemma_year_start_grows(a, b - 1);
    }
}

/// Later months start later, by at least the length of the earlier one.
pub proof fn lemma_month_start_grows(y: int, a: int, b: int)
    requires
        1 <= a < b,
    ensures
        month_start(y, b) >= month_start(y, a) + month_len(y, a),
    decreases b - a,
{
    if a + 1 < b {
        lemma_month_start_grows(y, a, b - 1);
    }
}

/// A day of an earlier year has a smaller number than one of a later year.
proof fn lemma_years_apart(a: Date, b: Date)
    requires
        a.exists_in_calendar(),
        b.exists_in_calendar(),
        a.year < b.year,
    ensures
        a.number() < b.number(),
{
    lemma_month_in_year(a.year as int, a.month as int);
    lemma_month_in_year(b.year as int, b.month as int);
    lemma_year_start_grows(a.year + 1, b.year as int);
    assert(year_start(a.year + 1) == year_start(a.year as int) + year_len(a.year as int));
}

/// In one year, a day of an earlier month has a smaller number than one of
/// a later month.
proof fn lemma_months_apart(a: Date, b: Date)
    requires
        a.exists_in_calendar(),
        b.exists_in_calendar(),
        a.year == b.year,
        a.month < b.month,
    ensures
        a.number() < b.number(),
{
    lemma_month_start_grows(a.year as int, a.month as int, b.month as int);
}

/// No two days of the calendar have the same number.
pub proof fn lemma_date_unique(a: Date, b: Date)
    requires
        a.exists_in_calendar(),
        b.exists_in_calendar(),
        a.number() == b.number(),
    ensures
        a == b,
{
    if a.year < b.year {
        lemma_years_apart(a, b);
    } else if b.year < a.year {
        lemma_years_apart(b, a);
    } else if a.month < b.month {
        lemma_months_apart(a, b);
    } else if b.month < a.month {
        lemma_months_apart(b, a);
    }
}

/// Tells whether `y` is a leap year.
pub fn leap_year(y: u64) -> (r: bool)
    ensures
        r == is_leap(y as int),
{
    y % 4 == 0 && (y % 100 != 0 || y % 400 == 0)
}

/// The number of days of a year.
pub fn days_in_year(y: u64) -> (n: u64)
    ensures
        n == year_len(y as int),
{
    if leap_year(y) {
        366
    } else {
        365
    }
}

/// The number of days of a month.
pub fn days_in_month(y: u64, m: u8) -> (n: u64)
    ensures
        n == month_len(y as int, m as int),
{
    if m == 2 {
        if leap_year(y) {
            29
        } else {
            28
        }
    } else if m == 4 || m == 6 || m == 9 || m == 11 {
        30
    } else {
        31
    }
}

/// The day of the calendar that lies `days` days after 1 January 1970.
pub fn civil_date(days: u64) -> (date: Date)
    ensures
        date.exists_in_calendar(),
        date.number() == days,
        date == date_of(days as int),
{
    let cycles: u64 = days / CYCLE_DAYS;
    let mut rest: u64 = days % CYCLE_DAYS;
    let mut year: u64 = 1970 + 400 * cycles;
    proof {
        lemma_cycles(cycles as nat);
    }
    while rest >= days_in_year(year)
        invariant
            1970 <= year,
            year_start(year as int) + rest == days,
            year + rest <= 1970 + 400 * cycles + CYCLE_DAYS,
            cycles <= u64::MAX / CYCLE_DAYS,
        decreases rest,
    {
        rest -= days_in_year(year);
        year += 1;
    }
    proof {
        lemma_month_in_year(year as int, 1);
    }
    let mut month: u8 = 1;
    while rest >= days_in_month(year, month)
        invariant
            1 <= month <= 12,
            year_start(year as int) + month_start(year as int, month as int) + rest == days,
            month_start(year as int, month as int) + rest < year_len(year as int),
            month_start(year as int, 13) == year_len(year as int),
        decreases rest,
    {
        proof {
            reveal_with_fuel(month_start, 2);
        }
        rest -= days_in_month(year, month);
        month += 1;
    }
    let date = Date { year, month, day: (rest + 1) as u8 };
    proof {
        let found = date_of(days as int);
        assert(date.exists_in_calendar() && date.number() == days);
        assert(found.exists_in_calendar() && found.number() == days);
        lemma_date_unique(date, found);
    }
    date
}

// ------------------------------------------------------------------
// Moments and schedules
// ------------------------------------------------------------------
/// A minute of the calendar, in universal time.
#[derive(Debug, Clone, Copy, PartialEq, Eq, Structural)]
pub struct Moment {
    pub year: u64,
    /// From 1 (January) to 12.
    pub month: u8,
    /// From 1.
    pub day: u8,
    /// From 0 (Sunday) to 6.
    pub weekday: u8,
    pub hour: u8,
    pub minute: u8,
}

/// The minute in which the time `ms`, in milliseconds since the start of
/// 1970, lies. The first day of 1970 was a Thursday.
pub open spec fn moment_at(ms: u64) -> Moment {
    let days = (ms / DAY_MS) as int;
    let date = date_of(days);
    Moment {
        year: date.year,
        month: date.month,
        day: date.day,
        weekday: ((days + 4) % 7) as u8,
        hour: (ms / 3_600_000 % 24) as u8,
        minute: (ms / 60_000 % 60) as u8,
    }
}

/// The minute in which a time lies.
pub fn moment_of(ms: u64) -> (m: Moment)
    ensures
        m == moment_at(ms),
{
    let days: u64 = ms / DAY_MS;
    let date = civil_date(days);
    Moment {
        year: date.year,
        month: date.month,
        day: date.day,
        weekday: ((days + 4) % 7) as u8,
        hour: (ms / 3_600_000 % 24) as u8,
        minute: (ms / 60_000 % 60) as u8,
    }
}

/// What a cron expression says: for each field the values that it allows,
/// each sequence indexed by the value, and whether each of the two day
/// fields starts with a star.
pub struct CronView {
    pub minutes: Seq<bool>,
    pub hours: Seq<bool>,
    pub days: Seq<bool>,
    pub months: Seq<bool>,
    /// Both 0 and 7 stand for Sunday.
    pub weekdays: Seq<bool>,
    pub any_day: bool,
    pub any_weekday: bool,
}

impl CronView {
    /// Whether every sequence covers the range of its field.
    pub open spec fn wf(self) -> bool {
        self.minutes.len() == 60 && self.hours.len() == 24 && self.days.len() == 32
            && self.months.len() == 13 && self.weekdays.len() == 8
    }

    /// Whether the day of the month of `m` is allowed.
    pub open spec fn day_hit(self, m: Moment) -> bool {
        1 <= m.day <= 31 && self.days[m.day as int]
    }

    /// Whether the day of the week of `m` is allowed.
    pub open spec fn weekday_hit(self, m: Moment) -> bool {
        m.weekday < 7 && (self.weekdays[m.weekday as int] || (m.weekday == 0 && self.weekdays[7]))
    }

    /// Whether the expression fires in the minute `m`: the minute, the
    /// hour and the month are allowed, and so is the day. Where both day
    /// fields are restricted, one of them allowing the day is enough;
    /// where one of them starts with a star, both must allow it.
    pub open spec fn fires(self, m: Moment) -> bool {
        &&& m.minute < 60 && self.minutes[m.minute as int]
        &&& m.hour < 24 && self.hours[m.hour as int]
        &&& 1 <= m.month <= 12 && self.months[m.month as int]
        &&& if self.any_day || self.any_weekday {
            self.day_hit(m) && self.weekday_hit(m)
        } else {
            self.day_hit(m) || self.weekday_hit(m)
        }
    }
}

/// Whether a field starts with a star.
pub open spec fn starred(field: Seq<char>) -> bool {
    field.len() > 0 && field[0] == '*'
}

/// What the cron expression `text` says; `None` unless it has five fields,
/// each of them well formed: minute (0 to 59), hour (0 to 23), day of the
/// month (1 to 31), month (1 to 12), day of the week (0 to 7).
pub open spec fn cron_of(text: Seq<char>) -> Option<CronView> {
    let f = fields(text);
    if f.len() == 5 && field_valid(f[0], 0, 59) && field_valid(f[1], 0, 23) && field_valid(
        f[2],
        1,
        31,
    ) && field_valid(f[3], 1, 12) && field_valid(f[4], 0, 7) {
        Some(
            CronView {
                minutes: allowed(f[0], 0, 59),
                hours: allowed(f[1], 0, 23),
                days: allowed(f[2], 1, 31),
                months: allowed(f[3], 1, 12),
                weekdays: allowed(f[4], 0, 7),
                any_day: starred(f[2]),
                any_weekday: starred(f[4]),
            },
        )
    } else {
        None
    }
}

/// A cron expression, read.
pub struct CronSchedule {
    minutes: Vec<bool>,
    hours: Vec<bool>,
    days: Vec<bool>,
    months: Vec<bool>,
    weekdays: Vec<bool>,
    any_day: bool,
    any_weekday: bool,
}

impl View for CronSchedule {
    type V = CronView;

    closed spec fn view(&self) -> CronView {
        CronView {
            minutes: self.minutes@,
            hours: self.hours@,
            days: self.days@,
            months: self.months@,
            weekdays: self.weekdays@,
            any_day: self.any_day,
            any_weekday: self.any_weekday,
        }
    }
}

impl CronSchedule {
    #[verifier::type_invariant]
    closed spec fn covers_ranges(&self) -> bool {
        self@.wf()
    }

    /// Reads a cron expression.
    pub fn parse(text: &str) -> (r: Option<Self>)
        ensures
            match cron_of(text@) {
                Some(v) => r matches Some(c) && c@ == v,
                None => r is None,
            },
    {
        let chars = chars_of(text);
        let f = split_fields(chars.as_slice());
        assert(texts(f@).len() == f@.len());
        assert(forall|k: int| 0 <= k < f@.len() ==> texts(f@)[k] == f@[k]@);
        if f.len() != 5 {
            return None;
        }
        let minutes = parse_field(f[0].as_slice(), 0, 59)?;
        let hours = parse_field(f[1].as_slice(), 0, 23)?;
        let days = parse_field(f[2].as_slice(), 1, 31)?;
        let months = parse_field(f[3].as_slice(), 1, 12)?;
        let weekdays = parse_field(f[4].as_slice(), 0, 7)?;
        let any_day: bool = f[2].len() > 0 && f[2][0] == '*';
        let any_weekday: bool = f[4].len() > 0 && f[4][0] == '*';
        Some(Self { minutes, hours, days, months, weekdays, any_day, any_weekday })
    }

    /// Tells whether the expression fires in the minute `m`.
    pub fn fires(&self, m: &Moment) -> (r: bool)
        ensures
            r == self@.fires(*m),
    {
        proof {
            use_type_invariant(self);
        }
        let day_hit: bool = 1 <= m.day && m.day <= 31 && self.days[m.day as usize];
        let weekday_hit: bool = m.weekday < 7 && (self.weekdays[m.weekday as usize] || (m.weekday
            == 0 && self.weekdays[7]));
        let day_ok: bool = if self.any_day || self.any_weekday {
            day_hit && weekday_hit
        } else {
            day_hit || weekday_hit
        };
        let minute_hit: bool = m.minute < 60 && self.minutes[m.minute as usize];
        let hour_hit: bool = m.hour < 24 && self.hours[m.hour as usize];
        let month_hit: bool = 1 <= m.month && m.month <= 12 && self.months[m.month as usize];
        minute_hit && hour_hit && month_hit && day_ok
    }

    /// Tells whether the expression fires in the minute in which the time
    /// `ms` lies, in milliseconds since the start of 1970.
    pub fn fires_at(&self, ms: u64) -> (r: bool)
        ensures
            r == self@.fires(moment_at(ms)),
    {
        let m = moment_of(ms);
        self.fires(&m)
    }
}

} // verus!
