//! Instants of UTC time, as `chrono` counts them.

use vstd::prelude::*;

verus! {

/// The earliest second that `chrono` can represent.
pub const MIN_SECS: i64 = -8334601228800;

/// The latest second that `chrono` can represent.
pub const MAX_SECS: i64 = 8210266876799;

/// Nanoseconds in a second.
pub const NANOS_PER_SEC: u32 = 1_000_000_000;

/// An instant: whole seconds since the Unix epoch, and nanoseconds into that second.
/// From a thousand million nanoseconds on, the instant lies in the leap second that
/// follows the second.
#[verifier::ext_equal]
pub struct Moment {
    pub secs: int,
    pub nanos: int,
}

/// The instants that exist: in range, and with leap seconds only at the end of a minute.
pub open spec fn valid_moment(m: Moment) -> bool {
    &&& MIN_SECS <= m.secs <= MAX_SECS
    &&& 0 <= m.nanos < 2_000_000_000
    &&& m.nanos >= 1_000_000_000 ==> m.secs % 60 == 59
}

/// `a` is not later than `b`.
pub open spec fn not_after(a: Moment, b: Moment) -> bool {
    a.secs < b.secs || (a.secs == b.secs && a.nanos <= b.nanos)
}

/// The second of its day that an instant falls in.
pub open spec fn second_of_day(m: Moment) -> int {
    m.secs % 86_400
}

/// The nanoseconds from `earlier` to `later`, negative when `later` comes first. A leap
/// second counts when the clock time of the other instant lies beyond it.
pub open spec fn nanos_between(later: Moment, earlier: Moment) -> int {
    let leap: int = if second_of_day(later) > second_of_day(earlier) && earlier.nanos
        >= 1_000_000_000 {
        1
    } else if second_of_day(later) < second_of_day(earlier) && later.nanos >= 1_000_000_000 {
        -1
    } else {
        0
    };
    (later.secs - earlier.secs + leap) * 1_000_000_000 + (later.nanos - earlier.nanos)
}

/// The instant a whole number of seconds away. Leaving a leap second ends it.
pub open spec fn shifted(m: Moment, seconds: int) -> Moment {
    if m.nanos >= 1_000_000_000 && seconds > 0 {
        Moment { secs: m.secs + seconds, nanos: m.nanos - 1_000_000_000 }
    } else if m.nanos >= 1_000_000_000 && seconds < 0 {
        Moment { secs: m.secs + 1 + seconds, nanos: m.nanos - 1_000_000_000 }
    } else {
        Moment { secs: m.secs + seconds, nanos: m.nanos }
    }
}

/// The instant that lies `seconds` away can be represented.
pub open spec fn in_range_after(m: Moment, seconds: int) -> bool {
    MIN_SECS <= shifted(m, seconds).secs <= MAX_SECS
}

/// What `chrono::DateTime::parse_from_rfc3339` reads from a text, in UTC: the second
/// and the nanoseconds, or nothing where it reports an error.
pub uninterp spec fn rfc3339_instant(text: Seq<char>) -> Option<(i64, u32)>;

/// What `chrono::DateTime::to_rfc3339` writes for an instant in UTC.
pub uninterp spec fn rfc3339_text(secs: i64, nanos: u32) -> Seq<char>;

/// What `chrono::DateTime::to_rfc3339_opts` writes for an instant in UTC when asked for
/// whole seconds and `Z`.
pub uninterp spec fn rfc3339_seconds_text(secs: i64, nanos: u32) -> Seq<char>;

/// The instant that an RFC 3339 text denotes.
pub open spec fn read_moment(text: Seq<char>) -> Option<Moment> {
    match rfc3339_instant(text) {
        Some((secs, nanos)) => Some(Moment { secs: secs as int, nanos: nanos as int }),
        None => None,
    }
}

/// The RFC 3339 text of an instant.
pub open spec fn moment_text(m: Moment) -> Seq<char> {
    rfc3339_text(m.secs as i64, m.nanos as u32)
}

/// The RFC 3339 text of an instant in whole seconds.
pub open spec fn moment_seconds_text(m: Moment) -> Seq<char> {
    rfc3339_seconds_text(m.secs as i64, m.nanos as u32)
}

/// The instant lies in the years from 0 to 9999, those that RFC 3339 can write.
pub open spec fn four_digit_year(secs: int) -> bool {
    -62167219200 <= secs <= 253402300799
}

/// The beginning of the second, or of the leap second, that an instant lies in.
pub open spec fn whole_second(m: Moment) -> Moment {
    Moment {
        secs: m.secs,
        nanos: if m.nanos >= 1_000_000_000 {
            1_000_000_000
        } else {
            0
        },
    }
}

/// `chrono::Utc::now`: the system clock as seconds since the Unix epoch and nanoseconds.
/// What the clock says is left open; it is never a leap second. (The call panics where the
/// clock stands before 1970 or beyond the latest second.)
#[verifier::external_body]
fn chrono_now() -> (r: (i64, u32))
    ensures
        0 <= r.0 <= MAX_SECS,
        r.1 < 1_000_000_000,
{
    let now = chrono::Utc::now();
    (now.timestamp(), now.timestamp_subsec_nanos())
}

/// `chrono::DateTime::parse_from_rfc3339`, with the result taken to UTC: named, and an
/// instant that exists wherever the text is accepted.
#[verifier::external_body]
fn chrono_parse_rfc3339(text: &str) -> (r: Option<(i64, u32)>)
    ensures
        r == rfc3339_instant(text@),
        r matches Some((secs, nanos)) ==> valid_moment(
            (Moment { secs: secs as int, nanos: nanos as int }),
        ),
{
    let parsed = chrono::DateTime::parse_from_rfc3339(text).ok()?.with_timezone(&chrono::Utc);
    Some((parsed.timestamp(), parsed.timestamp_subsec_nanos()))
}

/// `chrono::DateTime::to_rfc3339`: named. In the years that RFC 3339 can write, reading
/// the text gives the instant back.
#[verifier::external_body]
fn chrono_to_rfc3339(secs: i64, nanos: u32) -> (r: String)
    requires
        valid_moment((Moment { secs: secs as int, nanos: nanos as int })),
    ensures
        r@ == rfc3339_text(secs, nanos),
        four_digit_year(secs as int) ==> rfc3339_instant(r@) == Some((secs, nanos)),
{
    chrono::DateTime::from_timestamp(secs, nanos).expect("a valid instant").to_rfc3339()
}

/// `chrono::DateTime::to_rfc3339_opts` in whole seconds, with `Z` for UTC: named. In the years
/// that RFC 3339 can write, reading the text gives the beginning of the second.
#[verifier::external_body]
fn chrono_to_rfc3339_seconds(secs: i64, nanos: u32) -> (r: String)
    requires
        valid_moment((Moment { secs: secs as int, nanos: nanos as int })),
    ensures
        r@ == rfc3339_seconds_text(secs, nanos),
        four_digit_year(secs as int) ==> rfc3339_instant(r@) == if nanos >= 1_000_000_000 {
            Some((secs, 1_000_000_000u32))
        } else {
            Some((secs, 0u32))
        },
{
    chrono::DateTime::from_timestamp(secs, nanos)
        .expect("a valid instant")
        .to_rfc3339_opts(chrono::SecondsFormat::Secs, true)
}

/// `chrono::DateTime::signed_duration_since`: the difference in whole seconds and the
/// nanoseconds beyond them, both of the same sign.
#[verifier::external_body]
fn chrono_difference(later: (i64, u32), earlier: (i64, u32)) -> (r: (i64, i32))
    requires
        valid_moment((Moment { secs: later.0 as int, nanos: later.1 as int })),
        valid_moment((Moment { secs: earlier.0 as int, nanos: earlier.1 as int })),
    ensures
        r.0 * 1_000_000_000 + r.1 == nanos_between(
            (Moment { secs: later.0 as int, nanos: later.1 as int }),
            (Moment { secs: earlier.0 as int, nanos: earlier.1 as int }),
        ),
        -1_000_000_000 < r.1 < 1_000_000_000,
        r.0 > 0 ==> r.1 >= 0,
        r.0 < 0 ==> r.1 <= 0,
{
    let a = chrono::DateTime::from_timestamp(later.0, later.1).expect("a valid instant");
    let b = chrono::DateTime::from_timestamp(earlier.0, earlier.1).expect("a valid instant");
    let delta = a.signed_duration_since(b);
    (delta.num_seconds(), delta.subsec_nanos())
}

/// `chrono::DateTime + chrono::Duration::seconds`: the instant that many seconds away,
/// where it can be represented (elsewhere the sum panics).
#[verifier::external_body]
fn chrono_add_seconds(secs: i64, nanos: u32, seconds: i64) -> (r: (i64, u32))
    requires
        valid_moment((Moment { secs: secs as int, nanos: nanos as int })),
        in_range_after((Moment { secs: secs as int, nanos: nanos as int }), seconds as int),
    ensures
        (Moment { secs: r.0 as int, nanos: r.1 as int }) == shifted(
            (Moment { secs: secs as int, nanos: nanos as int }),
            seconds as int,
        ),
{
    let start = chrono::DateTime::from_timestamp(secs, nanos).expect("a valid instant");
    let end = start + chrono::Duration::seconds(seconds);
    (end.timestamp(), end.timestamp_subsec_nanos())
}

/// An instant of UTC time. Every value of the type is an instant that exists.
#[derive(Clone, Copy, Debug, PartialEq, Eq)]
pub struct Timestamp {
    secs: i64,
    nanos: u32,
}

impl View for Timestamp {
    type V = Moment;

    closed spec fn view(&self) -> Moment {
        Moment { secs: self.secs as int, nanos: self.nanos as int }
    }
}

/// The instant behind an optional timestamp.
pub open spec fn opt_moment(t: Option<Timestamp>) -> Option<Moment> {
    match t {
        Some(t) => Some(t@),
        None => None,
    }
}

impl Timestamp {
    #[verifier::type_invariant]
    closed spec fn exists_in_time(self) -> bool {
        valid_moment(self@)
    }

    /// The instant with the given seconds and nanoseconds, where there is one.
    pub fn new(secs: i64, nanos: u32) -> (r: Option<Timestamp>)
        ensures
            r is Some <==> valid_moment((Moment { secs: secs as int, nanos: nanos as int })),
            r matches Some(t) ==> t@ == (Moment { secs: secs as int, nanos: nanos as int }),
    {
        if MIN_SECS <= secs && secs <= MAX_SECS && nanos < 2_000_000_000 && (nanos < NANOS_PER_SEC
            || ((secs - MIN_SECS) as u64) % 60 == 59) {
            Some(Timestamp { secs, nanos })
        } else {
            None
        }
    }

    /// The current time.
    pub fn now() -> (r: Timestamp)
        ensures
            valid_moment(r@),
            r@.secs >= 0,
            r@.nanos < 1_000_000_000,
    {
        let (secs, nanos) = chrono_now();
        Timestamp { secs, nanos }
    }

    /// Whole seconds since the Unix epoch.
    pub fn secs(&self) -> (r: i64)
        ensures
            r == self@.secs,
            valid_moment(self@),
    {
        proof {
            use_type_invariant(self);
        }
        self.secs
    }

    /// Nanoseconds into the second.
    pub fn nanos(&self) -> (r: u32)
        ensures
            r == self@.nanos,
            valid_moment(self@),
    {
        proof {
            use_type_invariant(self);
        }
        self.nanos
    }

    /// The instant that an RFC 3339 text denotes.
    pub fn parse_rfc3339(text: &str) -> (r: Option<Timestamp>)
        ensures
            opt_moment(r) == read_moment(text@),
    {
        match chrono_parse_rfc3339(text) {
            Some((secs, nanos)) => Some(Timestamp { secs, nanos }),
            None => None,
        }
    }

    /// The RFC 3339 text of the instant, with as many digits as it needs.
    pub fn to_rfc3339(&self) -> (r: String)
        ensures
            r@ == moment_text(self@),
            four_digit_year(self@.secs) ==> read_moment(r@) == Some(self@),
    {
        proof {
            use_type_invariant(self);
        }
        chrono_to_rfc3339(self.secs, self.nanos)
    }

    /// The RFC 3339 text of the instant in whole seconds.
    pub fn to_rfc3339_seconds(&self) -> (r: String)
        ensures
            r@ == moment_seconds_text(self@),
            four_digit_year(self@.secs) ==> read_moment(r@) == Some(whole_second(self@)),
    {
        proof {
            use_type_invariant(self);
        }
        chrono_to_rfc3339_seconds(self.secs, self.nanos)
    }

    /// The nanoseconds that have passed since `earlier`.
    pub fn nanos_since(&self, earlier: &Timestamp) -> (r: i128)
        ensures
            r == nanos_between(self@, earlier@),
    {
        proof {
            use_type_invariant(self);
            use_type_invariant(earlier);
        }
        let (secs, nanos) = chrono_difference(
            (self.secs, self.nanos),
            (earlier.secs, earlier.nanos),
        );
        (secs as i128) * 1_000_000_000 + (nanos as i128)
    }

    /// Whether the instant that lies `seconds` away can be represented.
    pub fn can_shift(&self, seconds: i64) -> (r: bool)
        ensures
            r == in_range_after(self@, seconds as int),
    {
        proof {
            use_type_invariant(self);
        }
        let step: i128 = if self.nanos >= NANOS_PER_SEC && seconds < 0 {
            1
        } else {
            0
        };
        let target: i128 = self.secs as i128 + step + seconds as i128;
        MIN_SECS as i128 <= target && target <= MAX_SECS as i128
    }

    /// The instant that lies `seconds` away.
    pub fn shift(&self, seconds: i64) -> (r: Timestamp)
        requires
            in_range_after(self@, seconds as int),
        ensures
            r@ == shifted(self@, seconds as int),
    {
        proof {
            use_type_invariant(self);
        }
        let (secs, nanos) = chrono_add_seconds(self.secs, self.nanos, seconds);
        Timestamp { secs, nanos }
    }

    /// Whether the instant is not later than `other`.
    pub fn at_or_before(&self, other: &Timestamp) -> (r: bool)
        ensures
            r == not_after(self@, other@),
    {
        self.secs < other.secs || (self.secs == other.secs && self.nanos <= other.nanos)
    }
}

/// A copy of an optional timestamp.
pub fn copy_opt_timestamp(t: &Option<Timestamp>) -> (r: Option<Timestamp>)
    ensures
        r == *t,
{
    match t {
        Some(t) => Some(*t),
        None => None,
    }
}

/// Outside leap seconds the difference of two instants is not positive exactly when the
/// first is not later than the second.
pub proof fn law_difference_orders(a: Moment, b: Moment)
    requires
        valid_moment(a),
        valid_moment(b),
        a.nanos < 1_000_000_000,
        b.nanos < 1_000_000_000,
    ensures
        nanos_between(a, b) <= 0 <==> not_after(a, b),
{
}

/// An instant that lies a number of seconds away lies at that distance, unless one of
/// the two is a leap second.
pub proof fn law_shift_distance(m: Moment, seconds: int)
    requires
        valid_moment(m),
        m.nanos < 1_000_000_000,
    ensures
        nanos_between(shifted(m, seconds), m) == seconds * 1_000_000_000,
{
}

/// Instants are ordered as their counts of nanoseconds are, each second taken with the leap
/// second that may follow it.
pub proof fn law_order_is_that_of_time(a: Moment, b: Moment)
    requires
        valid_moment(a),
        valid_moment(b),
    ensures
        not_after(a, b) <==> a.secs * 2_000_000_000 + a.nanos <= b.secs * 2_000_000_000 + b.nanos,
{
}

/// Outside leap seconds the difference of two instants is that of their nanoseconds since the
/// epoch.
pub proof fn law_difference_in_nanoseconds(a: Moment, b: Moment)
    requires
        a.nanos < 1_000_000_000,
        b.nanos < 1_000_000_000,
    ensures
        nanos_between(a, b) == (a.secs * 1_000_000_000 + a.nanos) - (b.secs * 1_000_000_000
            + b.nanos),
{
}

/// Shifts add up, and shifting back undoes a shift, outside leap seconds.
pub proof fn law_shifts_add_up(m: Moment, one: int, other: int)
    requires
        m.nanos < 1_000_000_000,
    ensures
        shifted(shifted(m, one), other) == shifted(m, one + other),
        shifted(shifted(m, one), -one) == m,
        shifted(m, one).secs - m.secs == one,
{
}

/// Every second of the years that RFC 3339 can write exists, with all its nanoseconds; a leap
/// second exists only behind the last second of a minute.
pub proof fn law_instants_that_exist(secs: int, nanos: int)
    requires
        -62167219200 <= secs <= 253402300799,
        0 <= nanos < 2_000_000_000,
    ensures
        valid_moment((Moment { secs, nanos })) <==> nanos < 1_000_000_000 || secs % 60 == 59,
{
}

/// What is read from a text is the second and the nanoseconds that the text denotes.
pub proof fn law_reading_keeps_the_instant(text: Seq<char>, m: Moment)
    requires
        read_moment(text) == Some(m),
    ensures
        rfc3339_instant(text) is Some,
        rfc3339_instant(text)->Some_0.0 == m.secs,
        rfc3339_instant(text)->Some_0.1 == m.nanos,
{
}

/// A shift outside leap seconds stays in range exactly when the second it leads to is one that
/// can be represented.
pub proof fn law_range_of_shifts(m: Moment, seconds: int)
    requires
        m.nanos < 1_000_000_000,
    ensures
        in_range_after(m, seconds) <==> -8334601228800 <= m.secs + seconds <= 8210266876799,
{
}

} // verus!
