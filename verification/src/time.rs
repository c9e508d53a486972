//! Instants on the UTC time scale.
use vstd::prelude::*;

use crate::model::Deep;

verus! {

/// The first second an instant can lie in.
pub const MIN_SECONDS: i64 = -8_334_601_228_800;

/// The last second an instant can lie in.
pub const MAX_SECONDS: i64 = 8_210_266_876_799;

/// Whether a second and a fraction make an instant. The fraction is below one
/// second, or below two in the last second of a minute, where it stands for
/// a leap second.
pub open spec fn is_instant(seconds: int, nanos: int) -> bool {
    &&& MIN_SECONDS <= seconds <= MAX_SECONDS
    &&& 0 <= nanos < 2_000_000_000
    &&& nanos >= 1_000_000_000 ==> seconds % 60 == 59
}

/// An instant: whole seconds since the Unix epoch, not counting leap seconds,
/// and nanoseconds since the start of that second.
#[derive(Debug, Clone, Copy, PartialEq, Eq, PartialOrd, Ord, Hash, Structural)]
pub struct Timestamp {
    seconds: i64,
    nanos: u32,
}

impl DeepView for Timestamp {
    type V = Timestamp;

    open spec fn deep_view(&self) -> Timestamp {
        *self
    }
}

impl Deep for Timestamp {
    fn deep_clone(&self) -> (r: Self) {
        *self
    }

    fn deep_eq(&self, other: &Self) -> (r: bool) {
        *self == *other
    }
}

/// The instant an RFC 3339 text names, as seconds and nanoseconds.
pub uninterp spec fn rfc3339_instant(text: Seq<char>) -> Option<(i64, u32)>;

/// Reads an RFC 3339 text.
///
/// Relies on `chrono::DateTime::parse_from_rfc3339`, whose result on the UTC
/// time scale is named [`rfc3339_instant`]: it depends on the text alone. The
/// year has four digits and the offset is shorter than a day, which bounds
/// the seconds.
#[verifier::external_body]
fn read_rfc3339(text: &str) -> (r: Option<(i64, u32)>)
    ensures
        r == rfc3339_instant(text@),
        r matches Some(p) ==> is_instant(p.0 as int, p.1 as int) && -62_167_305_600 <= p.0
            <= 253_402_387_199,
{
    match chrono::DateTime::parse_from_rfc3339(text) {
        Ok(t) => Some((t.timestamp(), t.timestamp_subsec_nanos())),
        Err(_) => None,
    }
}

/// The instant a text in relaxed RFC 3339 form names, as seconds and
/// nanoseconds.
pub uninterp spec fn relaxed_instant(text: Seq<char>) -> Option<(i64, u32)>;

/// Reads a text in the relaxed form of RFC 3339.
///
/// Relies on the `FromStr` of `chrono::DateTime<chrono::Utc>`, whose result is
/// named [`relaxed_instant`]: it depends on the text alone.
#[verifier::external_body]
fn read_relaxed(text: &str) -> (r: Option<(i64, u32)>)
    ensures
        r == relaxed_instant(text@),
        r matches Some(p) ==> is_instant(p.0 as int, p.1 as int),
{
    match text.parse::<chrono::DateTime<chrono::Utc>>() {
        Ok(t) => Some((t.timestamp(), t.timestamp_subsec_nanos())),
        Err(_) => None,
    }
}

/// Whole seconds from `b` to `a`, rounded toward zero. A leap second of the
/// instant that lies earlier in its day is counted.
pub open spec fn whole_seconds(a: (int, int), b: (int, int)) -> int {
    let day_a = a.0 % 86_400;
    let day_b = b.0 % 86_400;
    let leap: int = if day_a > day_b && b.1 >= 1_000_000_000 {
        1
    } else if day_a < day_b && a.1 >= 1_000_000_000 {
        -1
    } else {
        0
    };
    let nanos = (a.0 - b.0 + leap) * 1_000_000_000 + (a.1 - b.1);
    if nanos >= 0 {
        nanos / 1_000_000_000
    } else {
        -((-nanos) / 1_000_000_000)
    }
}

/// Whole seconds between two instants.
///
/// Relies on `chrono::DateTime::signed_duration_since` and
/// `chrono::TimeDelta::num_seconds`: the seconds and fractions are
/// subtracted, a leap second of the instant earlier in its day counts as one
/// more second, and the difference is rounded toward zero.
#[verifier::external_body]
fn duration_seconds(a: (i64, u32), b: (i64, u32)) -> (r: i64)
    requires
        is_instant(a.0 as int, a.1 as int),
        is_instant(b.0 as int, b.1 as int),
    ensures
        r == whole_seconds((a.0 as int, a.1 as int), (b.0 as int, b.1 as int)),
{
    let x = chrono::DateTime::from_timestamp(a.0, a.1).unwrap();
    let y = chrono::DateTime::from_timestamp(b.0, b.1).unwrap();
    x.signed_duration_since(y).num_seconds()
}

/// An instant moved back by a positive number of seconds. One within a leap
/// second is moved from the end of it.
pub open spec fn moved_back(t: (int, int), seconds: int) -> (int, int) {
    if t.1 >= 1_000_000_000 {
        (t.0 + 1 - seconds, t.1 - 1_000_000_000)
    } else {
        (t.0 - seconds, t.1)
    }
}

/// Moves an instant back.
///
/// Relies on `chrono::DateTime::checked_sub_signed` for a positive number of
/// whole seconds: the seconds are subtracted and the fraction kept, where an
/// instant within a leap second is first taken as the same fraction of the
/// second after it.
#[verifier::external_body]
fn subtract_seconds(t: (i64, u32), seconds: i64) -> (r: (i64, u32))
    requires
        is_instant(t.0 as int, t.1 as int),
        0 < seconds <= 86_400,
        MIN_SECONDS + 86_400 <= t.0,
    ensures
        (r.0 as int, r.1 as int) == moved_back((t.0 as int, t.1 as int), seconds as int),
{
    let x = chrono::DateTime::from_timestamp(t.0, t.1).unwrap();
    let y = x.checked_sub_signed(chrono::TimeDelta::seconds(seconds)).unwrap();
    (y.timestamp(), y.timestamp_subsec_nanos())
}

/// An instant moved forward by a number of seconds. One within a leap second
/// is moved from the second before it.
pub open spec fn moved_forward(t: (int, int), seconds: int) -> (int, int) {
    if seconds > 0 && t.1 >= 1_000_000_000 {
        (t.0 + seconds, t.1 - 1_000_000_000)
    } else {
        (t.0 + seconds, t.1)
    }
}

/// Moves an instant forward.
///
/// Relies on `chrono::DateTime::checked_add_signed` for a number of whole
/// seconds: the seconds are added and the fraction kept, where an instant
/// within a leap second that is moved at all is first taken as the same
/// fraction of the second before it.
#[verifier::external_body]
fn add_seconds(t: (i64, u32), seconds: u32) -> (r: (i64, u32))
    requires
        is_instant(t.0 as int, t.1 as int),
        t.0 + seconds <= MAX_SECONDS,
    ensures
        (r.0 as int, r.1 as int) == moved_forward((t.0 as int, t.1 as int), seconds as int),
{
    let x = chrono::DateTime::from_timestamp(t.0, t.1).unwrap();
    let y = x.checked_add_signed(chrono::TimeDelta::seconds(seconds as i64)).unwrap();
    (y.timestamp(), y.timestamp_subsec_nanos())
}

impl Timestamp {
    #[verifier::type_invariant]
    spec fn wf(&self) -> bool {
        is_instant(self.seconds as int, self.nanos as int)
    }

    /// The instant made of a second and a fraction.
    pub closed spec fn of(seconds: i64, nanos: u32) -> Timestamp {
        Timestamp { seconds, nanos }
    }

    /// The second and the fraction of an instant.
    pub closed spec fn parts(self) -> (int, int) {
        (self.seconds as int, self.nanos as int)
    }

    /// The instant at `seconds` and `nanos`, if there is one.
    pub fn from_parts(seconds: i64, nanos: u32) -> (r: Option<Timestamp>)
        ensures
            r == (if is_instant(seconds as int, nanos as int) {
                Some(Timestamp::of(seconds, nanos))
            } else {
                None
            }),
            r matches Some(t) ==> t.parts() == (seconds as int, nanos as int),
    {
        if seconds < MIN_SECONDS || seconds > MAX_SECONDS || nanos >= 2_000_000_000 {
            return None;
        }
        if nanos >= 1_000_000_000 {
            let shifted: u64 = (seconds - MIN_SECONDS) as u64;
            assert(MIN_SECONDS % 60 == 0);
            assert(seconds as int % 60 == shifted as int % 60);
            if shifted % 60 != 59 {
                return None;
            }
        }
        Some(Timestamp { seconds, nanos })
    }

    /// Whole seconds since the Unix epoch.
    pub fn seconds(&self) -> (r: i64)
        ensures
            r == self.parts().0,
    {
        self.seconds
    }

    /// Nanoseconds since the start of the second.
    pub fn nanos(&self) -> (r: u32)
        ensures
            r == self.parts().1,
    {
        self.nanos
    }

    /// Whether one instant comes before another.
    pub open spec fn earlier(a: Timestamp, b: Timestamp) -> bool {
        a.parts().0 < b.parts().0 || (a.parts().0 == b.parts().0 && a.parts().1 < b.parts().1)
    }

    pub fn is_before(&self, other: &Timestamp) -> (r: bool)
        ensures
            r == Self::earlier(*self, *other),
    {
        self.seconds < other.seconds || (self.seconds == other.seconds && self.nanos < other.nanos)
    }

    /// This instant moved forward by `seconds`.
    pub fn plus_seconds(&self, seconds: u32) -> (r: Timestamp)
        requires
            self.parts().0 + seconds <= MAX_SECONDS,
        ensures
            r.parts() == moved_forward(self.parts(), seconds as int),
    {
        proof {
            use_type_invariant(self);
        }
        let r = add_seconds((self.seconds, self.nanos), seconds);
        Timestamp { seconds: r.0, nanos: r.1 }
    }

    /// Whole seconds from `earlier` to this instant, rounded toward zero.
    pub fn seconds_since(&self, earlier: &Timestamp) -> (r: i64)
        ensures
            r == whole_seconds(self.parts(), earlier.parts()),
    {
        proof {
            use_type_invariant(self);
            use_type_invariant(earlier);
        }
        duration_seconds((self.seconds, self.nanos), (earlier.seconds, earlier.nanos))
    }

    /// Whether this instant comes before `other` moved back by `seconds`.
    pub fn is_before_with_grace(&self, other: &Timestamp, seconds: i64) -> (r: bool)
        requires
            0 < seconds <= 86_400,
            MIN_SECONDS + 86_400 <= other.parts().0,
        ensures
            r == {
                let start = moved_back(other.parts(), seconds as int);
                self.parts().0 < start.0 || (self.parts().0 == start.0 && self.parts().1 < start.1)
            },
    {
        proof {
            use_type_invariant(other);
        }
        let start = subtract_seconds((other.seconds, other.nanos), seconds);
        self.seconds < start.0 || (self.seconds == start.0 && self.nanos < start.1)
    }
}

/// The instant an RFC 3339 text names.
pub open spec fn rfc3339(text: Seq<char>) -> Option<Timestamp> {
    match rfc3339_instant(text) {
        Some(p) => Some(Timestamp::of(p.0, p.1)),
        None => None,
    }
}

/// Reads an RFC 3339 timestamp.
pub fn parse_rfc3339(text: &str) -> (r: Option<Timestamp>)
    ensures
        r == rfc3339(text@),
        r matches Some(t) ==> -62_167_305_600 <= t.parts().0 <= 253_402_387_199,
{
    match read_rfc3339(text) {
        Some(p) => Some(Timestamp { seconds: p.0, nanos: p.1 }),
        None => None,
    }
}

/// The instant a text in relaxed RFC 3339 form names.
pub open spec fn relaxed_rfc3339(text: Seq<char>) -> Option<Timestamp> {
    match relaxed_instant(text) {
        Some(p) => Some(Timestamp::of(p.0, p.1)),
        None => None,
    }
}

/// Reads a timestamp in relaxed RFC 3339 form.
pub fn parse_relaxed(text: &str) -> (r: Option<Timestamp>)
    ensures
        r == relaxed_rfc3339(text@),
{
    match read_relaxed(text) {
        Some(p) => Some(Timestamp { seconds: p.0, nanos: p.1 }),
        None => None,
    }
}

/// Of two instants exactly one comes before the other, unless they are the
/// same.
pub proof fn law_instants_are_totally_ordered(a: Timestamp, b: Timestamp)
    ensures
        a == b || Timestamp::earlier(a, b) || Timestamp::earlier(b, a),
        !(Timestamp::earlier(a, b) && Timestamp::earlier(b, a)),
        a == b ==> !Timestamp::earlier(a, b),
{
}

} // verus!
