//! Points in time, and how they are written.

use vstd::prelude::*;
use crate::models::outcome;

verus! {

/// A point in time: whole seconds since the start of 1970 in UTC, and nanoseconds since
/// the last whole second. The nanoseconds of a leap second go over one second.
#[derive(Clone, Copy, Debug, PartialEq, Eq, Structural)]
pub struct Timestamp {
    seconds: i64,
    nanos: u32,
}

impl DeepView for Timestamp {
    type V = (i64, u32);

    closed spec fn deep_view(&self) -> (i64, u32) {
        (self.seconds, self.nanos)
    }
}

/// Whether there is such a point in time: of the years from 262144 BCE to 262142 CE,
/// and with a leap second only at the end of a minute.
pub open spec fn valid_time(seconds: i64, nanos: u32) -> bool {
    &&& -8334601228800 <= seconds <= 8210266876799
    &&& nanos < 1_000_000_000 || (nanos < 2_000_000_000 && seconds % 60 == 59)
}

/// Whether a point in time is of a year with four digits.
pub open spec fn four_digit_year(time: (i64, u32)) -> bool {
    -62167219200 <= time.0 <= 253402300799
}

/// Whether a point in time is earlier than another.
pub open spec fn earlier(a: (i64, u32), b: (i64, u32)) -> bool {
    a.0 < b.0 || (a.0 == b.0 && a.1 < b.1)
}

/// The latest of points in time.
pub open spec fn latest(times: Seq<(i64, u32)>) -> (i64, u32)
    recommends
        times.len() > 0,
    decreases times.len(),
{
    if times.len() <= 1 {
        times[0]
    } else {
        let rest = latest(times.drop_last());
        if earlier(rest, times.last()) {
            times.last()
        } else {
            rest
        }
    }
}

/// The latest of points in time is one of them, and none of them is later.
pub proof fn law_none_is_later_than_the_latest(times: Seq<(i64, u32)>)
    requires
        times.len() > 0,
    ensures
        times.contains(latest(times)),
        forall|i: int| 0 <= i < times.len() ==> !earlier(latest(times), #[trigger] times[i]),
    decreases times.len(),
{
    if times.len() == 1 {
        assert(times[0] == latest(times));
    } else {
        let rest = times.drop_last();
        law_none_is_later_than_the_latest(rest);
        let i = choose|i: int| 0 <= i < rest.len() && rest[i] == latest(rest);
        assert(times[i] == latest(rest));
        assert(times[times.len() - 1] == times.last());
        assert forall|j: int| 0 <= j < times.len() implies !earlier(
            latest(times),
            #[trigger] times[j],
        ) by {
            if j < rest.len() {
                assert(rest[j] == times[j]);
            }
        }
    }
}

/// The point in time that an RFC 3339 text gives, in seconds and nanoseconds, or what is
/// said of a text that gives none.
pub uninterp spec fn parsed_time(text: Seq<char>) -> Result<(i64, u32), Seq<char>>;

/// The RFC 3339 text of a point in time, in UTC.
pub uninterp spec fn time_text(time: (i64, u32)) -> Seq<char>;

/// `chrono::DateTime::parse_from_rfc3339`, the result taken as seconds and nanoseconds
/// in UTC, the error as its text. It is a function of the text alone and goes by the name
/// `parsed_time`; what it gives is a point in time that there is.
#[verifier::external_body]
fn parse_rfc3339(text: &str) -> (r: Result<(i64, u32), String>)
    ensures
        match r {
            Ok(time) => parsed_time(text@) == Ok::<(i64, u32), Seq<char>>(time),
            Err(error) => parsed_time(text@) == Err::<(i64, u32), Seq<char>>(error@),
        },
        r matches Ok(time) ==> valid_time(time.0, time.1),
{
    match chrono::DateTime::parse_from_rfc3339(text) {
        Ok(parsed) => Ok((parsed.timestamp(), parsed.timestamp_subsec_nanos())),
        Err(error) => Err(error.to_string()),
    }
}

/// `chrono::DateTime::to_rfc3339` of a point in time in UTC. It is a function of the
/// point in time alone and goes by the name `time_text`; for a year of four digits the
/// text parses back to the same point in time.
#[verifier::external_body]
fn format_rfc3339(seconds: i64, nanos: u32) -> (r: String)
    requires
        valid_time(seconds, nanos),
    ensures
        r@ == time_text((seconds, nanos)),
        four_digit_year((seconds, nanos)) ==> parsed_time(r@) is Ok,
        four_digit_year((seconds, nanos)) ==> parsed_time(r@)->Ok_0 == (seconds, nanos),
{
    let point = chrono::DateTime::<chrono::Utc>::from_timestamp(seconds, nanos);
    point.map(|point| point.to_rfc3339()).unwrap_or_default()
}

impl Timestamp {
    #[verifier::type_invariant]
    spec fn is_there(self) -> bool {
        valid_time(self.seconds, self.nanos)
    }

    /// The point in time that is so many seconds and nanoseconds after the start of
    /// 1970 in UTC.
    pub fn new(seconds: i64, nanos: u32) -> (r: Option<Timestamp>)
        ensures
            r.deep_view() == if valid_time(seconds, nanos) {
                Some((seconds, nanos))
            } else {
                None
            },
    {
        if seconds < -8334601228800 || seconds > 8210266876799 {
            return None;
        }
        if nanos < 1_000_000_000 {
            return Some(Timestamp { seconds, nanos });
        }
        if nanos < 2_000_000_000 && ends_a_minute(seconds) {
            return Some(Timestamp { seconds, nanos });
        }
        None
    }

    /// The seconds and nanoseconds of this point in time.
    pub fn parts(self) -> (r: (i64, u32))
        ensures
            r == self.deep_view(),
            valid_time(r.0, r.1),
    {
        proof {
            use_type_invariant(&self);
        }
        (self.seconds, self.nanos)
    }

    /// The point in time that an RFC 3339 text gives, or what is said of a text that
    /// gives none.
    pub fn parse(text: &str) -> (r: Result<Timestamp, String>)
        ensures
            outcome(r) == parsed_time(text@),
    {
        match parse_rfc3339(text) {
            Ok((seconds, nanos)) => Ok(Timestamp { seconds, nanos }),
            Err(error) => Err(error),
        }
    }

    /// The RFC 3339 text of this point in time; for a year of four digits it parses back
    /// to this point in time.
    pub fn to_text(self) -> (r: String)
        ensures
            r@ == time_text(self.deep_view()),
            four_digit_year(self.deep_view()) ==> parsed_time(r@) == Ok::<(i64, u32), Seq<char>>(
                self.deep_view(),
            ),
    {
        proof {
            use_type_invariant(&self);
        }
        format_rfc3339(self.seconds, self.nanos)
    }

    /// Whether this point in time is earlier than another.
    pub fn is_earlier(self, other: Timestamp) -> (r: bool)
        ensures
            r == earlier(self.deep_view(), other.deep_view()),
    {
        self.seconds < other.seconds || (self.seconds == other.seconds && self.nanos < other.nanos)
    }
}

fn ends_a_minute(seconds: i64) -> (r: bool)
    requires
        -8334601228800 <= seconds <= 8210266876799,
    ensures
        r == (seconds % 60 == 59),
{
    let shifted: u64 = (seconds + 8334601228800) as u64;
    shifted % 60 == 59
}

/// The latest of points in time.
pub fn latest_of(times: &Vec<Timestamp>) -> (r: Timestamp)
    requires
        times@.len() > 0,
    ensures
        r.deep_view() == latest(times.deep_view()),
{
    let ghost models = times.deep_view();
    let mut best: Timestamp = times[0];
    let mut i: usize = 1;
    assert(models.take(1) =~= seq![models[0]]);
    while i < times.len()
        invariant
            1 <= i <= times@.len(),
            models == times.deep_view(),
            best.deep_view() == latest(models.take(i as int)),
        decreases times@.len() - i,
    {
        proof {
            let next = models.take(i + 1);
            assert(next.drop_last() =~= models.take(i as int));
            assert(next.last() == times@[i as int].deep_view());
        }
        if best.is_earlier(times[i]) {
            best = times[i];
        }
        i = i + 1;
    }
    assert(models.take(models.len() as int) =~= models);
    best
}

/// Of two points in time the seconds decide, and the fraction where those are the same.
pub proof fn law_seconds_decide(a: (i64, u32), b: (i64, u32))
    ensures
        a.0 < b.0 ==> earlier(a, b) && !earlier(b, a),
        a.0 == b.0 && a.1 < b.1 ==> earlier(a, b) && !earlier(b, a),
        earlier(a, b) || earlier(b, a) || a == b,
        !earlier(a, a),
{
}

} // verus!
