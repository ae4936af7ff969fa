//! Points in time, held as whole seconds since the Unix epoch plus a
//! sub-second nanosecond part, and their conversions to and from chrono.
use vstd::prelude::*;

verus! {

/// First second that chrono can hold: -262143-01-01T00:00:00Z.
pub const CHRONO_MIN_SECS: i64 = -8334601315200i64;

/// First second past what chrono can hold: +262143-01-01T00:00:00Z.
pub const CHRONO_END_SECS: i64 = 8210266876800i64;

/// Whether chrono can represent the instant `secs` seconds and `nanos`
/// nanoseconds after the Unix epoch as a `DateTime<Utc>`: the date lies in
/// the years -262143 to 262142, and the nanoseconds are under a second, or
/// under two seconds in the last second of a minute (a leap second).
pub open spec fn chrono_representable(secs: i64, nanos: u32) -> bool {
    &&& CHRONO_MIN_SECS <= secs < CHRONO_END_SECS
    &&& (nanos < 1_000_000_000 || (nanos < 2_000_000_000 && secs % 60 == 59))
}

/// First second of the year 0 (0000-01-01T00:00:00Z).
pub const RFC2822_MIN_SECS: i64 = -62167219200i64;

/// First second of the year 10000 (10000-01-01T00:00:00Z).
pub const RFC2822_END_SECS: i64 = 253402300800i64;

/// An instant in UTC, as chrono's `DateTime<Utc>` holds it.
#[derive(Clone, Copy, Debug, PartialEq, Eq, Structural)]
pub struct Timestamp {
    pub(crate) secs: i64,
    pub(crate) nanos: u32,
}

/// chrono `DateTime::from_timestamp(secs, nanos).is_some()`: whether the pair
/// names an instant that chrono can hold, which chrono's source decides as
/// `chrono_representable` states.
#[verifier::external_body]
fn chrono_accepts(secs: i64, nanos: u32) -> (b: bool)
    ensures
        b == chrono_representable(secs, nanos),
{
    chrono::DateTime::from_timestamp(secs, nanos).is_some()
}

impl View for Timestamp {
    type V = (i64, u32);

    closed spec fn view(&self) -> (i64, u32) {
        (self.secs, self.nanos)
    }
}

/// The year of the instant lies between 0 and 9999, the years that an
/// RFC 2822 date can spell.
pub open spec fn in_rfc2822_years(t: (i64, u32)) -> bool {
    RFC2822_MIN_SECS <= t.0 < RFC2822_END_SECS
}

impl Timestamp {
    #[verifier::type_invariant]
    spec fn representable(self) -> bool {
        chrono_representable(self.secs, self.nanos)
    }

    /// The instant `secs` seconds and `nanos` nanoseconds after the Unix
    /// epoch, or `None` where chrono cannot represent it.
    pub fn new(secs: i64, nanos: u32) -> (r: Option<Timestamp>)
        ensures
            r is Some <==> chrono_representable(secs, nanos),
            r matches Some(t) ==> t@ == (secs, nanos),
    {
        if chrono_accepts(secs, nanos) {
            Some(Timestamp { secs, nanos })
        } else {
            None
        }
    }

    pub fn secs(&self) -> (r: i64)
        ensures
            r == self@.0,
    {
        self.secs
    }

    pub fn nanos(&self) -> (r: u32)
        ensures
            r == self@.1,
    {
        self.nanos
    }

}

/// What chrono `DateTime::<Utc>::to_rfc2822` gives for the instant.
pub uninterp spec fn rfc2822_text(t: (i64, u32)) -> Seq<char>;

/// chrono `DateTime::<Utc>::to_rfc2822` on the instant, such as
/// `Tue, 1 Jul 2003 10:52:37 +0000`. chrono panics on years outside 0..=9999,
/// so those are left out; the text is named, not spelled out.
#[verifier::external_body]
pub(crate) fn rfc2822(t: &Timestamp) -> (r: String)
    requires
        in_rfc2822_years(t@),
    ensures
        r@ == rfc2822_text(t@),
{
    chrono::DateTime::from_timestamp(t.secs, t.nanos).unwrap().to_rfc2822()
}

/// What chrono's `Serialize` for `DateTime<Utc>` writes for the instant:
/// `to_rfc3339_opts(SecondsFormat::AutoSi, true)`.
pub uninterp spec fn rfc3339_text(t: (i64, u32)) -> Seq<char>;

/// chrono `DateTime::<Utc>::to_rfc3339_opts(SecondsFormat::AutoSi, true)` on
/// the instant, such as `2003-07-01T10:52:37Z`, as chrono's serde support
/// writes it; the text is named, not spelled out.
#[verifier::external_body]
pub(crate) fn rfc3339(t: &Timestamp) -> (r: String)
    ensures
        r@ == rfc3339_text(t@),
{
    chrono::DateTime::from_timestamp(t.secs, t.nanos).unwrap().to_rfc3339_opts(chrono::SecondsFormat::AutoSi, true)
}

} // verus!
