//! Points in time and the spans between them, as plain integers.

use vstd::prelude::*;
use vstd::string::*;

verus! {

/// Nanoseconds in one second.
pub const NANOS_PER_SEC: u32 = 1_000_000_000;

/// A point in time: whole seconds since the Unix epoch, and nanoseconds on top.
#[derive(Clone, Copy, Debug, PartialEq, Eq, Structural)]
pub struct Timestamp {
    pub secs: i64,
    pub nanos: u32,
}

/// A non-negative length of time with nanosecond resolution.
///
/// Its view is the length in nanoseconds.
#[derive(Clone, Copy, Debug)]
pub struct Elapsed {
    pub(crate) secs: u64,
    pub(crate) nanos: u32,
}

impl View for Elapsed {
    type V = nat;

    closed spec fn view(&self) -> nat {
        (self.secs as nat) * 1_000_000_000 + self.nanos as nat
    }
}

/// One more than the longest representable length, in nanoseconds.
pub open spec fn elapsed_limit() -> nat {
    0x1_0000_0000_0000_0000 * 1_000_000_000
}

/// Reads the system clock with `chrono::Utc::now` and hands the reading out
/// as seconds and nanoseconds since the epoch, as `DateTime::timestamp` and
/// `DateTime::timestamp_subsec_nanos` give them. Nothing is claimed of the
/// reading: two calls may give any two values. `Utc::now` panics on a
/// machine whose clock stands before the epoch.
#[verifier::external_body]
pub(crate) fn utc_now() -> (now: Timestamp) {
    let now = chrono::Utc::now();
    Timestamp { secs: now.timestamp(), nanos: now.timestamp_subsec_nanos() }
}

/// The text that the standard library's `Debug` formatting of a
/// `std::time::Duration` of `secs` seconds and `nanos` nanoseconds gives at
/// a precision of two digits.
pub uninterp spec fn elapsed_text(secs: u64, nanos: u32) -> Seq<char>;

/// Formats a `std::time::Duration` built by `Duration::new` with `{:.2?}`.
/// With less than a second of nanoseconds nothing carries into the seconds,
/// so the constructor cannot overflow. The text depends on the two numbers
/// alone.
#[verifier::external_body]
pub(crate) fn format_elapsed(secs: u64, nanos: u32) -> (r: String)
    requires
        nanos < NANOS_PER_SEC,
    ensures
        r@ == elapsed_text(secs, nanos),
{
    format!("{:.2?}", std::time::Duration::new(secs, nanos))
}

/// The text that `chrono` gives for the `Debug` formatting of the UTC date
/// and time at `secs` seconds and `nanos` nanoseconds since the epoch;
/// `None` where `chrono` cannot represent that point in time.
pub uninterp spec fn timestamp_text(secs: i64, nanos: u32) -> Option<Seq<char>>;

/// Builds a `chrono::DateTime<Utc>` with `DateTime::from_timestamp`, which
/// gives `None` for seconds out of range or invalid nanoseconds, and formats
/// it with `{:?}`. The outcome depends on the two numbers alone.
#[verifier::external_body]
pub(crate) fn format_timestamp(secs: i64, nanos: u32) -> (r: Option<String>)
    ensures
        r is Some <==> timestamp_text(secs, nanos) is Some,
        r is Some ==> r.unwrap()@ == timestamp_text(secs, nanos).unwrap(),
{
    match chrono::DateTime::from_timestamp(secs, nanos) {
        Some(t) => Some(format!("{:?}", t)),
        None => None,
    }
}

impl Timestamp {
    /// The point in time as nanoseconds since the epoch.
    pub open spec fn as_nanos(self) -> int {
        self.secs as int * 1_000_000_000 + self.nanos as int
    }

    /// The time from `earlier` to `self`, where that is not negative and
    /// can be represented.
    pub open spec fn spec_since(self, earlier: Timestamp) -> Option<nat> {
        let diff = self.as_nanos() - earlier.as_nanos();
        if 0 <= diff < elapsed_limit() {
            Some(diff as nat)
        } else {
            None
        }
    }

    /// The current time by the system clock.
    pub fn now() -> (r: Timestamp) {
        utc_now()
    }

    /// The text for a point in time, given what the calendar made of it:
    /// the calendar's text, or a fixed note where it had none.
    pub open spec fn label_of(rendered: Option<Seq<char>>) -> Seq<char> {
        match rendered {
            Some(t) => t,
            None => "out of range"@,
        }
    }

    /// The text under which the point in time is shown.
    pub open spec fn spec_render(self) -> Seq<char> {
        Self::label_of(timestamp_text(self.secs, self.nanos))
    }

    /// Settles the text for a point in time from what the calendar made of it.
    pub fn label_from(rendered: Option<String>) -> (r: String)
        ensures
            r@ == Self::label_of(
                match rendered {
                    Some(t) => Some(t@),
                    None => None,
                },
            ),
    {
        match rendered {
            Some(t) => t,
            None => String::from_str("out of range"),
        }
    }

    /// The point in time as a calendar date and time of day in UTC.
    pub fn render(&self) -> (r: String)
        ensures
            r@ == self.spec_render(),
    {
        Self::label_from(format_timestamp(self.secs, self.nanos))
    }

    /// The time that has passed from `earlier` to `self`; `None` where `self`
    /// lies before `earlier`.
    pub fn since(self, earlier: Timestamp) -> (r: Option<Elapsed>)
        ensures
            r is Some <==> self.spec_since(earlier) is Some,
            r is Some ==> r.unwrap()@ == self.spec_since(earlier).unwrap(),
    {
        let a: i128 = (self.secs as i128) * 1_000_000_000 + (self.nanos as i128);
        let b: i128 = (earlier.secs as i128) * 1_000_000_000 + (earlier.nanos as i128);
        let diff: i128 = a - b;
        if diff < 0 {
            return None;
        }
        let secs: i128 = diff / 1_000_000_000;
        let nanos: i128 = diff % 1_000_000_000;
        if secs > 0xffff_ffff_ffff_ffff {
            return None;
        }
        let r = Elapsed { secs: secs as u64, nanos: nanos as u32 };
        assert(r@ == diff) by {
            assert(diff == secs * 1_000_000_000 + nanos) by (nonlinear_arith)
                requires
                    secs == diff / 1_000_000_000,
                    nanos == diff % 1_000_000_000,
            ;
        }
        assert(diff < elapsed_limit()) by (nonlinear_arith)
            requires
                diff == secs * 1_000_000_000 + nanos,
                secs <= 0xffff_ffff_ffff_ffff,
                nanos < 1_000_000_000,
                elapsed_limit() == 0x1_0000_0000_0000_0000 * 1_000_000_000,
        ;
        Some(r)
    }
}

impl Elapsed {
    #[verifier::type_invariant]
    spec fn inv(self) -> bool {
        self.nanos < 1_000_000_000
    }

    /// A length of `secs` seconds and `nanos` nanoseconds; `None` unless
    /// `nanos` is less than a second.
    pub fn new(secs: u64, nanos: u32) -> (r: Option<Elapsed>)
        ensures
            r is Some <==> nanos < NANOS_PER_SEC,
            r is Some ==> r.unwrap()@ == secs as nat * 1_000_000_000 + nanos as nat,
    {
        if nanos < NANOS_PER_SEC {
            Some(Elapsed { secs, nanos })
        } else {
            None
        }
    }

    /// The text under which the length is shown.
    pub open spec fn spec_render(self) -> Seq<char> {
        elapsed_text((self@ / 1_000_000_000) as u64, (self@ % 1_000_000_000) as u32)
    }

    /// The length in a short form with a unit.
    pub fn render(&self) -> (r: String)
        ensures
            r@ == self.spec_render(),
    {
        let secs = self.secs();
        let nanos = self.subsec_nanos();
        format_elapsed(secs, nanos)
    }

    /// The whole seconds of the length.
    pub fn secs(&self) -> (r: u64)
        ensures
            r as nat == self@ / 1_000_000_000,
    {
        proof {
            use_type_invariant(self);
            let s = self.secs as nat;
            let n = self.nanos as nat;
            assert((s * 1_000_000_000 + n) / 1_000_000_000 == s) by (nonlinear_arith)
                requires
                    n < 1_000_000_000,
            ;
        }
        self.secs
    }

    /// What is left of the length beyond its whole seconds, in nanoseconds.
    pub fn subsec_nanos(&self) -> (r: u32)
        ensures
            r as nat == self@ % 1_000_000_000,
    {
        proof {
            use_type_invariant(self);
            let s = self.secs as nat;
            let n = self.nanos as nat;
            assert((s * 1_000_000_000 + n) % 1_000_000_000 == n) by (nonlinear_arith)
                requires
                    n < 1_000_000_000,
            ;
        }
        self.nanos
    }
}

} // verus!
