//! One visit in the making: begun before the request goes out, finished when
//! its outcome is known.

use vstd::prelude::*;
use crate::status::{recorded, Reply, Status};

verus! {

/// `std::time::Instant`, a reading of the monotonic clock. The library
/// carries it from the beginning of a visit to its end and looks at none of
/// it.
#[verifier::external_type_specification]
#[verifier::external_body]
pub struct ExInstant(std::time::Instant);

/// `Instant::now` of std reads the monotonic clock; nothing is promised of
/// the instant that it gives.
pub assume_specification[ std::time::Instant::now ]() -> (now: std::time::Instant)
;

/// `Instant::elapsed` of std gives the time that has passed since the
/// instant; nothing is promised of its length.
pub assume_specification[ std::time::Instant::elapsed ](start: &std::time::Instant) -> (passed:
    core::time::Duration)
;

/// `Duration::as_millis` of std gives the whole milliseconds of a duration;
/// nothing is promised of their number.
pub assume_specification[ core::time::Duration::as_millis ](passed: &core::time::Duration) -> (ms:
    u128)
;

/// How a time of day that is told in UTC ends: with the offset zero.
pub open spec fn utc_offset() -> Seq<char> {
    "+00:00"@
}

/// `chrono::Utc::now` reads the wall clock, and `to_rfc3339` writes the
/// moment down as a date and time followed by its offset from UTC, which
/// is zero here. Nothing else is promised of the text. The clock must not
/// stand before 1970.
#[verifier::external_body]
fn utc_timestamp() -> (text: String)
    ensures
        utc_offset().is_suffix_of(text@),
{
    chrono::Utc::now().to_rfc3339()
}

/// A visit that has begun.
pub struct Probe {
    url: String,
    timestamp: String,
    started: std::time::Instant,
}

impl Probe {
    #[verifier::type_invariant]
    spec fn told_in_utc(self) -> bool {
        utc_offset().is_suffix_of(self.timestamp@)
    }

    /// The address that is being visited.
    pub closed spec fn url(self) -> Seq<char> {
        self.url@
    }

    /// When the visit began.
    pub closed spec fn timestamp(self) -> Seq<char> {
        self.timestamp@
    }

    /// Begins a visit of `url`: notes the time of day and starts the watch.
    /// The request is to go out right after.
    pub fn begin(url: &str) -> (probe: Probe)
        ensures
            probe.url() == url@,
            utc_offset().is_suffix_of(probe.timestamp()),
    {
        let started = std::time::Instant::now();
        let timestamp = utc_timestamp();
        Probe { url: url.to_owned(), timestamp, started }
    }

    /// The address to request.
    pub fn target(&self) -> (url: &String)
        ensures
            url@ == self.url(),
    {
        &self.url
    }

    /// Finishes the visit with what came of the request: stops the watch and
    /// makes the record. Whatever the watch shows, the record holds the
    /// address and the time of day of the beginning, and `reply` decides its
    /// status and its error.
    pub fn finish(self, reply: Reply) -> (status: Status)
        ensures
            status@ == recorded(self.url(), self.timestamp(), status@.elapsed_ms, reply@),
            status@.consistent(),
            utc_offset().is_suffix_of(status@.timestamp),
    {
        proof {
            use_type_invariant(&self);
        }
        let elapsed_ms = self.started.elapsed().as_millis();
        Status::record(self.url, self.timestamp, elapsed_ms, reply)
    }
}

} // verus!
