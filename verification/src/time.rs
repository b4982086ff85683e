//! Durations and timestamps as plain integers, and the two clocks the tracker
//! reads.

use vstd::prelude::*;

verus! {

/// A span of time: whole seconds plus a sub-second part in nanoseconds.
#[derive(Clone, Copy, PartialEq, Eq, Debug)]
pub struct Elapsed {
    pub secs: u64,
    pub nanos: u32,
}

/// A point in time: seconds since the Unix epoch plus nanoseconds within the
/// second.
#[derive(Clone, Copy, PartialEq, Eq, Debug)]
pub struct Timestamp {
    pub secs: i64,
    pub nanos: u32,
}

/// The longest span an `Elapsed` can hold, in nanoseconds.
pub open spec fn max_total_nanos() -> nat {
    (u64::MAX as nat) * 1_000_000_000 + 999_999_999
}

/// The span of `n` nanoseconds, for `n` up to `max_total_nanos()`.
pub open spec fn elapsed_of_nanos(n: nat) -> Elapsed {
    Elapsed { secs: (n / 1_000_000_000) as u64, nanos: (n % 1_000_000_000) as u32 }
}

impl Elapsed {
    /// The sub-second part is less than one second.
    pub open spec fn wf(self) -> bool {
        self.nanos < 1_000_000_000
    }

    /// The whole span in nanoseconds.
    pub open spec fn total_nanos(self) -> nat {
        (self.secs as nat) * 1_000_000_000 + (self.nanos as nat)
    }

    /// The sum of two spans, held at the longest representable span.
    pub open spec fn spec_plus(self, other: Elapsed) -> Elapsed {
        let sum = self.total_nanos() + other.total_nanos();
        if sum <= max_total_nanos() {
            elapsed_of_nanos(sum)
        } else {
            elapsed_of_nanos(max_total_nanos())
        }
    }

    /// What is left of this span after `other` is taken from it; nothing
    /// if `other` is the longer one.
    pub open spec fn spec_minus(self, other: Elapsed) -> Elapsed {
        if self.total_nanos() >= other.total_nanos() {
            let rest = (self.total_nanos() - other.total_nanos()) as nat;
            if rest <= max_total_nanos() {
                elapsed_of_nanos(rest)
            } else {
                elapsed_of_nanos(max_total_nanos())
            }
        } else {
            Elapsed { secs: 0, nanos: 0 }
        }
    }

    /// The empty span.
    pub fn zero() -> (r: Elapsed)
        ensures
            r == (Elapsed { secs: 0, nanos: 0 }),
    {
        Elapsed { secs: 0, nanos: 0 }
    }

    /// Adds two spans. The sum saturates instead of overflowing.
    pub fn plus(self, other: Elapsed) -> (r: Elapsed)
        ensures
            r == self.spec_plus(other),
            r.wf(),
    {
        let total: u128 = (self.secs as u128) * 1_000_000_000 + (self.nanos as u128) + (
        other.secs as u128) * 1_000_000_000 + (other.nanos as u128);
        let secs: u128 = total / 1_000_000_000;
        if secs > u64::MAX as u128 {
            Elapsed { secs: u64::MAX, nanos: 999_999_999 }
        } else {
            Elapsed { secs: secs as u64, nanos: (total % 1_000_000_000) as u32 }
        }
    }

    /// Takes `other` from this span. The difference stops at the empty span
    /// instead of going below it.
    pub fn minus(self, other: Elapsed) -> (r: Elapsed)
        ensures
            r == self.spec_minus(other),
            r.wf(),
    {
        let mine: u128 = (self.secs as u128) * 1_000_000_000 + (self.nanos as u128);
        let theirs: u128 = (other.secs as u128) * 1_000_000_000 + (other.nanos as u128);
        if mine >= theirs {
            let rest: u128 = mine - theirs;
            let secs: u128 = rest / 1_000_000_000;
            if secs > u64::MAX as u128 {
                Elapsed { secs: u64::MAX, nanos: 999_999_999 }
            } else {
                Elapsed { secs: secs as u64, nanos: (rest % 1_000_000_000) as u32 }
            }
        } else {
            Elapsed { secs: 0, nanos: 0 }
        }
    }

    /// Whether the span is strictly longer than `millis` milliseconds.
    pub fn longer_than_millis(self, millis: u32) -> (r: bool)
        ensures
            r == (self.total_nanos() > (millis as nat) * 1_000_000),
    {
        let total: u128 = (self.secs as u128) * 1_000_000_000 + (self.nanos as u128);
        total > (millis as u128) * 1_000_000
    }
}

/// Adding spans is exact while the sum is representable.
pub proof fn lemma_plus_total(a: Elapsed, b: Elapsed)
    requires
        a.total_nanos() + b.total_nanos() <= max_total_nanos(),
    ensures
        a.spec_plus(b).total_nanos() == a.total_nanos() + b.total_nanos(),
        a.spec_plus(b).wf(),
{
}

/// Adding the empty span to a well-formed span changes nothing.
pub proof fn lemma_plus_zero(a: Elapsed)
    requires
        a.wf(),
    ensures
        a.spec_plus(Elapsed { secs: 0, nanos: 0 }) == a,
{
}

/// Between two well-formed readings of one clock, the later one is the
/// earlier one plus their difference, and the difference is as long as the
/// readings are apart.
pub proof fn lemma_minus_then_plus(later: Elapsed, earlier: Elapsed)
    requires
        later.wf(),
        earlier.wf(),
        earlier.total_nanos() <= later.total_nanos(),
    ensures
        later.spec_minus(earlier).total_nanos() == later.total_nanos() - earlier.total_nanos(),
        earlier.spec_plus(later.spec_minus(earlier)) == later,
        later.spec_minus(later) == (Elapsed { secs: 0, nanos: 0 }),
{
}

/// `std::time::Instant`, declared so that the tracker can hold the moments
/// it measures from. Nothing is known of what an instant holds.
#[verifier::external_type_specification]
#[verifier::external_body]
pub struct ExInstant(std::time::Instant);

/// Reads the monotonic clock with `std::time::Instant::now`. Nothing is
/// claimed of the instant that comes back.
#[verifier::external_body]
pub(crate) fn instant_now() -> (t: std::time::Instant) {
    std::time::Instant::now()
}

/// Measures the time since `t` with `std::time::Instant::elapsed` and hands
/// it back as seconds and sub-second nanoseconds. The only claim is the one
/// `Duration::subsec_nanos` documents: the sub-second part is below one
/// second.
#[verifier::external_body]
pub(crate) fn elapsed_since(t: &std::time::Instant) -> (d: Elapsed)
    ensures
        d.wf(),
{
    let d = t.elapsed();
    Elapsed { secs: d.as_secs(), nanos: d.subsec_nanos() }
}

/// Reads the wall clock with `std::time::SystemTime::now` and has chrono
/// turn it into a `DateTime<Utc>` (`From<SystemTime>`), which counts a clock
/// that reads before the Unix epoch as negative seconds. The time is handed
/// back as a Unix timestamp (`DateTime::timestamp`,
/// `DateTime::timestamp_subsec_nanos`). Nothing is claimed of the time that
/// comes back. chrono's conversion covers every clock reading within the
/// years it can hold, about 262,000 either side of the epoch.
#[verifier::external_body]
pub(crate) fn utc_now() -> (t: Timestamp) {
    let now: chrono::DateTime<chrono::Utc> = std::time::SystemTime::now().into();
    Timestamp { secs: now.timestamp(), nanos: now.timestamp_subsec_nanos() }
}

} // verus!
