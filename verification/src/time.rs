//! Lengths of time.
use vstd::prelude::*;

verus! {

/// Nanoseconds in a second.
pub const NANOS_PER_SEC: u32 = 1_000_000_000;

/// Nanoseconds in a millisecond.
pub const NANOS_PER_MILLI: u32 = 1_000_000;

/// Milliseconds in a second.
pub const MILLIS_PER_SEC: u64 = 1_000;

/// A length of time: whole seconds and the nanoseconds beyond them.
#[derive(Clone, Copy, Debug, PartialEq, Eq, Structural)]
pub struct Duration {
    pub secs: u64,
    pub nanos: u32,
}

/// The text that the standard library's `Debug` writes for a length of time.
pub uninterp spec fn debug_text(secs: u64, nanos: u32) -> Seq<char>;

/// `std::time::Duration::new` and the `Debug` of its result: the text depends on the seconds and the
/// nanoseconds alone.
#[verifier::external_body]
fn debug_string_of(secs: u64, nanos: u32) -> (r: String)
    requires
        nanos < NANOS_PER_SEC,
    ensures
        r@ == debug_text(secs, nanos),
{
    format!("{:?}", std::time::Duration::new(secs, nanos))
}

impl Duration {
    /// The nanoseconds beyond the seconds are less than a second.
    pub open spec fn wf(self) -> bool {
        self.nanos < NANOS_PER_SEC
    }

    /// The whole milliseconds in a length of time.
    pub open spec fn millis(self) -> int {
        self.secs * MILLIS_PER_SEC + self.nanos as int / NANOS_PER_MILLI as int
    }

    /// The length of time of `ms` milliseconds.
    pub open spec fn of_millis(ms: u64) -> Duration {
        Duration {
            secs: ms / MILLIS_PER_SEC,
            nanos: ((ms % MILLIS_PER_SEC) * NANOS_PER_MILLI) as u32,
        }
    }

    /// Whole seconds.
    pub fn from_secs(secs: u64) -> (r: Duration)
        ensures
            r == (Duration { secs, nanos: 0 }),
            r.wf(),
    {
        Duration { secs, nanos: 0 }
    }

    /// Whole milliseconds.
    pub fn from_millis(ms: u64) -> (r: Duration)
        ensures
            r == Duration::of_millis(ms),
            r.wf(),
            r.millis() == ms,
    {
        Duration {
            secs: ms / MILLIS_PER_SEC,
            nanos: ((ms % MILLIS_PER_SEC) as u32) * NANOS_PER_MILLI,
        }
    }

    /// The whole milliseconds in a length of time.
    pub fn as_millis(&self) -> (r: u128)
        ensures
            r == self.millis(),
    {
        self.secs as u128 * 1_000u128 + (self.nanos / NANOS_PER_MILLI) as u128
    }

    /// Whether one length of time is shorter than another.
    pub open spec fn shorter(self, other: Duration) -> bool {
        self.secs < other.secs || self.secs == other.secs && self.nanos < other.nanos
    }

    /// The shorter of two lengths of time.
    pub fn min(self, other: Duration) -> (r: Duration)
        ensures
            r == (if other.shorter(self) {
                other
            } else {
                self
            }),
    {
        if other.secs < self.secs || (other.secs == self.secs && other.nanos < self.nanos) {
            other
        } else {
            self
        }
    }

    /// The nanoseconds in a length of time.
    pub open spec fn total_nanos(self) -> int {
        self.secs * NANOS_PER_SEC + self.nanos
    }

    /// Two lengths of time one after the other.
    pub fn plus(self, other: Duration) -> (r: Duration)
        requires
            self.wf(),
            other.wf(),
            self.secs + other.secs < u64::MAX,
        ensures
            r.wf(),
            r.total_nanos() == self.total_nanos() + other.total_nanos(),
    {
        let nanos: u32 = self.nanos + other.nanos;
        let r = if nanos >= NANOS_PER_SEC {
            Duration { secs: self.secs + other.secs + 1, nanos: (nanos - NANOS_PER_SEC) as u32 }
        } else {
            Duration { secs: self.secs + other.secs, nanos }
        };
        proof {
            assert(r.total_nanos() == self.total_nanos() + other.total_nanos()) by (nonlinear_arith)
                requires
                    r.secs * NANOS_PER_SEC + r.nanos == (self.secs + other.secs) * NANOS_PER_SEC
                        + self.nanos + other.nanos,
                    r.total_nanos() == r.secs * NANOS_PER_SEC + r.nanos,
                    self.total_nanos() == self.secs * NANOS_PER_SEC + self.nanos,
                    other.total_nanos() == other.secs * NANOS_PER_SEC + other.nanos,
            ;
        }
        r
    }

    /// Whether one length of time is shorter than another.
    pub fn is_shorter(self, other: Duration) -> (r: bool)
        ensures
            r == self.shorter(other),
    {
        self.secs < other.secs || (self.secs == other.secs && self.nanos < other.nanos)
    }

    /// A length of time as messages show it.
    pub fn debug_string(&self) -> (r: String)
        requires
            self.wf(),
        ensures
            r@ == debug_text(self.secs, self.nanos),
    {
        debug_string_of(self.secs, self.nanos)
    }
}

/// Milliseconds are kept, in a length of time that is well formed.
pub proof fn law_milliseconds_are_kept(ms: u64)
    ensures
        Duration::of_millis(ms).wf(),
        Duration::of_millis(ms).millis() == ms,
        Duration::of_millis(ms).total_nanos() == ms * 1_000_000,
{
}

/// A length of time is shorter exactly where it has fewer nanoseconds.
pub proof fn law_shorter_has_fewer_nanoseconds(a: Duration, b: Duration)
    requires
        a.wf(),
        b.wf(),
    ensures
        a.shorter(b) <==> a.total_nanos() < b.total_nanos(),
{
}

} // verus!
