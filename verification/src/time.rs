//! Instants on the UTC time line, ordered as the calendar orders them.
use vstd::prelude::*;

verus! {

/// An instant given as whole seconds since the Unix epoch and the nanoseconds
/// that follow them. A leap second is written with `nanos` of one second or
/// more, so the order of instants is the order of `(secs, nanos)` pairs.
#[derive(Clone, Copy, Debug, PartialEq, Eq, Structural)]
pub struct Timestamp {
    pub secs: i64,
    pub nanos: u32,
}

impl Timestamp {
    /// `self` is the same instant as `other` or an earlier one.
    pub open spec fn at_or_before(self, other: Timestamp) -> bool {
        self.secs < other.secs || (self.secs == other.secs && self.nanos <= other.nanos)
    }

    /// `self` is strictly earlier than `other`.
    pub open spec fn before(self, other: Timestamp) -> bool {
        self.at_or_before(other) && self != other
    }

    /// The instant `nanos` nanoseconds after second `secs`.
    pub fn new(secs: i64, nanos: u32) -> (t: Timestamp)
        ensures
            t.secs == secs,
            t.nanos == nanos,
    {
        Timestamp { secs, nanos }
    }

    /// Executable form of [`Timestamp::at_or_before`].
    pub fn is_at_or_before(&self, other: &Timestamp) -> (b: bool)
        ensures
            b == self.at_or_before(*other),
    {
        self.secs < other.secs || (self.secs == other.secs && self.nanos <= other.nanos)
    }
}

/// Instants are ordered by their place on the time line: `a` comes at or
/// before `b` exactly when its second is earlier, or both share the second
/// and `a` has no more nanoseconds than `b`. As a second holds fewer than
/// 2^32 nanoseconds, that is the order of the numbers `secs * 2^32 + nanos`.
pub proof fn lemma_instant_order(a: Timestamp, b: Timestamp)
    ensures
        a.at_or_before(b) <==> (a.secs < b.secs || (a.secs == b.secs && a.nanos <= b.nanos)),
        a.at_or_before(b) <==> a.secs * 0x1_0000_0000 + a.nanos <= b.secs * 0x1_0000_0000 + b.nanos,
{
    let (x, y): (int, int) = (a.secs as int, b.secs as int);
    let (m, n): (int, int) = (a.nanos as int, b.nanos as int);
    if x < y {
        assert(x * 0x1_0000_0000 + m < y * 0x1_0000_0000 + n) by (nonlinear_arith)
            requires
                x < y,
                0 <= m < 0x1_0000_0000,
                0 <= n,
        ;
    } else if y < x {
        assert(y * 0x1_0000_0000 + n < x * 0x1_0000_0000 + m) by (nonlinear_arith)
            requires
                y < x,
                0 <= n < 0x1_0000_0000,
                0 <= m,
        ;
    }
}

} // verus!
