//! Spans of time and the exponential backoff computed from them.

use vstd::prelude::*;

verus! {

/// Nanoseconds in one second.
pub const NANOS_PER_SEC: u32 = 1_000_000_000;

/// The largest exponent the backoff doubles up to.
pub const MAX_BACKOFF_SHIFT: usize = 20;

/// A non-negative span of time: whole seconds and the nanoseconds beyond them.
#[derive(Clone, Copy, Debug, PartialEq, Eq)]
pub struct TimeSpan {
    secs: u64,
    nanos: u32,
}

/// Two to the power `n`.
pub open spec fn exp2(n: nat) -> nat
    decreases n,
{
    if n == 0 {
        1
    } else {
        2 * exp2((n - 1) as nat)
    }
}

/// The smaller of two naturals.
pub open spec fn least(a: nat, b: nat) -> nat {
    if a <= b {
        a
    } else {
        b
    }
}

/// The delay before the retry that follows failed retry number `attempt`
/// (counted from zero): the base doubled `attempt` times, at most twenty
/// times, and never more than `max`.
pub open spec fn spec_retry_delay(base: nat, max: nat, attempt: nat) -> nat {
    least(max, base * exp2(least(attempt, MAX_BACKOFF_SHIFT as nat)))
}

impl TimeSpan {
    #[verifier::type_invariant]
    spec fn well_formed(self) -> bool {
        self.nanos < NANOS_PER_SEC
    }

    /// The span in nanoseconds.
    pub closed spec fn view(&self) -> nat {
        (self.secs as nat) * (NANOS_PER_SEC as nat) + self.nanos as nat
    }

    /// The span of `secs` seconds and `nanos` nanoseconds. Nanoseconds of a
    /// second or more carry into the seconds; `None` when the seconds then
    /// no longer fit.
    pub fn new(secs: u64, nanos: u32) -> (r: Option<TimeSpan>)
        ensures
            r matches Some(t) ==> t@ == secs as nat * 1_000_000_000 + nanos as nat,
            r is Some <==> secs as nat * 1_000_000_000 + nanos as nat <= u64::MAX as nat
                * 1_000_000_000 + 999_999_999,
    {
        let carry: u32 = nanos / NANOS_PER_SEC;
        let rest: u32 = nanos % NANOS_PER_SEC;
        if carry as u64 > u64::MAX - secs {
            None
        } else {
            Some(TimeSpan { secs: secs + carry as u64, nanos: rest })
        }
    }

    /// The span of `secs` whole seconds.
    pub fn from_secs(secs: u64) -> (r: TimeSpan)
        ensures
            r@ == secs as nat * 1_000_000_000,
    {
        TimeSpan { secs, nanos: 0 }
    }

    /// The span of `millis` milliseconds.
    pub fn from_millis(millis: u64) -> (r: TimeSpan)
        ensures
            r@ == millis as nat * 1_000_000,
    {
        let sub: u64 = millis % 1000;
        TimeSpan { secs: millis / 1000, nanos: (sub * 1_000_000) as u32 }
    }

    /// Whole seconds of the span.
    pub fn as_secs(&self) -> (r: u64)
        ensures
            r as nat == self@ / 1_000_000_000,
    {
        proof {
            use_type_invariant(self);
        }
        self.secs
    }

    /// Nanoseconds beyond the whole seconds.
    pub fn subsec_nanos(&self) -> (r: u32)
        ensures
            r as nat == self@ % 1_000_000_000,
            r < 1_000_000_000,
    {
        proof {
            use_type_invariant(self);
        }
        self.nanos
    }

    /// The span in nanoseconds.
    pub fn as_nanos(&self) -> (r: u128)
        ensures
            r as nat == self@,
            r <= u64::MAX as nat * 1_000_000_000 + 999_999_999,
    {
        proof {
            use_type_invariant(self);
            assert(self.secs as nat * 1_000_000_000 <= u64::MAX as nat * 1_000_000_000)
                by (nonlinear_arith)
                requires
                    self.secs <= u64::MAX,
            ;
        }
        self.secs as u128 * 1_000_000_000 + self.nanos as u128
    }

    /// The span of `total` nanoseconds, where the seconds fit.
    fn from_nanos(total: u128) -> (r: TimeSpan)
        requires
            total <= u64::MAX as nat * 1_000_000_000 + 999_999_999,
        ensures
            r@ == total as nat,
    {
        let secs: u128 = total / 1_000_000_000;
        let nanos: u128 = total % 1_000_000_000;
        TimeSpan { secs: secs as u64, nanos: nanos as u32 }
    }
}

/// Two to the power `shift`, for the shifts the backoff uses.
fn doubling(shift: usize) -> (r: u128)
    requires
        shift <= MAX_BACKOFF_SHIFT,
    ensures
        r as nat == exp2(shift as nat),
        1 <= r <= 1_048_576,
{
    let mut r: u128 = 1;
    let mut i: usize = 0;
    proof {
        lemma_exp2_grows(0, 20);
    }
    while i < shift
        invariant
            i <= shift <= MAX_BACKOFF_SHIFT,
            r as nat == exp2(i as nat),
            1 <= r <= 1_048_576,
        decreases shift - i,
    {
        proof {
            lemma_exp2_grows((i + 1) as nat, 20);
        }
        r = r * 2;
        i = i + 1;
    }
    r
}

/// Powers of two grow with the exponent, start at one, and the twentieth is 1048576.
pub proof fn lemma_exp2_grows(i: nat, j: nat)
    requires
        i <= j,
    ensures
        1 <= exp2(i) <= exp2(j),
        exp2(20) == 1_048_576,
    decreases j,
{
    assert(exp2(20) == 1_048_576) by {
        reveal_with_fuel(exp2, 21);
    }
    if i < j {
        lemma_exp2_grows(i, (j - 1) as nat);
    } else if i > 0 {
        lemma_exp2_grows((i - 1) as nat, (i - 1) as nat);
    }
}

/// The delay to sleep before the retry that follows failed retry number
/// `attempt`: `min(max, base * 2^min(attempt, 20))`, exact in unbounded
/// arithmetic, so a product too large for a span comes out as `max`.
pub fn retry_delay(base: TimeSpan, max: TimeSpan, attempt: usize) -> (r: TimeSpan)
    ensures
        r@ == spec_retry_delay(base@, max@, attempt as nat),
{
    let shift: usize = if attempt < MAX_BACKOFF_SHIFT {
        attempt
    } else {
        MAX_BACKOFF_SHIFT
    };
    let mult: u128 = doubling(shift);
    let base_nanos: u128 = base.as_nanos();
    let max_nanos: u128 = max.as_nanos();
    proof {
        assert(base_nanos * mult <= 0x4_0000_0000_0000_0000_0000_0000_0000) by (nonlinear_arith)
            requires
                base_nanos <= 0x4000_0000_0000_0000_0000_0000,
                mult <= 0x10_0000,
        ;
    }
    let scaled: u128 = base_nanos * mult;
    if scaled > max_nanos {
        max
    } else {
        TimeSpan::from_nanos(scaled)
    }
}

} // verus!
