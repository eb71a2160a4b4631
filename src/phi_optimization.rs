//! Era-based fee tracking in fixed point at scale `10^18`, with compound growth,
//! decay and Fibonacci numbers computed in integers.
use vstd::prelude::*;
use crate::clock::unix_now_secs;

verus! {

/// Scale of the fixed-point numbers: `10^18` stands for one.
pub const SCALE: u128 = 1_000_000_000_000_000_000;

/// `x` capped at `u128::MAX`.
pub open spec fn cap_u128(x: int) -> int {
    if x > u128::MAX {
        u128::MAX as int
    } else {
        x
    }
}

/// `initial * (1 + rate)^periods` in fixed point: each period multiplies by
/// `SCALE + rate` (saturating at `u128::MAX`) and divides by `SCALE`.
pub open spec fn compound_spec(initial: int, rate: int, periods: nat) -> int
    decreases periods,
{
    if periods == 0 {
        initial
    } else {
        cap_u128(compound_spec(initial, rate, (periods - 1) as nat) * (SCALE + rate)) / SCALE as int
    }
}

/// `base * (1 - decay)^eras` in fixed point: each era multiplies by
/// `SCALE - decay` and divides by `SCALE`.
pub open spec fn decay_spec(base: int, decay: int, eras: nat) -> int
    decreases eras,
{
    if eras == 0 {
        base
    } else {
        decay_spec(base, decay, (eras - 1) as nat) * (SCALE - decay) / SCALE as int
    }
}

/// The Fibonacci numbers: `F(0) = 0`, `F(1) = 1`, `F(n) = F(n-1) + F(n-2)`.
pub open spec fn fib(n: nat) -> nat
    decreases n,
{
    if n == 0 {
        0
    } else if n == 1 {
        1
    } else {
        fib((n - 1) as nat) + fib((n - 2) as nat)
    }
}

/// `x` capped at `u64::MAX`.
pub open spec fn cap_u64(x: nat) -> nat {
    if x > u64::MAX {
        u64::MAX as nat
    } else {
        x
    }
}

proof fn lemma_fib_monotone(i: nat, j: nat)
    requires
        1 <= i <= j,
    ensures
        fib(i) <= fib(j),
    decreases j - i,
{
    if i < j {
        lemma_fib_monotone(i, (j - 1) as nat);
    }
}

proof fn lemma_compound_bounded(initial: int, rate: int, periods: nat)
    requires
        0 <= initial <= u128::MAX,
        0 <= rate,
    ensures
        0 <= compound_spec(initial, rate, periods) <= u128::MAX,
    decreases periods,
{
    if periods > 0 {
        let prev = compound_spec(initial, rate, (periods - 1) as nat);
        lemma_compound_bounded(initial, rate, (periods - 1) as nat);
        assert(prev * (SCALE + rate) >= 0) by (nonlinear_arith)
            requires
                prev >= 0,
                rate >= 0,
        ;
    }
}

proof fn lemma_decay_bounded(base: int, decay: int, eras: nat)
    requires
        0 <= base,
        0 <= decay <= SCALE,
    ensures
        0 <= decay_spec(base, decay, eras) <= base,
    decreases eras,
{
    if eras > 0 {
        let prev = decay_spec(base, decay, (eras - 1) as nat);
        lemma_decay_bounded(base, decay, (eras - 1) as nat);
        assert(0 <= prev * (SCALE - decay) <= prev * SCALE) by (nonlinear_arith)
            requires
                prev >= 0,
                0 <= decay <= SCALE,
        ;
        assert(prev * SCALE / SCALE as int == prev) by (nonlinear_arith);
        assert(prev * (SCALE - decay) / SCALE as int <= prev * SCALE / SCALE as int) by (nonlinear_arith)
            requires
                prev * (SCALE - decay) <= prev * SCALE,
        ;
    }
}

/// Compound growth `initial * (1 + rate)^periods` in fixed point at scale `10^18`,
/// saturating each intermediate product at `u128::MAX`.
pub fn compound_growth(initial: u128, rate: u128, periods: u64) -> (r: u128)
    requires
        rate <= u128::MAX - SCALE,
    ensures
        r == compound_spec(initial as int, rate as int, periods as nat),
{
    if periods == 0 {
        return initial;
    }
    let mut result = initial;
    let mut i: u64 = 0;
    while i < periods
        invariant
            i <= periods,
            rate <= u128::MAX - SCALE,
            result == compound_spec(initial as int, rate as int, i as nat),
        decreases periods - i,
    {
        let product = match result.checked_mul(SCALE + rate) {
            Some(p) => p,
            None => u128::MAX,
        };
        result = product / SCALE;
        i = i + 1;
    }
    result
}

/// The Fibonacci number `F(n)`, or `u64::MAX` where `F(n)` does not fit in 64 bits.
pub fn fibonacci(n: u64) -> (r: u64)
    ensures
        r == cap_u64(fib(n as nat)),
{
    if n == 0 {
        return 0;
    }
    // a = F(i - 1), b = F(i), both capped
    let mut a: u64 = 0;
    let mut b: u64 = 1;
    let mut i: u64 = 1;
    while i < n
        invariant
            1 <= i <= n,
            a == cap_u64(fib((i - 1) as nat)),
            b == cap_u64(fib(i as nat)),
        decreases n - i,
    {
        if b == u64::MAX {
            proof {
                lemma_fib_monotone(i as nat, n as nat);
            }
            return u64::MAX;
        }
        let c = a.saturating_add(b);
        a = b;
        b = c;
        i = i + 1;
    }
    b
}

/// Era reward `base_reward * (1 - decay_rate)^era` in fixed point at scale `10^18`.
pub fn era_reward_with_decay(base_reward: u128, era: u64, decay_rate: u128) -> (r: u128)
    requires
        decay_rate <= SCALE,
        era > 0 ==> base_reward * (SCALE - decay_rate) <= u128::MAX,
    ensures
        r == decay_spec(base_reward as int, decay_rate as int, era as nat),
{
    if era == 0 {
        return base_reward;
    }
    let mut result = base_reward;
    let mut i: u64 = 0;
    while i < era
        invariant
            i <= era,
            decay_rate <= SCALE,
            base_reward * (SCALE - decay_rate) <= u128::MAX,
            result == decay_spec(base_reward as int, decay_rate as int, i as nat),
        decreases era - i,
    {
        proof {
            lemma_decay_bounded(base_reward as int, decay_rate as int, i as nat);
            assert(result * (SCALE - decay_rate) <= base_reward * (SCALE - decay_rate)) by (nonlinear_arith)
                requires
                    result <= base_reward,
                    decay_rate <= SCALE,
            ;
        }
        result = (result * (SCALE - decay_rate)) / SCALE;
        i = i + 1;
    }
    result
}

/// Era-based fee state: the fee of the current era grows by a fixed rate per era.
#[derive(Debug, Clone)]
pub struct EraState {
    /// Current era number.
    pub era: u64,
    /// Base fee per operation, scaled by `10^18`.
    pub base_fee: u128,
    /// Fee growth per era, scaled by `10^18`.
    pub fee_growth_rate: u128,
    /// Length of an era in seconds.
    pub era_duration: u64,
    /// Start of the current era, in seconds since the Unix epoch.
    pub era_start: u64,
    /// Operations recorded in the current era.
    pub era_operations: u64,
    /// Operations recorded over all eras.
    pub total_operations: u64,
}

impl EraState {
    /// Era zero, starting now, with no operations recorded.
    pub fn new(base_fee: u128, fee_growth_rate: u128, era_duration: u64) -> (s: Self)
        ensures
            s.era == 0,
            s.base_fee == base_fee,
            s.fee_growth_rate == fee_growth_rate,
            s.era_duration == era_duration,
            s.era_operations == 0,
            s.total_operations == 0,
    {
        let now = unix_now_secs();
        Self::new_at(base_fee, fee_growth_rate, era_duration, now)
    }

    /// Era zero, starting at `now`, with no operations recorded.
    pub fn new_at(base_fee: u128, fee_growth_rate: u128, era_duration: u64, now: u64) -> (s: Self)
        ensures
            s.era == 0,
            s.base_fee == base_fee,
            s.fee_growth_rate == fee_growth_rate,
            s.era_duration == era_duration,
            s.era_start == now,
            s.era_operations == 0,
            s.total_operations == 0,
    {
        EraState {
            era: 0,
            base_fee,
            fee_growth_rate,
            era_duration,
            era_start: now,
            era_operations: 0,
            total_operations: 0,
        }
    }

    /// Whether the current era is over at the present time.
    pub fn should_advance_era(&self) -> (r: bool)
        ensures
            self.era_start + self.era_duration > u64::MAX ==> !r,
    {
        let now = unix_now_secs();
        self.should_advance_era_at(now)
    }

    /// The current era is over at time `now`.
    pub open spec fn era_over_at(&self, now: u64) -> bool {
        now >= self.era_start + self.era_duration
    }

    /// Whether the current era is over at time `now`: `now >= era_start + era_duration`.
    pub fn should_advance_era_at(&self, now: u64) -> (r: bool)
        ensures
            r == self.era_over_at(now),
    {
        now as u128 >= self.era_start as u128 + self.era_duration as u128
    }

    /// Moves to the next era: the era number grows by one, the era start by one
    /// era length, and the per-era operation count starts again from zero.
    pub fn advance_era(&mut self)
        requires
            old(self).era < u64::MAX,
            old(self).era_start + old(self).era_duration <= u64::MAX,
        ensures
            final(self).era == old(self).era + 1,
            final(self).era_start == old(self).era_start + old(self).era_duration,
            final(self).era_operations == 0,
            final(self).total_operations == old(self).total_operations,
            final(self).base_fee == old(self).base_fee,
            final(self).fee_growth_rate == old(self).fee_growth_rate,
            final(self).era_duration == old(self).era_duration,
    {
        self.era = self.era + 1;
        self.era_start = self.era_start + self.era_duration;
        self.era_operations = 0;
    }

    /// Adds `count` operations to the current era and to the total.
    pub fn record_operations(&mut self, count: u64)
        requires
            old(self).era_operations + count <= u64::MAX,
            old(self).total_operations + count <= u64::MAX,
        ensures
            final(self).era_operations == old(self).era_operations + count,
            final(self).total_operations == old(self).total_operations + count,
            final(self).era == old(self).era,
            final(self).era_start == old(self).era_start,
            final(self).base_fee == old(self).base_fee,
            final(self).fee_growth_rate == old(self).fee_growth_rate,
            final(self).era_duration == old(self).era_duration,
    {
        self.era_operations = self.era_operations + count;
        self.total_operations = self.total_operations + count;
    }

    /// The fee of the current era, `base_fee * (1 + fee_growth_rate)^era`.
    pub open spec fn current_fee_spec(&self) -> int {
        compound_spec(self.base_fee as int, self.fee_growth_rate as int, self.era as nat)
    }

    /// The fee of the current era, `base_fee * (1 + fee_growth_rate)^era` in fixed point.
    pub fn compute_current_fee(&self) -> (r: u128)
        requires
            self.era > 0 ==> self.fee_growth_rate <= u128::MAX - SCALE,
        ensures
            r == self.current_fee_spec(),
    {
        if self.era == 0 {
            return self.base_fee;
        }
        compound_growth(self.base_fee, self.fee_growth_rate, self.era)
    }

    /// Fees owed by `operation_count` operations at the current era's fee.
    pub fn compute_batch_fees(&self, operation_count: usize) -> (r: u128)
        requires
            self.era > 0 ==> self.fee_growth_rate <= u128::MAX - SCALE,
            self.current_fee_spec() * operation_count <= u128::MAX,
        ensures
            r == self.current_fee_spec() * operation_count / SCALE as int,
    {
        let current_fee = self.compute_current_fee();
        (current_fee * operation_count as u128) / SCALE
    }
}

} // verus!
