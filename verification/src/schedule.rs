//! Vesting schedules and the amount they unlock at a given time.
//!
//! A schedule is a non-empty list of checkpoints `(time, amount)` with
//! strictly increasing times and non-decreasing cumulative amounts; the last
//! checkpoint unlocks the schedule's `total_amount`.  Between two adjacent
//! checkpoints the unlocked amount grows by integer linear interpolation
//! (rounding down), so the computation is exact and deterministic.

use vstd::prelude::*;
use vstd::arithmetic::div_mod::lemma_div_is_ordered;
use vstd::arithmetic::div_mod::lemma_div_pos_is_pos;
use vstd::arithmetic::div_mod::lemma_multiply_divide_le;
use vstd::arithmetic::mul::lemma_mul_inequality;
use vstd::arithmetic::mul::lemma_mul_is_commutative;
use vstd::arithmetic::mul::lemma_mul_nonnegative;

verus! {

/// One point of a vesting schedule: at `time`, `amount` tokens are
/// cumulatively unlocked.
#[derive(Clone, Copy, Debug, PartialEq, Eq, Structural)]
pub struct Checkpoint {
    pub time: u64,
    pub amount: u64,
}

/// A vesting schedule, immutable once committed as charm state.
#[derive(Clone, Debug)]
pub struct VestingSchedule {
    /// Unlock checkpoints, strictly increasing in time and non-decreasing
    /// in cumulative amount; the last one reaches `total_amount`.
    pub checkpoints: Vec<Checkpoint>,
    /// Total tokens ever claimable under this schedule.
    pub total_amount: u64,
    /// Opaque reference to the authorization credential of the beneficiary.
    pub beneficiary: Vec<u8>,
}

/// The checkpoints are ordered: strictly increasing times, non-decreasing
/// cumulative amounts.
pub open spec fn checkpoints_ordered(s: Seq<Checkpoint>) -> bool {
    forall|i: int|
        0 <= i < s.len() - 1 ==> (#[trigger] s[i]).time < s[i + 1].time && s[i].amount <= s[i
            + 1].amount
}

/// Integer linear interpolation between the checkpoints `(t0, a0)` and
/// `(t1, a1)`, evaluated at `t` (rounding down).
pub open spec fn interp(t0: int, a0: int, t1: int, a1: int, t: int) -> int {
    a0 + ((a1 - a0) * (t - t0)) / (t1 - t0)
}

/// The cumulative amount a checkpoint sequence unlocks at time `t`:
/// `0` before the first checkpoint, the last checkpoint's amount from the
/// last checkpoint on, and linear interpolation in between.
pub open spec fn unlocked_from(s: Seq<Checkpoint>, t: int) -> int
    decreases s.len(),
{
    if s.len() == 0 {
        0
    } else if t < s[0].time {
        0
    } else if s.len() == 1 {
        s[0].amount as int
    } else if t < s[1].time {
        interp(s[0].time as int, s[0].amount as int, s[1].time as int, s[1].amount as int, t)
    } else {
        unlocked_from(s.drop_first(), t)
    }
}

impl VestingSchedule {
    /// Well-formedness: at least one checkpoint, ordered checkpoints, and
    /// the final checkpoint unlocks exactly `total_amount`.
    pub open spec fn wf(self) -> bool {
        &&& self.checkpoints@.len() >= 1
        &&& checkpoints_ordered(self.checkpoints@)
        &&& self.checkpoints@[self.checkpoints@.len() - 1].amount == self.total_amount
    }

    /// The time the schedule starts unlocking: its first checkpoint.
    pub open spec fn start_time(self) -> int {
        self.checkpoints@[0].time as int
    }

    /// The time the schedule is fully unlocked: its last checkpoint.
    pub open spec fn end_time(self) -> int {
        self.checkpoints@[self.checkpoints@.len() - 1].time as int
    }

    /// The cumulative amount unlocked at time `t`.
    pub open spec fn unlocked_at(self, t: int) -> int {
        unlocked_from(self.checkpoints@, t)
    }

    /// Decides well-formedness of an untrusted, freshly decoded schedule.
    pub fn check_well_formed(&self) -> (r: bool)
        ensures
            r == self.wf(),
    {
        let n = self.checkpoints.len();
        if n == 0 {
            return false;
        }
        if self.checkpoints[n - 1].amount != self.total_amount {
            return false;
        }
        let mut i: usize = 0;
        while i < n - 1
            invariant
                n == self.checkpoints@.len(),
                n >= 1,
                0 <= i <= n - 1,
                forall|j: int|
                    0 <= j < i ==> (#[trigger] self.checkpoints@[j]).time < self.checkpoints@[j
                        + 1].time && self.checkpoints@[j].amount <= self.checkpoints@[j + 1].amount,
            decreases n - 1 - i,
        {
            let a = self.checkpoints[i];
            let b = self.checkpoints[i + 1];
            if !(a.time < b.time && a.amount <= b.amount) {
                return false;
            }
            i = i + 1;
        }
        true
    }

    /// Computes the cumulative amount unlocked at time `t`.
    pub fn unlocked_amount(&self, t: u64) -> (r: u64)
        requires
            self.wf(),
        ensures
            r == self.unlocked_at(t as int),
            r <= self.total_amount,
    {
        proof {
            lemma_unlocked_from_bounds(self.checkpoints@, t as int);
        }
        let n = self.checkpoints.len();
        if t < self.checkpoints[0].time {
            return 0;
        }
        let mut i: usize = 0;
        while i + 1 < n && self.checkpoints[i + 1].time <= t
            invariant
                n == self.checkpoints@.len(),
                self.wf(),
                0 <= i < n,
                self.checkpoints@[i as int].time <= t,
            decreases n - i,
        {
            i = i + 1;
        }
        proof {
            lemma_unlocked_from_at_index(self.checkpoints@, i as int, t as int);
        }
        let c0 = self.checkpoints[i];
        if i == n - 1 {
            return c0.amount;
        }
        let c1 = self.checkpoints[i + 1];
        let d: u64 = c1.amount - c0.amount;
        let dt: u64 = t - c0.time;
        let dur: u64 = c1.time - c0.time;
        proof {
            lemma_interp_bounds(c0.time as int, c0.amount as int, c1.time as int, c1.amount as int, t as int);
            assert((d as u128) * (dt as u128) <= u128::MAX) by (nonlinear_arith)
                requires
                    d <= u64::MAX && dt <= u64::MAX,
            ;
            lemma_mul_nonnegative(d as int, dt as int);
            lemma_mul_inequality(dt as int, dur as int, d as int);
            lemma_mul_is_commutative(dt as int, d as int);
            lemma_mul_is_commutative(dur as int, d as int);
            lemma_multiply_divide_le((d as int) * (dt as int), dur as int, d as int);
        }
        let q: u128 = (d as u128) * (dt as u128) / (dur as u128);
        c0.amount + (q as u64)
    }
}

/// Ordered checkpoints are ordered between any two positions, not only
/// adjacent ones.
proof fn lemma_ordered_pairwise(s: Seq<Checkpoint>, i: int, j: int)
    requires
        checkpoints_ordered(s),
        0 <= i <= j < s.len(),
    ensures
        s[i].time <= s[j].time,
        s[i].amount <= s[j].amount,
        i < j ==> s[i].time < s[j].time,
    decreases j - i,
{
    if i < j {
        lemma_ordered_pairwise(s, i + 1, j);
    }
}

/// Dropping the first checkpoint keeps the sequence ordered.
proof fn lemma_ordered_drop_first(s: Seq<Checkpoint>)
    requires
        checkpoints_ordered(s),
        s.len() >= 1,
    ensures
        checkpoints_ordered(s.drop_first()),
{
    assert forall|i: int|
        0 <= i < s.drop_first().len() - 1 implies (#[trigger] s.drop_first()[i]).time
        < s.drop_first()[i + 1].time && s.drop_first()[i].amount <= s.drop_first()[i
        + 1].amount by {
        assert(s.drop_first()[i] == s[i + 1]);
        assert(s.drop_first()[i + 1] == s[i + 2]);
        assert(s[i + 1].time < s[i + 2].time && s[i + 1].amount <= s[i + 2].amount);
    }
}

/// Between two checkpoints, the interpolated amount stays between their
/// amounts.
proof fn lemma_interp_bounds(t0: int, a0: int, t1: int, a1: int, t: int)
    requires
        t0 <= t < t1,
        a0 <= a1,
    ensures
        a0 <= interp(t0, a0, t1, a1, t) <= a1,
{
    let d = a1 - a0;
    let dt = t - t0;
    let dur = t1 - t0;
    lemma_mul_nonnegative(d, dt);
    lemma_div_pos_is_pos(d * dt, dur);
    lemma_mul_inequality(dt, dur, d);
    lemma_mul_is_commutative(dt, d);
    lemma_mul_is_commutative(dur, d);
    lemma_multiply_divide_le(d * dt, dur, d);
}

/// Between two checkpoints, the interpolated amount is monotone in time.
proof fn lemma_interp_monotone(t0: int, a0: int, t1: int, a1: int, ta: int, tb: int)
    requires
        t0 <= ta <= tb < t1,
        a0 <= a1,
    ensures
        interp(t0, a0, t1, a1, ta) <= interp(t0, a0, t1, a1, tb),
{
    let d = a1 - a0;
    lemma_mul_inequality(ta - t0, tb - t0, d);
    lemma_mul_is_commutative(ta - t0, d);
    lemma_mul_is_commutative(tb - t0, d);
    lemma_div_is_ordered(d * (ta - t0), d * (tb - t0), t1 - t0);
}

/// The unlocked amount never leaves `[0, last checkpoint's amount]`.
proof fn lemma_unlocked_from_bounds(s: Seq<Checkpoint>, t: int)
    requires
        checkpoints_ordered(s),
        s.len() >= 1,
    ensures
        0 <= unlocked_from(s, t) <= s.last().amount,
    decreases s.len(),
{
    if t < s[0].time {
    } else if s.len() == 1 {
    } else if t < s[1].time {
        lemma_interp_bounds(s[0].time as int, s[0].amount as int, s[1].time as int, s[1].amount as int, t);
        lemma_ordered_pairwise(s, 1, s.len() - 1);
    } else {
        lemma_ordered_drop_first(s);
        lemma_unlocked_from_bounds(s.drop_first(), t);
        assert(s.drop_first().last() == s.last());
    }
}

/// From the first checkpoint on, the unlocked amount is at least the first
/// checkpoint's amount.
proof fn lemma_unlocked_from_lower(s: Seq<Checkpoint>, t: int)
    requires
        checkpoints_ordered(s),
        s.len() >= 1,
        t >= s[0].time,
    ensures
        unlocked_from(s, t) >= s[0].amount,
    decreases s.len(),
{
    if s.len() == 1 {
    } else if t < s[1].time {
        lemma_interp_bounds(s[0].time as int, s[0].amount as int, s[1].time as int, s[1].amount as int, t);
    } else {
        lemma_ordered_drop_first(s);
        lemma_unlocked_from_lower(s.drop_first(), t);
        assert(s.drop_first()[0] == s[1]);
    }
}

/// From the last checkpoint on, the full last amount is unlocked.
proof fn lemma_unlocked_from_end(s: Seq<Checkpoint>, t: int)
    requires
        checkpoints_ordered(s),
        s.len() >= 1,
        t >= s.last().time,
    ensures
        unlocked_from(s, t) == s.last().amount,
    decreases s.len(),
{
    lemma_ordered_pairwise(s, 0, s.len() - 1);
    if s.len() >= 2 {
        lemma_ordered_pairwise(s, 1, s.len() - 1);
        lemma_ordered_drop_first(s);
        lemma_unlocked_from_end(s.drop_first(), t);
        assert(s.drop_first().last() == s.last());
        assert(s.drop_first()[0] == s[1]);
    }
}

/// The unlocked amount is monotone in time.
proof fn lemma_unlocked_from_monotone(s: Seq<Checkpoint>, t1: int, t2: int)
    requires
        checkpoints_ordered(s),
        t1 <= t2,
    ensures
        unlocked_from(s, t1) <= unlocked_from(s, t2),
    decreases s.len(),
{
    if s.len() == 0 {
    } else if t1 < s[0].time {
        lemma_unlocked_from_bounds(s, t2);
    } else if s.len() == 1 {
    } else if t1 < s[1].time {
        if t2 < s[1].time {
            lemma_interp_monotone(
                s[0].time as int,
                s[0].amount as int,
                s[1].time as int,
                s[1].amount as int,
                t1,
                t2,
            );
        } else {
            lemma_interp_bounds(
                s[0].time as int,
                s[0].amount as int,
                s[1].time as int,
                s[1].amount as int,
                t1,
            );
            lemma_ordered_drop_first(s);
            lemma_unlocked_from_lower(s.drop_first(), t2);
            assert(s.drop_first()[0] == s[1]);
        }
    } else {
        lemma_ordered_drop_first(s);
        lemma_unlocked_from_monotone(s.drop_first(), t1, t2);
    }
}

/// Identifies the unlocked amount when the segment that `t` falls in is
/// known: the last checkpoint's amount past the end, interpolation between
/// checkpoints `i` and `i + 1` otherwise.
proof fn lemma_unlocked_from_at_index(s: Seq<Checkpoint>, i: int, t: int)
    requires
        checkpoints_ordered(s),
        0 <= i < s.len(),
        s[i].time <= t,
        i < s.len() - 1 ==> t < s[i + 1].time,
    ensures
        i == s.len() - 1 ==> unlocked_from(s, t) == s[i].amount,
        i < s.len() - 1 ==> unlocked_from(s, t) == interp(
            s[i].time as int,
            s[i].amount as int,
            s[i + 1].time as int,
            s[i + 1].amount as int,
            t,
        ),
    decreases i,
{
    if i == s.len() - 1 {
        lemma_unlocked_from_end(s, t);
    } else if i == 0 {
        lemma_ordered_pairwise(s, 0, i);
    } else {
        lemma_ordered_pairwise(s, 1, i);
        lemma_ordered_drop_first(s);
        lemma_unlocked_from_at_index(s.drop_first(), i - 1, t);
        assert(s.drop_first()[i - 1] == s[i]);
        assert(s.drop_first()[i] == s[i + 1]);
    }
}

/// Monotonicity: a well-formed schedule never unlocks less at a later time.
pub proof fn lemma_unlocked_monotonic(s: VestingSchedule, t1: int, t2: int)
    requires
        s.wf(),
        t1 <= t2,
    ensures
        s.unlocked_at(t1) <= s.unlocked_at(t2),
{
    lemma_unlocked_from_monotone(s.checkpoints@, t1, t2);
}

/// Boundary: nothing is unlocked before the schedule starts, and the whole
/// `total_amount` is unlocked from `end_time` on.
pub proof fn lemma_unlocked_boundary(s: VestingSchedule)
    requires
        s.wf(),
    ensures
        s.unlocked_at(s.start_time() - 1) == 0,
        s.unlocked_at(s.end_time()) == s.total_amount,
        forall|t: int| t < s.start_time() ==> s.unlocked_at(t) == 0,
        forall|t: int| t >= s.end_time() ==> s.unlocked_at(t) == s.total_amount,
{
    assert forall|t: int| t >= s.end_time() implies s.unlocked_at(t) == s.total_amount by {
        lemma_unlocked_from_end(s.checkpoints@, t);
    }
}

/// The unlocked amount always lies between `0` and `total_amount`.
pub proof fn lemma_unlocked_range(s: VestingSchedule, t: int)
    requires
        s.wf(),
    ensures
        0 <= s.unlocked_at(t) <= s.total_amount,
{
    lemma_unlocked_from_bounds(s.checkpoints@, t);
}

} // verus!
