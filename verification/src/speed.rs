//! The ball's speed and the step by which it grows at a bounce.
//!
//! Both are kept in parts of a length unit, `UNIT` parts to the unit, so
//! that a step that grows by a tenth bounce after bounce keeps what a whole
//! number of units would lose.

use crate::scale::MAX_SPEED;
use vstd::arithmetic::power::{lemma_pow_increases, pow};
use vstd::arithmetic::power2::{lemma2_to64_rest, lemma_pow2, pow2};
use vstd::prelude::*;

verus! {

/// Parts in one length unit: 2^64.
pub const UNIT: u128 = 18_446_744_073_709_551_616;

/// Largest speed and largest step, in parts: `MAX_SPEED` units, 2^84 parts.
pub const SPEED_LIMIT: u128 = 19_342_813_113_834_066_795_298_816;

/// How the speed grows from bounce to bounce.
#[derive(Clone, Copy, Debug, PartialEq, Eq, Structural)]
pub enum Escalation {
    /// Every escalating bounce adds the same step.
    Flat,
    /// Every bounce adds the step, and the step then grows by a tenth of
    /// itself, rounded down to a whole number of parts.
    Compounding,
}

/// Current speed and the step that the next escalating bounce adds to it,
/// both in parts of a length unit per tick.
///
/// Neither is ever cut off: a bounce that would carry the speed or the step
/// beyond `SPEED_LIMIT` is not carried out: see `has_room`.
#[derive(Clone, Copy, Debug, PartialEq, Eq, Structural)]
pub struct SpeedState {
    pub current: u128,
    pub increment: u128,
}

impl SpeedState {
    /// Neither number is above `SPEED_LIMIT`.
    pub open spec fn wf(self) -> bool {
        self.current <= SPEED_LIMIT && self.increment <= SPEED_LIMIT
    }

    /// The speed in whole units, rounded down: the length that the velocity
    /// is given.
    pub open spec fn units(self) -> int {
        self.current as int / UNIT as int
    }

    /// The state after one escalating bounce: the step is added to the
    /// speed, and under the compounding rule the step then grows by a tenth.
    pub open spec fn escalated(self, escalation: Escalation) -> SpeedState {
        SpeedState {
            current: (self.current + self.increment) as u128,
            increment: match escalation {
                Escalation::Flat => self.increment,
                Escalation::Compounding => (self.increment + self.increment / 10) as u128,
            },
        }
    }

    /// Whether one more escalating bounce stays within `SPEED_LIMIT`.
    pub open spec fn has_room(self, escalation: Escalation) -> bool {
        &&& self.current + self.increment <= SPEED_LIMIT
        &&& escalation is Compounding ==> self.increment + self.increment / 10 <= SPEED_LIMIT
    }

    /// The state after `n` escalating bounces in a row.
    pub open spec fn escalated_times(self, escalation: Escalation, n: nat) -> SpeedState
        decreases n,
    {
        if n == 0 {
            self
        } else {
            self.escalated_times(escalation, (n - 1) as nat).escalated(escalation)
        }
    }

    /// A state with the given speed and step, in parts; `None` where either
    /// is above `SPEED_LIMIT`.
    pub fn new(current: u128, increment: u128) -> (state: Option<SpeedState>)
        ensures
            state == (if current <= SPEED_LIMIT && increment <= SPEED_LIMIT {
                Some(SpeedState { current, increment })
            } else {
                None
            }),
    {
        if current <= SPEED_LIMIT && increment <= SPEED_LIMIT {
            Some(SpeedState { current, increment })
        } else {
            None
        }
    }

    /// A state with the given speed and step, in whole units; `None` where
    /// either is above `MAX_SPEED`.
    pub fn from_units(speed: u32, increment: u32) -> (state: Option<SpeedState>)
        ensures
            state == (if speed <= MAX_SPEED && increment <= MAX_SPEED {
                Some(
                    SpeedState {
                        current: (speed * UNIT) as u128,
                        increment: (increment * UNIT) as u128,
                    },
                )
            } else {
                None
            }),
            state matches Some(made) ==> made.wf() && made.units() == speed,
    {
        if speed <= MAX_SPEED && increment <= MAX_SPEED {
            assert(speed * UNIT <= SPEED_LIMIT && increment * UNIT <= SPEED_LIMIT && (speed * UNIT)
                / (UNIT as int) == speed) by (nonlinear_arith)
                requires
                    0 <= speed <= 0x10_0000,
                    0 <= increment <= 0x10_0000,
                    UNIT == 0x1_0000_0000_0000_0000,
                    SPEED_LIMIT == 0x10_0000 * 0x1_0000_0000_0000_0000,
            ;
            Some(SpeedState { current: speed as u128 * UNIT, increment: increment as u128 * UNIT })
        } else {
            None
        }
    }

    /// Whether the state is within its limit.
    pub fn is_valid(self) -> (valid: bool)
        ensures
            valid == self.wf(),
    {
        self.current <= SPEED_LIMIT && self.increment <= SPEED_LIMIT
    }

    /// The speed in whole units, rounded down.
    pub fn whole_units(self) -> (speed: u32)
        requires
            self.wf(),
        ensures
            speed == self.units(),
            speed <= MAX_SPEED,
    {
        (self.current / UNIT) as u32
    }

    /// Whether the state is within its limit and stays so over one more
    /// escalating bounce.
    pub fn can_escalate(self, escalation: Escalation) -> (room: bool)
        ensures
            room == (self.wf() && self.has_room(escalation)),
    {
        if self.current > SPEED_LIMIT || self.increment > SPEED_LIMIT {
            return false;
        }
        if self.current + self.increment > SPEED_LIMIT {
            return false;
        }
        match escalation {
            Escalation::Flat => true,
            Escalation::Compounding => self.increment + self.increment / 10 <= SPEED_LIMIT,
        }
    }

    /// Applies one escalating bounce: the step is added to the speed, and
    /// under the compounding rule the step then grows by a tenth.
    pub fn escalate(self, escalation: Escalation) -> (next: SpeedState)
        requires
            self.wf(),
            self.has_room(escalation),
        ensures
            next == self.escalated(escalation),
            next.wf(),
            next.current >= self.current,
            next.increment >= self.increment,
    {
        let current: u128 = self.current + self.increment;
        let increment: u128 = match escalation {
            Escalation::Flat => self.increment,
            Escalation::Compounding => self.increment + self.increment / 10,
        };
        SpeedState { current, increment }
    }

    /// Applies one escalating bounce where the state is within its limit
    /// and stays so; says `None`, and changes nothing, where it does not.
    pub fn try_escalate(self, escalation: Escalation) -> (next: Option<SpeedState>)
        ensures
            (self.wf() && self.has_room(escalation)) ==> next == Some(self.escalated(escalation)),
            !(self.wf() && self.has_room(escalation)) ==> next is None,
    {
        if self.can_escalate(escalation) {
            Some(self.escalate(escalation))
        } else {
            None
        }
    }
}

/// The step after `k` compounding bounces, had it no upper limit: each
/// bounce adds a tenth of the step, rounded down.
pub open spec fn increment_after(initial: nat, k: nat) -> nat
    decreases k,
{
    if k == 0 {
        initial
    } else {
        let before = increment_after(initial, (k - 1) as nat);
        before + before / 10
    }
}

/// The speed after `n` compounding bounces, had it no upper limit: the
/// initial speed and the steps of all bounces so far.
pub open spec fn speed_after(speed: nat, initial: nat, n: nat) -> nat
    decreases n,
{
    if n == 0 {
        speed
    } else {
        speed_after(speed, initial, (n - 1) as nat) + increment_after(initial, (n - 1) as nat)
    }
}

/// Steps and speeds never shrink from one bounce to the next.
pub proof fn lemma_series_monotone(speed: nat, initial: nat, n: nat)
    ensures
        increment_after(initial, n) >= initial,
        speed_after(speed, initial, n) >= speed,
        n > 0 ==> increment_after(initial, n) >= increment_after(initial, (n - 1) as nat),
        n > 0 ==> speed_after(speed, initial, n) >= speed_after(speed, initial, (n - 1) as nat),
    decreases n,
{
    if n > 0 {
        lemma_series_monotone(speed, initial, (n - 1) as nat);
    }
}

/// Under the compounding rule, and as long as speed and step stay within
/// `SPEED_LIMIT`, the speed after `n` bounces is the initial speed plus the
/// sum of the steps, and the step is the initial step grown `n` times:
/// nothing is cut off.
pub proof fn lemma_compounding_series(state: SpeedState, n: nat)
    requires
        state.wf(),
        speed_after(state.current as nat, state.increment as nat, n) <= SPEED_LIMIT,
        increment_after(state.increment as nat, n) <= SPEED_LIMIT,
    ensures
        state.escalated_times(Escalation::Compounding, n).current == speed_after(
            state.current as nat,
            state.increment as nat,
            n,
        ),
        state.escalated_times(Escalation::Compounding, n).increment == increment_after(
            state.increment as nat,
            n,
        ),
        state.escalated_times(Escalation::Compounding, n).wf(),
        n > 0 ==> state.escalated_times(Escalation::Compounding, (n - 1) as nat).has_room(
            Escalation::Compounding,
        ),
    decreases n,
{
    if n > 0 {
        let before = (n - 1) as nat;
        lemma_series_monotone(state.current as nat, state.increment as nat, n);
        lemma_compounding_series(state, before);
    }
}

/// Under the flat rule, and as long as the speed stays within
/// `SPEED_LIMIT`, the speed after `n` escalating bounces is the initial
/// speed plus `n` steps, and the step stays as it was.
pub proof fn lemma_flat_series(state: SpeedState, n: nat)
    requires
        state.wf(),
        state.current + n * state.increment <= SPEED_LIMIT,
    ensures
        state.escalated_times(Escalation::Flat, n).current == state.current + n * state.increment,
        state.escalated_times(Escalation::Flat, n).increment == state.increment,
        state.escalated_times(Escalation::Flat, n).wf(),
    decreases n,
{
    if n > 0 {
        let before = (n - 1) as nat;
        assert(n * state.increment == before * state.increment + state.increment
            && before * state.increment >= 0) by (nonlinear_arith)
            requires
                n == before + 1,
        ;
        lemma_flat_series(state, before);
    } else {
        assert(n * state.increment == 0) by (nonlinear_arith)
            requires
                n == 0,
        ;
    }
}

/// The step follows the geometric sequence with ratio 11/10 from below,
/// and stays within the rounding of nine tenths per bounce, which
/// compounds too:
/// `(i - 9) * 1.1^k + 9 <= step_k <= i * 1.1^k`.
pub proof fn lemma_increment_geometric(initial: nat, k: nat)
    ensures
        increment_after(initial, k) * pow(10, k) <= initial * pow(11, k),
        increment_after(initial, k) * pow(10, k) >= (initial - 9) * pow(11, k) + 9 * pow(10, k),
    decreases k,
{
    reveal(pow);
    if k == 0 {
        assert(pow(10, 0) == 1 && pow(11, 0) == 1);
    } else {
        let j = (k - 1) as nat;
        lemma_increment_geometric(initial, j);
        let before = increment_after(initial, j) as int;
        let now = increment_after(initial, k) as int;
        let p10 = pow(10, j);
        let p11 = pow(11, j);
        assert(pow(10, k) == 10 * p10 && pow(11, k) == 11 * p11);
        assert(11 * before - 9 <= 10 * now <= 11 * before);
        vstd::arithmetic::power::lemma_pow_positive(10, j);
        assert(now * (10 * p10) <= initial * (11 * p11) && now * (10 * p10) >= (initial - 9) * (11
            * p11) + 9 * (10 * p10)) by (nonlinear_arith)
            requires
                11 * before - 9 <= 10 * now <= 11 * before,
                before * p10 <= initial * p11,
                before * p10 >= (initial - 9) * p11 + 9 * p10,
                p10 > 0,
        ;
    }
}

/// Where the initial step is a multiple of `10^k`, no rounding occurs in
/// the first `k` bounces: the step after `j <= k` of them is exactly the
/// initial step times `1.1^j`.
pub proof fn lemma_increment_exact(unit: nat, k: nat, j: nat)
    requires
        j <= k,
    ensures
        increment_after((unit * pow(10, k)) as nat, j) == unit * pow(10, (k - j) as nat) * pow(
            11,
            j,
        ),
    decreases j,
{
    reveal(pow);
    vstd::arithmetic::power::lemma_pow_positive(10, k);
    assert(unit * pow(10, k) >= 0) by (nonlinear_arith)
        requires
            pow(10, k) > 0,
            unit >= 0,
    ;
    let initial = (unit * pow(10, k)) as nat;
    if j == 0 {
        assert(pow(11, 0) == 1);
        assert(unit * pow(10, k) * 1 == unit * pow(10, k)) by (nonlinear_arith);
    } else {
        let i = (j - 1) as nat;
        lemma_increment_exact(unit, k, i);
        let rest = pow(10, (k - j) as nat);
        let p11 = pow(11, i);
        assert(pow(10, (k - i) as nat) == 10 * rest);
        assert(pow(11, j) == 11 * p11);
        let before = increment_after(initial, i) as int;
        assert(before == 10 * (unit * rest * p11)) by (nonlinear_arith)
            requires
                before == unit * (10 * rest) * p11,
        ;
        assert(before + before / 10 == unit * rest * (11 * p11)) by (nonlinear_arith)
            requires
                before == 10 * (unit * rest * p11),
        ;
    }
}

/// The speed follows the geometric series from below:
/// `speed_n - speed_0 <= i * (1.1^0 + ... + 1.1^(n-1)) = 10 * i * (1.1^n - 1)`,
/// and stays within the compounded rounding of the steps.
pub proof fn lemma_speed_geometric(speed: nat, initial: nat, n: nat)
    ensures
        (speed_after(speed, initial, n) - speed) * pow(10, n) <= 10 * initial * (pow(11, n) - pow(
            10,
            n,
        )),
        (speed_after(speed, initial, n) - speed) * pow(10, n) >= 10 * (initial - 9) * (pow(11, n)
            - pow(10, n)) + 9 * n * pow(10, n),
    decreases n,
{
    reveal(pow);
    if n == 0 {
        assert(pow(10, 0) == 1 && pow(11, 0) == 1);
    } else {
        let j = (n - 1) as nat;
        lemma_speed_geometric(speed, initial, j);
        lemma_increment_geometric(initial, j);
        let gained = speed_after(speed, initial, j) - speed;
        let step = increment_after(initial, j) as int;
        let p10 = pow(10, j);
        let p11 = pow(11, j);
        assert(pow(10, n) == 10 * p10 && pow(11, n) == 11 * p11);
        assert(speed_after(speed, initial, n) - speed == gained + step);
        assert((gained + step) * (10 * p10) <= 10 * initial * (11 * p11 - 10 * p10) && (gained
            + step) * (10 * p10) >= 10 * (initial - 9) * (11 * p11 - 10 * p10) + 9 * n * (10
            * p10)) by (nonlinear_arith)
            requires
                gained * p10 <= 10 * initial * (p11 - p10),
                gained * p10 >= 10 * (initial - 9) * (p11 - p10) + 9 * j * p10,
                step * p10 <= initial * p11,
                step * p10 >= (initial - 9) * p11 + 9 * p10,
                n == j + 1,
        ;
    }
}

/// Where the initial step is a multiple of `10^k`, the speed after
/// `n <= k + 1` compounding bounces is exactly the geometric series:
/// `speed_0 + i * (1.1^0 + ... + 1.1^(n-1))`.
pub proof fn lemma_speed_exact(speed: nat, unit: nat, k: nat, n: nat)
    requires
        n <= k + 1,
    ensures
        (speed_after(speed, (unit * pow(10, k)) as nat, n) - speed) * pow(10, n) == 10 * (unit
            * pow(10, k)) * (pow(11, n) - pow(10, n)),
    decreases n,
{
    reveal(pow);
    if n == 0 {
        assert(pow(10, 0) == 1 && pow(11, 0) == 1);
    } else {
        let j = (n - 1) as nat;
        lemma_speed_exact(speed, unit, k, j);
        lemma_increment_exact(unit, k, j);
        vstd::arithmetic::power::lemma_pow_positive(10, k);
        assert(unit * pow(10, k) >= 0) by (nonlinear_arith)
            requires
                pow(10, k) > 0,
                unit >= 0,
        ;
        let initial = unit * pow(10, k);
        let gained = speed_after(speed, initial as nat, j) - speed;
        let step = increment_after(initial as nat, j) as int;
        let rest = pow(10, (k - j) as nat);
        let p10 = pow(10, j);
        let p11 = pow(11, j);
        vstd::arithmetic::power::lemma_pow_adds(10, (k - j) as nat, j);
        assert(pow(10, k) == rest * p10);
        assert(pow(10, n) == 10 * p10 && pow(11, n) == 11 * p11);
        assert(step * p10 == initial * p11) by (nonlinear_arith)
            requires
                step == unit * rest * p11,
                initial == unit * (rest * p10),
        ;
        assert((gained + step) * (10 * p10) == 10 * initial * (11 * p11 - 10 * p10))
            by (nonlinear_arith)
            requires
                gained * p10 == 10 * initial * (p11 - p10),
                step * p10 == initial * p11,
        ;
    }
}

/// `1.1^n <= 2^n`, in whole numbers.
proof fn lemma_power_ratio(n: nat)
    ensures
        0 < pow(10, n) <= pow(11, n) <= pow(2, n) * pow(10, n),
    decreases n,
{
    reveal(pow);
    if n == 0 {
        assert(pow(10, 0) == 1 && pow(11, 0) == 1 && pow(2, 0) == 1);
    } else {
        let j = (n - 1) as nat;
        lemma_power_ratio(j);
        let a = pow(11, j);
        let b = pow(10, j);
        let c = pow(2, j);
        assert(pow(10, n) == 10 * b && pow(11, n) == 11 * a && pow(2, n) == 2 * c);
        assert(11 * a <= (2 * c) * (10 * b)) by (nonlinear_arith)
            requires
                0 < b <= a <= c * b,
        ;
    }
}

/// Over fifty bounces and fewer the rounding of the step to whole parts
/// never adds up to one unit: step and speed lie below the geometric
/// series by less than one unit,
/// `i * 1.1^n - 1 unit < step_n <= i * 1.1^n` and
/// `10 i (1.1^n - 1) - 1 unit < speed_n - speed_0 <= 10 i (1.1^n - 1)`.
pub proof fn lemma_series_within_one_unit(speed: nat, initial: nat, n: nat)
    requires
        n <= 50,
    ensures
        0 <= initial * pow(11, n) - increment_after(initial, n) * pow(10, n) < UNIT * pow(10, n),
        0 <= 10 * initial * (pow(11, n) - pow(10, n)) - (speed_after(speed, initial, n) - speed)
            * pow(10, n) < UNIT * pow(10, n),
{
    lemma_increment_geometric(initial, n);
    lemma_speed_geometric(speed, initial, n);
    lemma_power_ratio(n);
    lemma_pow_increases(2, n, 50);
    vstd::arithmetic::power::lemma_pow_positive(2, n);
    lemma_pow2(50);
    lemma2_to64_rest();
    let a = pow(11, n);
    let b = pow(10, n);
    let c = pow(2, n);
    let step = increment_after(initial, n) as int;
    let gained = speed_after(speed, initial, n) - speed;
    assert(c <= 0x4000000000000);
    assert(a <= 0x4000000000000 * b) by (nonlinear_arith)
        requires
            a <= c * b,
            0 < b,
            0 <= c <= 0x4000000000000,
    ;
    assert(initial * a - step * b <= 9 * (a - b) && 10 * initial * (a - b) - gained * b <= 90 * (a
        - b)) by (nonlinear_arith)
        requires
            step * b >= (initial - 9) * a + 9 * b,
            gained * b >= 10 * (initial - 9) * (a - b) + 9 * n * b,
            0 <= n,
            0 < b,
    ;
    assert(90 * (a - b) < UNIT * b) by (nonlinear_arith)
        requires
            a <= 0x4000000000000 * b,
            0 < b <= a,
            UNIT == 0x1_0000_0000_0000_0000,
    ;
}

/// The compounding rule follows the geometric series. For a state within
/// its limit and up to fifty bounces, as long as the series itself stays
/// within `SPEED_LIMIT`, every bounce has room, and after `n` bounces the
/// step lies less than one unit below `i * 1.1^n` and the speed less than
/// one unit below `s + i * (1.1^0 + ... + 1.1^(n-1))`: nothing drifts away
/// and nothing is cut off.
pub proof fn lemma_compounding_follows_series(state: SpeedState, n: nat)
    requires
        state.wf(),
        n <= 50,
        state.increment * pow(11, n) <= SPEED_LIMIT * pow(10, n),
        state.current * pow(10, n) + 10 * state.increment * (pow(11, n) - pow(10, n))
            <= SPEED_LIMIT * pow(10, n),
    ensures
        state.escalated_times(Escalation::Compounding, n).wf(),
        n > 0 ==> state.escalated_times(Escalation::Compounding, (n - 1) as nat).has_room(
            Escalation::Compounding,
        ),
        0 <= state.increment * pow(11, n) - state.escalated_times(
            Escalation::Compounding,
            n,
        ).increment * pow(10, n) < UNIT * pow(10, n),
        0 <= 10 * state.increment * (pow(11, n) - pow(10, n)) - (state.escalated_times(
            Escalation::Compounding,
            n,
        ).current - state.current) * pow(10, n) < UNIT * pow(10, n),
{
    let speed = state.current as nat;
    let initial = state.increment as nat;
    lemma_series_within_one_unit(speed, initial, n);
    lemma_power_ratio(n);
    let b = pow(10, n);
    let step = increment_after(initial, n) as int;
    let reached = speed_after(speed, initial, n) as int;
    assert(step <= SPEED_LIMIT && reached <= SPEED_LIMIT) by (nonlinear_arith)
        requires
            step * b <= initial * pow(11, n),
            initial * pow(11, n) <= SPEED_LIMIT * b,
            (reached - speed) * b <= 10 * initial * (pow(11, n) - b),
            speed * b + 10 * initial * (pow(11, n) - b) <= SPEED_LIMIT * b,
            0 < b,
    ;
    lemma_compounding_series(state, n);
}

} // verus!
