//! Exponential backoff with a cap and an optional attempt limit.
//!
//! Durations are whole milliseconds. The backoff factor is a fixed-point
//! number in thousandths, so `2000` doubles the delay on every attempt and
//! `1500` grows it by half. A delay is the exact product, rounded down once
//! to a whole millisecond.

use vstd::prelude::*;
use vstd::arithmetic::div_mod::{
    lemma_div_is_ordered, lemma_div_multiples_vanish, lemma_div_multiples_vanish_quotient,
    lemma_div_pos_is_pos,
};
use vstd::arithmetic::power::{lemma_pow0, lemma_pow_distributes, lemma_pow_positive, pow};
use crate::thousands::{
    digits_val, high_part, lemma_pow1000_step, lemma_val_shift, multiply, small_digits, to_digits,
};

verus! {

/// One thousandth is the unit of the backoff factor.
pub const BACKOFF_UNIT: u64 = 1000;

/// The delay before any cap, after `k` growth steps:
/// `initial * (permille / 1000)^k`, rounded down to a whole millisecond.
pub open spec fn grown_delay(initial: nat, permille: nat, k: nat) -> nat {
    ((initial * pow(permille as int, k)) / pow(1000, k)) as nat
}

/// The smaller of two naturals.
pub open spec fn min_nat(a: nat, b: nat) -> nat {
    if a <= b {
        a
    } else {
        b
    }
}

#[derive(Clone, Copy, Debug)]
pub struct RetryPolicy {
    /// `None` retries forever.
    pub max_attempts: Option<u32>,
    pub initial_delay_ms: u64,
    /// Growth factor per attempt, in thousandths.
    pub backoff_permille: u64,
    pub max_delay_ms: u64,
}

impl RetryPolicy {
    /// A policy is well formed when its backoff factor is at least one.
    pub open spec fn wf(&self) -> bool {
        self.backoff_permille >= 1000
    }

    /// The delay before attempt `k + 1`, in milliseconds.
    pub open spec fn spec_delay_ms(&self, k: nat) -> nat {
        min_nat(
            grown_delay(self.initial_delay_ms as nat, self.backoff_permille as nat, k),
            self.max_delay_ms as nat,
        )
    }

    /// Whether a failed attempt `k` may be followed by another.
    pub open spec fn spec_should_retry(&self, k: u32) -> bool {
        match self.max_attempts {
            Some(max) => k < max,
            None => true,
        }
    }

    pub fn delay_for_attempt(&self, attempt: u32) -> (delay_ms: u64)
        ensures
            delay_ms as nat == self.spec_delay_ms(attempt as nat),
    {
        let initial = self.initial_delay_ms;
        let factor = self.backoff_permille;
        let cap = self.max_delay_ms;
        let ghost init = initial as nat;
        let ghost p = factor as nat;
        proof {
            lemma_grown_start(init, p);
            lemma_grown_of_zero(p, attempt as nat);
            lemma_grown_unit_factor(init, attempt as nat);
        }
        if initial == 0 || cap == 0 {
            return 0;
        }
        if attempt == 0 || factor == BACKOFF_UNIT {
            return if initial <= cap {
                initial
            } else {
                cap
            };
        }
        if factor > BACKOFF_UNIT && initial >= cap {
            proof {
                lemma_grown_monotone(init, p, 0, attempt as nat);
            }
            return cap;
        }
        let limit: u64 = if factor > BACKOFF_UNIT {
            cap
        } else {
            u64::MAX
        };
        let mut digits = to_digits(initial);
        let mut cur: u64 = initial;
        let mut i: u32 = 0;
        proof {
            lemma_pow0(p as int);
        }
        while i < attempt
            invariant
                i <= attempt,
                initial == self.initial_delay_ms,
                factor == self.backoff_permille,
                cap == self.max_delay_ms,
                init == initial as nat,
                p == factor as nat,
                factor != 1000,
                limit == if factor > 1000 {
                    cap
                } else {
                    u64::MAX
                },
                small_digits(digits@),
                digits@.len() >= i,
                digits_val(digits@) == init * pow(p as int, i as nat),
                cur as nat == grown_delay(init, p, i as nat),
                factor > 1000 ==> cur < cap,
            decreases attempt - i,
        {
            let ghost before = digits_val(digits@);
            let from: usize = (i + 1) as usize;
            digits = multiply(&digits, factor, from);
            proof {
                reveal(pow);
                assert(pow(p as int, (i + 1) as nat) == p * pow(p as int, i as nat));
                assert(before * p == init * (p * pow(p as int, i as nat))) by (nonlinear_arith)
                    requires
                        before == init * pow(p as int, i as nat),
                ;
                assert(digits_val(digits@) == init * pow(p as int, (i + 1) as nat));
                lemma_val_shift(digits@, from as int);
                lemma_product_nonnegative(init, p, (i + 1) as nat);
                lemma_pow_positive(1000, (i + 1) as nat);
                lemma_div_pos_is_pos(init * pow(p as int, (i + 1) as nat), pow(1000, (i + 1) as nat));
                assert(digits_val(digits@.skip(from as int)) == grown_delay(
                    init,
                    p,
                    (i + 1) as nat,
                ));
                if p < 1000 {
                    lemma_grown_step_shrinks(init, p, i as nat);
                }
            }
            match high_part(&digits, from, limit) {
                None => {
                    proof {
                        if p > 1000 {
                            lemma_grown_monotone(init, p, (i + 1) as nat, attempt as nat);
                        }
                    }
                    return cap;
                },
                Some(next) => {
                    if factor > BACKOFF_UNIT && next >= cap {
                        proof {
                            lemma_grown_monotone(init, p, (i + 1) as nat, attempt as nat);
                        }
                        return cap;
                    }
                    if factor < BACKOFF_UNIT && next == 0 {
                        proof {
                            lemma_grown_antitone(init, p, (i + 1) as nat, attempt as nat);
                        }
                        return 0;
                    }
                    cur = next;
                },
            }
            i = i + 1;
        }
        if cur <= cap {
            cur
        } else {
            cap
        }
    }

    pub fn should_retry(&self, attempt: u32) -> (retry: bool)
        ensures
            retry == self.spec_should_retry(attempt),
    {
        match self.max_attempts {
            Some(max) => attempt < max,
            None => true,
        }
    }
}

impl Default for RetryPolicy {
    fn default() -> (policy: Self)
        ensures
            policy.max_attempts.is_none(),
            policy.initial_delay_ms == 1000,
            policy.backoff_permille == 2000,
            policy.max_delay_ms == 30000,
    {
        RetryPolicy {
            max_attempts: None,
            initial_delay_ms: 1000,
            backoff_permille: 2000,
            max_delay_ms: 30000,
        }
    }
}

/// Before any growth the delay is the initial one.
pub proof fn lemma_grown_start(initial: nat, permille: nat)
    ensures
        grown_delay(initial, permille, 0) == initial,
{
    lemma_pow0(permille as int);
    lemma_pow0(1000);
    assert(initial * 1 == initial);
}

/// An initial delay of zero stays zero.
pub proof fn lemma_grown_of_zero(permille: nat, k: nat)
    ensures
        grown_delay(0, permille, k) == 0,
{
    lemma_pow_positive(1000, k);
    assert(0 * pow(permille as int, k) == 0);
}

/// A factor of one leaves the delay as it is.
pub proof fn lemma_grown_unit_factor(initial: nat, k: nat)
    ensures
        grown_delay(initial, 1000, k) == initial,
{
    lemma_pow_positive(1000, k);
    let w = pow(1000, k);
    assert(initial * w == w * initial) by (nonlinear_arith);
    lemma_div_multiples_vanish(initial as int, w);
}

/// The exact product before rounding is never negative.
proof fn lemma_product_nonnegative(initial: nat, permille: nat, k: nat)
    ensures
        initial * pow(permille as int, k) >= 0,
        pow(permille as int, k) >= 0,
    decreases k,
{
    reveal(pow);
    if k > 0 {
        lemma_product_nonnegative(initial, permille, (k - 1) as nat);
        let w = pow(permille as int, (k - 1) as nat);
        assert(permille * w >= 0) by (nonlinear_arith)
            requires
                permille >= 0,
                w >= 0,
        ;
    }
    let full = pow(permille as int, k);
    assert(initial * full >= 0) by (nonlinear_arith)
        requires
            initial >= 0,
            full >= 0,
    ;
}

/// The delays of two attempts in a row, as quotients over one divisor: the
/// earlier is `n * 1000 / d`, the later `n * permille / d`.
proof fn lemma_grown_step(initial: nat, permille: nat, k: nat) -> (pair: (int, int))
    ensures
        pair.0 >= 0,
        pair.1 > 0,
        grown_delay(initial, permille, k) == (pair.0 * 1000) / pair.1,
        grown_delay(initial, permille, k + 1) == (pair.0 * permille) / pair.1,
{
    reveal(pow);
    lemma_product_nonnegative(initial, permille, k);
    lemma_product_nonnegative(initial, permille, k + 1);
    lemma_pow1000_step(k);
    let n = initial * pow(permille as int, k);
    let w = pow(1000, k);
    let d = 1000 * w;
    assert(pow(permille as int, k + 1) == permille * pow(permille as int, k));
    assert(initial * (permille * pow(permille as int, k)) == n * permille) by (nonlinear_arith)
        requires
            n == initial * pow(permille as int, k),
    ;
    lemma_div_multiples_vanish_quotient(1000, n, w);
    assert(1000 * n == n * 1000) by (nonlinear_arith);
    lemma_div_pos_is_pos(n, w);
    assert(n * permille >= 0) by (nonlinear_arith)
        requires
            n >= 0,
            permille >= 0,
    ;
    lemma_div_pos_is_pos(n * permille, d);
    (n, d)
}

/// One growth step with a factor of at least one never decreases the delay.
pub proof fn lemma_grown_step_grows(initial: nat, permille: nat, k: nat)
    requires
        permille >= 1000,
    ensures
        grown_delay(initial, permille, k) <= grown_delay(initial, permille, k + 1),
{
    let (n, d) = lemma_grown_step(initial, permille, k);
    assert(n * 1000 <= n * permille) by (nonlinear_arith)
        requires
            n >= 0,
            permille >= 1000,
    ;
    lemma_div_is_ordered(n * 1000, n * permille, d);
}

/// One growth step with a factor of at most one never increases the delay.
pub proof fn lemma_grown_step_shrinks(initial: nat, permille: nat, k: nat)
    requires
        permille <= 1000,
    ensures
        grown_delay(initial, permille, k + 1) <= grown_delay(initial, permille, k),
{
    let (n, d) = lemma_grown_step(initial, permille, k);
    assert(n * permille <= n * 1000) by (nonlinear_arith)
        requires
            n >= 0,
            permille <= 1000,
    ;
    lemma_div_is_ordered(n * permille, n * 1000, d);
}

/// With a factor of at least one the uncapped delay never decreases from one
/// attempt to a later one.
pub proof fn lemma_grown_monotone(initial: nat, permille: nat, j: nat, k: nat)
    requires
        permille >= 1000,
        j <= k,
    ensures
        grown_delay(initial, permille, j) <= grown_delay(initial, permille, k),
    decreases k,
{
    if j < k {
        lemma_grown_monotone(initial, permille, j, (k - 1) as nat);
        lemma_grown_step_grows(initial, permille, (k - 1) as nat);
    }
}

/// With a factor of at most one the uncapped delay never increases from one
/// attempt to a later one.
pub proof fn lemma_grown_antitone(initial: nat, permille: nat, j: nat, k: nat)
    requires
        permille <= 1000,
        j <= k,
    ensures
        grown_delay(initial, permille, k) <= grown_delay(initial, permille, j),
    decreases k,
{
    if j < k {
        lemma_grown_antitone(initial, permille, j, (k - 1) as nat);
        lemma_grown_step_shrinks(initial, permille, (k - 1) as nat);
    }
}

/// Delays never decrease from one attempt to a later one and never pass the
/// cap; the first delay is the initial one whenever that is within the cap.
pub proof fn lemma_delay_monotone(policy: RetryPolicy, k: nat, later: nat)
    requires
        policy.wf(),
        k < later,
    ensures
        policy.spec_delay_ms(k) <= policy.spec_delay_ms(later),
        policy.spec_delay_ms(later) <= policy.max_delay_ms,
        policy.initial_delay_ms <= policy.max_delay_ms ==> policy.spec_delay_ms(0)
            == policy.initial_delay_ms,
{
    lemma_grown_monotone(
        policy.initial_delay_ms as nat,
        policy.backoff_permille as nat,
        k,
        later,
    );
    lemma_grown_start(policy.initial_delay_ms as nat, policy.backoff_permille as nat);
}

/// Once an attempt's delay has reached the cap, every later attempt waits
/// exactly the cap.
pub proof fn lemma_delay_constant_at_cap(policy: RetryPolicy, k: nat, later: nat)
    requires
        policy.wf(),
        k <= later,
        policy.spec_delay_ms(k) == policy.max_delay_ms,
    ensures
        policy.spec_delay_ms(later) == policy.max_delay_ms,
{
    lemma_grown_monotone(
        policy.initial_delay_ms as nat,
        policy.backoff_permille as nat,
        k,
        later,
    );
}

/// With a whole-number factor `b` the delay is `min(initial * b^k, cap)`.
pub proof fn lemma_delay_whole_factor(policy: RetryPolicy, b: nat, k: nat)
    requires
        policy.backoff_permille == 1000 * b,
    ensures
        policy.spec_delay_ms(k) == min_nat(
            (policy.initial_delay_ms * pow(b as int, k)) as nat,
            policy.max_delay_ms as nat,
        ),
        policy.initial_delay_ms * pow(b as int, k) >= 0,
{
    lemma_grown_whole_factor(policy.initial_delay_ms as nat, b, k);
}

/// With a whole-number factor `b` no rounding happens: the uncapped delay is
/// `initial * b^k`.
pub proof fn lemma_grown_whole_factor(initial: nat, b: nat, k: nat)
    ensures
        grown_delay(initial, 1000 * b, k) == initial * pow(b as int, k),
{
    lemma_pow_distributes(1000, b as int, k);
    lemma_pow_positive(1000, k);
    lemma_product_nonnegative(initial, b, k);
    let w = pow(1000, k);
    let x = initial * pow(b as int, k);
    assert(initial * (w * pow(b as int, k)) == w * x) by (nonlinear_arith)
        requires
            x == initial * pow(b as int, k),
    ;
    lemma_div_multiples_vanish(x, w);
}

/// With a limit of `n` attempts, attempt `k` is retried exactly when
/// `k < n`; without a limit every attempt is retried.
pub proof fn lemma_retry_gating(policy: RetryPolicy, k: u32)
    ensures
        policy.max_attempts matches Some(n) ==> (policy.spec_should_retry(k) <==> k < n),
        policy.max_attempts.is_none() ==> policy.spec_should_retry(k),
{
}

} // verus!
