//! Natural numbers of any size, written in base 1000 with the least digit
//! first. Dividing such a number by a power of 1000 is dropping digits.

use vstd::prelude::*;
use vstd::arithmetic::div_mod::lemma_fundamental_div_mod_converse;
use vstd::arithmetic::power::{lemma_pow0, lemma_pow_positive, pow};

verus! {

/// The number that the digits spell.
pub open spec fn digits_val(s: Seq<u64>) -> nat
    decreases s.len(),
{
    if s.len() == 0 {
        0
    } else {
        s[0] as nat + 1000 * digits_val(s.drop_first())
    }
}

/// Every digit is below 1000.
pub open spec fn small_digits(s: Seq<u64>) -> bool {
    forall|i: int| 0 <= i < s.len() ==> #[trigger] s[i] < 1000
}

/// `1000^(n + 1)` is a thousand times `1000^n`.
pub proof fn lemma_pow1000_step(n: nat)
    ensures
        pow(1000, n + 1) == 1000 * pow(1000, n),
        pow(1000, n) > 0,
{
    reveal(pow);
    lemma_pow_positive(1000, n);
}

/// A digit put behind the last one counts `1000^len` times.
pub proof fn lemma_val_push(s: Seq<u64>, d: u64)
    ensures
        digits_val(s.push(d)) == digits_val(s) + d * pow(1000, s.len()),
    decreases s.len(),
{
    let more = s.push(d);
    if s.len() == 0 {
        assert(more.drop_first() =~= Seq::<u64>::empty());
        assert(digits_val(more.drop_first()) == 0);
        lemma_pow0(1000);
    } else {
        let tail = s.drop_first();
        assert(more.drop_first() =~= tail.push(d));
        lemma_val_push(tail, d);
        lemma_pow1000_step(tail.len());
        assert(more[0] == s[0]);
        let w = pow(1000, tail.len());
        assert(1000 * (digits_val(tail) + d * w) == 1000 * digits_val(tail) + d * (1000 * w))
            by (nonlinear_arith);
    }
}

/// A number is its low `n` digits plus `1000^n` times the rest.
pub proof fn lemma_val_split(s: Seq<u64>, n: int)
    requires
        0 <= n <= s.len(),
    ensures
        digits_val(s) == digits_val(s.take(n)) + pow(1000, n as nat) * digits_val(s.skip(n)),
    decreases n,
{
    if n == 0 {
        assert(s.take(0) =~= Seq::<u64>::empty());
        assert(s.skip(0) =~= s);
        lemma_pow0(1000);
    } else {
        let tail = s.drop_first();
        lemma_val_split(tail, n - 1);
        assert(s.take(n).drop_first() =~= tail.take(n - 1));
        assert(s.skip(n) =~= tail.skip(n - 1));
        assert(s.take(n)[0] == s[0]);
        lemma_pow1000_step((n - 1) as nat);
        let w = pow(1000, (n - 1) as nat);
        let low = digits_val(tail.take(n - 1));
        let high = digits_val(tail.skip(n - 1));
        assert(1000 * (low + w * high) == 1000 * low + (1000 * w) * high) by (nonlinear_arith);
    }
}

/// Digits below 1000 spell a number below `1000^len`.
pub proof fn lemma_val_bound(s: Seq<u64>)
    requires
        small_digits(s),
    ensures
        digits_val(s) < pow(1000, s.len()),
    decreases s.len(),
{
    if s.len() == 0 {
        lemma_pow0(1000);
    } else {
        let tail = s.drop_first();
        assert(small_digits(tail)) by {
            assert forall|i: int| 0 <= i < tail.len() implies #[trigger] tail[i] < 1000 by {
                assert(tail[i] == s[i + 1]);
            }
        }
        lemma_val_bound(tail);
        lemma_pow1000_step(tail.len());
        assert(s[0] < 1000);
    }
}

/// Dropping the low `n` digits divides by `1000^n`, rounding down.
pub proof fn lemma_val_shift(s: Seq<u64>, n: int)
    requires
        small_digits(s),
        0 <= n <= s.len(),
    ensures
        digits_val(s.skip(n)) == digits_val(s) as int / pow(1000, n as nat),
{
    let low = s.take(n);
    assert(small_digits(low));
    lemma_val_bound(low);
    lemma_val_split(s, n);
    lemma_pow_positive(1000, n as nat);
    let w = pow(1000, n as nat);
    let high = digits_val(s.skip(n)) as int;
    assert(w * high == high * w) by (nonlinear_arith);
    lemma_fundamental_div_mod_converse(digits_val(s) as int, w, high, digits_val(low) as int);
}

/// What stands above more digits is no greater than what stands above
/// fewer.
pub proof fn lemma_val_skip_ordered(s: Seq<u64>, a: int, b: int)
    requires
        0 <= a <= b <= s.len(),
    ensures
        digits_val(s.skip(b)) <= digits_val(s.skip(a)),
{
    let upper = s.skip(a);
    lemma_val_split(upper, b - a);
    assert(upper.skip(b - a) =~= s.skip(b));
    lemma_pow_positive(1000, (b - a) as nat);
    let w = pow(1000, (b - a) as nat);
    let high = digits_val(s.skip(b));
    assert(w * high >= high) by (nonlinear_arith)
        requires
            w >= 1,
            high >= 0,
    ;
}

/// The digits of `n`, one at least.
pub fn to_digits(n: u64) -> (digits: Vec<u64>)
    ensures
        small_digits(digits@),
        digits_val(digits@) == n,
        digits@.len() >= 1,
{
    let mut digits: Vec<u64> = Vec::new();
    let mut rest = n;
    proof {
        lemma_pow0(1000);
    }
    loop
        invariant
            small_digits(digits@),
            digits_val(digits@) + rest * pow(1000, digits@.len()) == n,
        ensures
            small_digits(digits@),
            digits_val(digits@) == n,
            digits@.len() >= 1,
        decreases rest,
    {
        let ghost before = digits@;
        let ghost w = pow(1000, before.len());
        let d = rest % 1000;
        let next = rest / 1000;
        digits.push(d);
        proof {
            lemma_val_push(before, d);
            lemma_pow1000_step(before.len());
            assert(d * w + next * (1000 * w) == rest * w) by (nonlinear_arith)
                requires
                    rest == 1000 * next + d,
            ;
        }
        rest = next;
        if rest == 0 {
            break;
        }
    }
    digits
}

/// The digits of the number times `factor`, `min_len` digits at least.
pub fn multiply(digits: &Vec<u64>, factor: u64, min_len: usize) -> (product: Vec<u64>)
    requires
        small_digits(digits@),
    ensures
        small_digits(product@),
        digits_val(product@) == digits_val(digits@) * factor,
        product@.len() >= min_len,
{
    let mut product: Vec<u64> = Vec::new();
    let mut carry: u64 = 0;
    let mut j: usize = 0;
    proof {
        lemma_pow0(1000);
        assert(digits@.take(0) =~= Seq::<u64>::empty());
        assert(digits_val(product@) == 0);
        assert(digits_val(digits@.take(0)) == 0);
        assert(0 * factor == 0);
    }
    while j < digits.len()
        invariant
            j <= digits@.len(),
            product@.len() == j,
            small_digits(digits@),
            small_digits(product@),
            carry <= factor,
            digits_val(product@) + carry * pow(1000, j as nat) == digits_val(digits@.take(j as int))
                * factor,
        decreases digits@.len() - j,
    {
        let d = digits[j];
        assert(d < 1000);
        assert((d as u128) * (factor as u128) + (carry as u128) <= 1000 * (factor as u128))
            by (nonlinear_arith)
            requires
                d < 1000,
                carry <= factor,
        ;
        let t: u128 = (d as u128) * (factor as u128) + (carry as u128);
        let low = (t % 1000) as u64;
        let high = (t / 1000) as u64;
        let ghost before = product@;
        let ghost w = pow(1000, j as nat);
        product.push(low);
        proof {
            lemma_val_push(before, low);
            lemma_val_push(digits@.take(j as int), d);
            assert(digits@.take(j + 1) =~= digits@.take(j as int).push(d));
            lemma_pow1000_step(j as nat);
            let prev = digits_val(digits@.take(j as int));
            assert(low * w + high * (1000 * w) == (d * factor + carry) * w) by (nonlinear_arith)
                requires
                    d * factor + carry == 1000 * high + low,
            ;
            assert((prev + d * w) * factor == prev * factor + (d * factor) * w)
                by (nonlinear_arith);
            assert((d * factor + carry) * w == (d * factor) * w + carry * w) by (nonlinear_arith);
        }
        carry = high;
        j = j + 1;
    }
    assert(digits@.take(j as int) =~= digits@);
    while carry > 0 || product.len() < min_len
        invariant
            small_digits(product@),
            digits_val(product@) + carry * pow(1000, product@.len()) == digits_val(digits@)
                * factor,
        decreases carry, min_len - product@.len(),
    {
        let ghost before = product@;
        let ghost w = pow(1000, before.len());
        let low = carry % 1000;
        let high = carry / 1000;
        product.push(low);
        proof {
            lemma_val_push(before, low);
            lemma_pow1000_step(before.len());
            assert(low * w + high * (1000 * w) == carry * w) by (nonlinear_arith)
                requires
                    carry == 1000 * high + low,
            ;
        }
        carry = high;
    }
    product
}

/// The number above the low `from` digits, if it is at most `cap`.
pub fn high_part(digits: &Vec<u64>, from: usize, cap: u64) -> (high: Option<u64>)
    requires
        small_digits(digits@),
        from <= digits@.len(),
    ensures
        match high {
            Some(v) => digits_val(digits@.skip(from as int)) == v && v <= cap,
            None => digits_val(digits@.skip(from as int)) > cap,
        },
{
    let mut acc: u64 = 0;
    let mut j: usize = digits.len();
    assert(digits@.skip(j as int) =~= Seq::<u64>::empty());
    while j > from
        invariant
            from <= j <= digits@.len(),
            small_digits(digits@),
            acc as nat == digits_val(digits@.skip(j as int)),
            acc <= cap,
        decreases j,
    {
        j = j - 1;
        let d = digits[j];
        let ghost upper = digits@.skip(j as int);
        assert(upper[0] == d);
        assert(upper.drop_first() =~= digits@.skip(j + 1));
        assert(digits_val(upper) == d + 1000 * acc);
        let next: u128 = (acc as u128) * 1000 + (d as u128);
        if next > cap as u128 {
            proof {
                lemma_val_skip_ordered(digits@, from as int, j as int);
            }
            return None;
        }
        acc = next as u64;
    }
    Some(acc)
}

} // verus!
