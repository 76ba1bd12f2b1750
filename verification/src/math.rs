//! Fixed-point helpers: multiply-then-divide through a 256-bit intermediate,
//! always rounding down, failing closed when a result does not fit.

use primitive_types::U256;
use vstd::arithmetic::power::*;
use vstd::prelude::*;

verus! {

/// Fixed-point scale of the accumulated reward per share.
pub const SCALE: u128 = 1_000_000_000_000;

/// 2^64, the weight of one word of a [`Wide`].
pub open spec fn word() -> int {
    0x1_0000_0000_0000_0000
}

/// 2^128, the weight of the third word.
pub open spec fn word2() -> int {
    0x1_0000_0000_0000_0000_0000_0000_0000_0000int
}

/// 2^192, the weight of the fourth word.
pub open spec fn word3() -> int {
    0x1_0000_0000_0000_0000_0000_0000_0000_0000_0000_0000_0000_0000int
}

/// 2^256, the first value a [`Wide`] cannot hold.
pub open spec fn wide_limit() -> int {
    0x1_0000_0000_0000_0000_0000_0000_0000_0000_0000_0000_0000_0000_0000_0000_0000_0000int
}

/// A 256-bit unsigned number held as four 64-bit words, least significant first.
#[derive(Clone, Copy, Debug)]
pub struct Wide {
    pub w0: u64,
    pub w1: u64,
    pub w2: u64,
    pub w3: u64,
}

impl View for Wide {
    type V = int;

    open spec fn view(&self) -> int {
        self.w0 + self.w1 * word() + self.w2 * word2() + self.w3 * word3()
    }
}

/// Trusted: `U256::from(u128)` twice and `U256 * U256`. The words of a `U256`
/// are its public field, least significant first. The product of two 128-bit
/// numbers is below 2^256, so the multiplication cannot overflow and the
/// result is the exact product.
#[verifier::external_body]
fn wide_mul(a: u128, b: u128) -> (r: Wide)
    ensures
        r@ == a * b,
{
    let U256(w) = U256::from(a) * U256::from(b);
    Wide { w0: w[0], w1: w[1], w2: w[2], w3: w[3] }
}

/// Trusted: `U256::checked_mul`. It gives the exact product when that is below
/// 2^256 and `None` otherwise.
#[verifier::external_body]
fn wide_checked_mul(x: Wide, c: u128) -> (r: Option<Wide>)
    ensures
        match r {
            Some(p) => p@ == x@ * c,
            None => x@ * c >= wide_limit(),
        },
{
    match U256([x.w0, x.w1, x.w2, x.w3]).checked_mul(U256::from(c)) {
        Some(U256(w)) => Some(Wide { w0: w[0], w1: w[1], w2: w[2], w3: w[3] }),
        None => None,
    }
}

/// Trusted: `U256 / U256`, the quotient rounded down. The outside function
/// panics on a zero divisor, which the precondition leaves out.
#[verifier::external_body]
fn wide_div(x: Wide, d: u128) -> (r: Wide)
    requires
        d != 0,
    ensures
        r@ == x@ / (d as int),
{
    let U256(w) = U256([x.w0, x.w1, x.w2, x.w3]) / U256::from(d);
    Wide { w0: w[0], w1: w[1], w2: w[2], w3: w[3] }
}

/// Trusted: `U256::as_u128`. The outside function panics when one of the two
/// high words is not zero, which the precondition leaves out.
#[verifier::external_body]
fn wide_as_u128(x: Wide) -> (r: u128)
    requires
        x@ <= u128::MAX,
    ensures
        r == x@,
{
    U256([x.w0, x.w1, x.w2, x.w3]).as_u128()
}

impl Wide {
    /// Every value lies below 2^256.
    pub proof fn lemma_bounded(self)
        ensures
            0 <= self@ < wide_limit(),
    {
    }

    /// Whether the number fits in 128 bits.
    pub fn fits_u128(&self) -> (r: bool)
        ensures
            r == (self@ <= u128::MAX),
    {
        self.w2 == 0 && self.w3 == 0
    }
}

/// `a * b / c` rounded down, or `None` when `c` is zero or the quotient does
/// not fit in 128 bits.
pub open spec fn mul_div_spec(a: u128, b: u128, c: u128) -> Option<u128> {
    if c == 0 || (a * b) / (c as int) > u128::MAX {
        None
    } else {
        Some(((a * b) / (c as int)) as u128)
    }
}

/// Computes `a * b / c` without intermediate overflow.
pub fn mul_div(a: u128, b: u128, c: u128) -> (r: Option<u128>)
    ensures
        r == mul_div_spec(a, b, c),
{
    if c == 0 {
        return None;
    }
    let q = wide_div(wide_mul(a, b), c);
    if q.fits_u128() {
        Some(wide_as_u128(q))
    } else {
        None
    }
}

/// `a * b * c / d` rounded down, or `None` when `d` is zero, the product does
/// not fit in 256 bits, or the quotient does not fit in 128 bits.
pub open spec fn mul_mul_div_spec(a: u128, b: u128, c: u128, d: u128) -> Option<u128> {
    if d == 0 || a * b * c >= wide_limit() || (a * b * c) / (d as int) > u128::MAX {
        None
    } else {
        Some(((a * b * c) / (d as int)) as u128)
    }
}

/// Computes `a * b * c / d` through a 256-bit intermediate.
pub fn mul_mul_div(a: u128, b: u128, c: u128, d: u128) -> (r: Option<u128>)
    ensures
        r == mul_mul_div_spec(a, b, c, d),
{
    if d == 0 {
        return None;
    }
    match wide_checked_mul(wide_mul(a, b), c) {
        None => None,
        Some(p) => {
            proof {
                p.lemma_bounded();
            }
            let q = wide_div(p, d);
            if q.fits_u128() {
                Some(wide_as_u128(q))
            } else {
                None
            }
        },
    }
}

/// Ten to the `n`, where it fits in 128 bits.
pub fn pow10_checked(n: u32) -> (r: Option<u128>)
    ensures
        match r {
            Some(p) => p == pow(10, n as nat),
            None => pow(10, n as nat) > u128::MAX,
        },
{
    let mut r: u128 = 1;
    let mut i: u32 = 0;
    proof {
        lemma_pow0(10);
    }
    while i < n
        invariant
            i <= n,
            r == pow(10, i as nat),
        decreases n - i,
    {
        proof {
            reveal(pow);
            assert(pow(10, (i + 1) as nat) == 10 * pow(10, i as nat));
        }
        match r.checked_mul(10) {
            Some(next) => {
                r = next;
            },
            None => {
                proof {
                    lemma_pow_increases(10, (i + 1) as nat, n as nat);
                }
                return None;
            },
        }
        i = i + 1;
    }
    Some(r)
}

/// An amount carried from `down` decimals to `up` decimals:
/// `amount * 10^up / 10^down`, rounded down.
pub open spec fn rescaled(amount: u128, up: nat, down: nat) -> int {
    ((amount as int) * pow(10, up)) / pow(10, down)
}

/// The amount carried from `down` decimals to `up` decimals, or `None` when
/// it does not fit in 128 bits.
pub open spec fn rescale_spec(amount: u128, up: nat, down: nat) -> Option<u128> {
    if rescaled(amount, up, down) > u128::MAX {
        None
    } else {
        Some(rescaled(amount, up, down) as u128)
    }
}

/// Carrying an amount up by `up - down` decimals multiplies it by ten to that
/// difference.
pub proof fn lemma_rescaled_up(amount: u128, up: nat, down: nat)
    requires
        down <= up,
    ensures
        rescaled(amount, up, down) == amount * pow(10, (up - down) as nat),
{
    let k = (up - down) as nat;
    lemma_pow_adds(10, k, down);
    lemma_pow_positive(10, k);
    lemma_pow_positive(10, down);
    vstd::arithmetic::mul::lemma_mul_is_associative(amount as int, pow(10, k), pow(10, down));
    assert(0 <= amount * pow(10, k)) by (nonlinear_arith)
        requires
            0 <= amount,
            0 < pow(10, k),
    ;
    vstd::arithmetic::div_mod::lemma_div_by_multiple(amount * pow(10, k), pow(10, down));
}

/// Carrying an amount down by `down - up` decimals divides it by ten to that
/// difference.
pub proof fn lemma_rescaled_down(amount: u128, up: nat, down: nat)
    requires
        up <= down,
    ensures
        0 < pow(10, (down - up) as nat),
        rescaled(amount, up, down) == (amount as int) / pow(10, (down - up) as nat),
{
    let k = (down - up) as nat;
    lemma_pow_adds(10, up, k);
    lemma_pow_positive(10, k);
    lemma_pow_positive(10, up);
    vstd::arithmetic::div_mod::lemma_div_multiples_vanish_quotient(
        pow(10, up),
        amount as int,
        pow(10, k),
    );
    vstd::arithmetic::mul::lemma_mul_is_commutative(amount as int, pow(10, up));
}

/// Carries `amount` from `down` decimals to `up` decimals. Where both powers
/// of ten fit in 128 bits the product goes through the 256-bit intermediate;
/// where one does not, the powers are first reduced to ten to the difference
/// of the decimals, which gives the same quotient.
pub fn rescale(amount: u128, up: u32, down: u32) -> (r: Option<u128>)
    ensures
        r == rescale_spec(amount, up as nat, down as nat),
{
    let unit = pow10_checked(up);
    let base = pow10_checked(down);
    if let (Some(unit), Some(base)) = (unit, base) {
        proof {
            lemma_pow_positive(10, down as nat);
        }
        return mul_div(amount, unit, base);
    }
    if up >= down {
        let ghost factor = pow(10, (up - down) as nat);
        proof {
            lemma_rescaled_up(amount, up as nat, down as nat);
            assert(rescaled(amount, up as nat, down as nat) == amount * factor);
        }
        match pow10_checked(up - down) {
            Some(by) => {
                assert(by == factor);
                amount.checked_mul(by)
            },
            None => {
                if amount == 0 {
                    assert(amount * factor == 0);
                    Some(0)
                } else {
                    assert(amount * factor >= factor) by (nonlinear_arith)
                        requires
                            amount >= 1,
                            factor >= 0,
                    ;
                    None
                }
            },
        }
    } else {
        let ghost divisor = pow(10, (down - up) as nat);
        proof {
            lemma_rescaled_down(amount, up as nat, down as nat);
            assert(rescaled(amount, up as nat, down as nat) == (amount as int) / divisor);
        }
        match pow10_checked(down - up) {
            Some(by) => {
                assert(by == divisor);
                Some(amount / by)
            },
            None => {
                proof {
                    vstd::arithmetic::div_mod::lemma_basic_div(amount as int, divisor);
                }
                Some(0)
            },
        }
    }
}

} // verus!
