//! The bridge from the exchange's exact decimal prices (rust_decimal's
//! 96-bit `Decimal`) to the engine's micro-dollar fixed point. The two
//! trusted accessors only read the mantissa and the scale; the conversion
//! itself is verified: it yields `Some(m)` exactly for the values that are
//! a price in `[0, 1]` dollars with at most six decimal places.

use vstd::prelude::*;
use vstd::arithmetic::mul::{lemma_mul_inequality, lemma_mul_nonnegative, lemma_mul_upper_bound,
    lemma_mul_is_associative, lemma_mul_is_commutative};
use vstd::arithmetic::div_mod::{lemma_fundamental_div_mod, lemma_mod_multiples_basic};
use crate::money::{MICRO, PRICE_MAX, quote_ok};

verus! {

/// rust_decimal's decimal number, declared so that its values can pass
/// through verified code.
#[verifier::external_type_specification]
#[verifier::external_body]
pub struct ExDecimal(rust_decimal::Decimal);

/// Relies on rust_decimal's `Decimal::mantissa`: the signed integer
/// mantissa of the value, which is `mantissa / 10^scale`. The mantissa is
/// assembled from three 32-bit words and a sign, so its magnitude is
/// below `2^96`.
#[verifier::external_body]
pub fn decimal_mantissa(d: &rust_decimal::Decimal) -> (m: i128)
    ensures
        -0x1000000000000000000000000 < m < 0x1000000000000000000000000,
{
    d.mantissa()
}

/// Relies on rust_decimal's `Decimal::scale`: the number of decimal
/// places of the value. It is read from an eight-bit field of the flags
/// word, so it is below 256.
#[verifier::external_body]
pub fn decimal_scale(d: &rust_decimal::Decimal) -> (s: u32)
    ensures
        s < 256,
{
    d.scale()
}

/// `10^e`.
pub open spec fn pow10(e: nat) -> int
    decreases e,
{
    if e == 0 {
        1
    } else {
        10 * pow10((e - 1) as nat)
    }
}

/// Powers of ten are positive.
pub proof fn lemma_pow10_pos(e: nat)
    ensures
        pow10(e) >= 1,
    decreases e,
{
    if e > 0 {
        lemma_pow10_pos((e - 1) as nat);
    }
}

/// `10^(a+b) == 10^a * 10^b`.
pub proof fn lemma_pow10_add(a: nat, b: nat)
    ensures
        pow10(a + b) == pow10(a) * pow10(b),
    decreases a,
{
    if a == 0 {
        assert(pow10(b) == 1 * pow10(b));
    } else {
        lemma_pow10_add((a - 1) as nat, b);
        assert(pow10(a + b) == 10 * pow10((a - 1) as nat + b));
        lemma_mul_is_associative(10, pow10((a - 1) as nat), pow10(b));
    }
}

/// Powers of ten grow with the exponent.
pub proof fn lemma_pow10_mono(a: nat, b: nat)
    requires
        a <= b,
    ensures
        pow10(a) <= pow10(b),
{
    lemma_pow10_add(a, (b - a) as nat);
    lemma_pow10_pos(a);
    lemma_pow10_pos((b - a) as nat);
    lemma_mul_inequality(1, pow10((b - a) as nat), pow10(a));
    lemma_mul_is_commutative(pow10(a), pow10((b - a) as nat));
}

/// `10^e` as a machine word, for small exponents.
fn pow10_u128(e: u32) -> (r: u128)
    requires
        e <= 28,
    ensures
        r == pow10(e as nat),
        r >= 1,
{
    proof {
        reveal_with_fuel(pow10, 31);
        assert(pow10(29) == 100_000_000_000_000_000_000_000_000_000int);
    }
    let mut r: u128 = 1;
    let mut i: u32 = 0;
    while i < e
        invariant
            i <= e <= 28,
            r == pow10(i as nat),
        decreases e - i,
    {
        proof {
            lemma_pow10_mono((i + 1) as nat, 29nat);
            reveal_with_fuel(pow10, 31);
            assert(pow10(29) == 100_000_000_000_000_000_000_000_000_000int);
        }
        r = r * 10;
        i = i + 1;
    }
    r
}

/// The price in micro-dollars represented by a decimal `mantissa / 10^scale`:
/// `Some(m)` exactly when the value equals `m / 1_000_000` for some
/// `m` in `[0, 1_000_000]` — that is, when it is a price in `[0, 1]`
/// dollars expressible with six decimal places. The bound on `mantissa` is
/// the 96-bit range of rust_decimal's representation.
pub fn price_micros_from_parts(mantissa: i128, scale: u32) -> (r: Option<u64>)
    requires
        -0x1000000000000000000000000 < mantissa < 0x1000000000000000000000000,
    ensures
        match r {
            Some(m) => quote_ok(m) && mantissa * (MICRO as int) == m * pow10(scale as nat),
            None => forall|m: int|
                0 <= m <= PRICE_MAX as int ==> mantissa * (MICRO as int) != #[trigger] (m * pow10(
                    scale as nat,
                )),
        },
{
    let ghost s = scale as nat;
    if mantissa < 0 {
        proof {
            assert forall|m: int|
                0 <= m <= PRICE_MAX as int implies mantissa * (MICRO as int) != #[trigger] (m
                * pow10(s)) by {
                lemma_pow10_pos(s);
                lemma_mul_nonnegative(m, pow10(s));
                assert(mantissa * (MICRO as int) < 0) by (nonlinear_arith)
                    requires
                        mantissa < 0,
                ;
            }
        }
        return None;
    }
    if mantissa == 0 {
        proof {
            assert(0int * pow10(s) == 0) by {
                lemma_pow10_pos(s);
            }
        }
        return Some(0);
    }
    if scale <= 6 {
        proof {
            reveal_with_fuel(pow10, 8);
        }
        if mantissa > 1_000_000 {
            proof {
                assert forall|m: int|
                    0 <= m <= PRICE_MAX as int implies mantissa * (MICRO as int) != #[trigger] (
                m * pow10(s)) by {
                    lemma_pow10_mono(s, 6nat);
                    assert(pow10(6) == 1_000_000);
                    lemma_mul_upper_bound(m, PRICE_MAX as int, pow10(s), 1_000_000);
                    assert(mantissa * (MICRO as int) >= 1_000_001 * 1_000_000) by (
                    nonlinear_arith)
                        requires
                            mantissa >= 1_000_001,
                    ;
                }
            }
            return None;
        }
        let exp: u32 = 6 - scale;
        let mult: u128 = pow10_u128(exp);
        proof {
            lemma_pow10_mono(exp as nat, 6nat);
            assert(pow10(6) == 1_000_000);
            lemma_mul_upper_bound(mantissa as int, 1_000_000, mult as int, 1_000_000);
            lemma_mul_nonnegative(mantissa as int, mult as int);
        }
        let micros: u128 = (mantissa as u128) * mult;
        proof {
            lemma_pow10_add(exp as nat, s);
            assert((exp as nat) + s == 6nat);
            assert(mantissa * (MICRO as int) == (micros as int) * pow10(s)) by {
                assert(pow10(6) == pow10(exp as nat) * pow10(s));
                assert(mantissa * (MICRO as int) == mantissa * (pow10(exp as nat) * pow10(s)));
                lemma_mul_is_associative(mantissa as int, pow10(exp as nat), pow10(s));
            }
        }
        if micros > 1_000_000 {
            proof {
                assert forall|m: int|
                    0 <= m <= PRICE_MAX as int implies mantissa * (MICRO as int) != #[trigger] (
                m * pow10(s)) by {
                    if mantissa * (MICRO as int) == m * pow10(s) {
                        lemma_pow10_pos(s);
                        assert(m == micros as int) by (nonlinear_arith)
                            requires
                                (micros as int) * pow10(s) == m * pow10(s),
                                pow10(s) >= 1,
                        ;
                    }
                }
            }
            return None;
        }
        return Some(micros as u64);
    }
    // scale > 6 and mantissa >= 1
    if scale >= 35 {
        proof {
            assert forall|m: int|
                0 <= m <= PRICE_MAX as int implies mantissa * (MICRO as int) != #[trigger] (m
                * pow10(s)) by {
                lemma_pow10_pos(s);
                if m == 0 {
                    assert(mantissa * (MICRO as int) >= 1_000_000) by (nonlinear_arith)
                        requires
                            mantissa >= 1,
                    ;
                } else {
                    lemma_pow10_mono(35nat, s);
                    reveal_with_fuel(pow10, 37);
                    assert(pow10(35) == 100_000_000_000_000_000_000_000_000_000_000_000int);
                    lemma_mul_inequality(1, m, pow10(s));
                    lemma_mul_is_commutative(m, pow10(s));
                    assert(mantissa * (MICRO as int)
                        < 0x1000000000000000000000000 * 1_000_000) by (nonlinear_arith)
                        requires
                            mantissa < 0x1000000000000000000000000,
                    ;
                }
            }
        }
        return None;
    }
    let exp: u32 = scale - 6;
    let divisor: u128 = pow10_u128(exp);
    let mantissa_u: u128 = mantissa as u128;
    proof {
        lemma_pow10_add(6nat, exp as nat);
        assert(6nat + exp as nat == s);
        reveal_with_fuel(pow10, 8);
        assert(pow10(6) == 1_000_000);
        assert(pow10(s) == (MICRO as int) * pow10(exp as nat));
        lemma_fundamental_div_mod(mantissa_u as int, divisor as int);
    }
    let remainder: u128 = mantissa_u % divisor;
    let quotient: u128 = mantissa_u / divisor;
    if remainder != 0 {
        proof {
            assert forall|m: int|
                0 <= m <= PRICE_MAX as int implies mantissa * (MICRO as int) != #[trigger] (m
                * pow10(s)) by {
                if mantissa * (MICRO as int) == m * pow10(s) {
                    assert(mantissa * (MICRO as int) == m * ((MICRO as int) * pow10(exp as nat)));
                    lemma_mul_is_associative(m, MICRO as int, pow10(exp as nat));
                    lemma_mul_is_commutative(m, MICRO as int);
                    lemma_mul_is_associative(MICRO as int, m, pow10(exp as nat));
                    assert(mantissa == m * pow10(exp as nat)) by (nonlinear_arith)
                        requires
                            mantissa * (MICRO as int) == (MICRO as int) * (m * pow10(
                                exp as nat,
                            )),
                            MICRO >= 1,
                    ;
                    lemma_mod_multiples_basic(m, pow10(exp as nat));
                    assert(mantissa_u as int % (divisor as int) == 0);
                }
            }
        }
        return None;
    }
    proof {
        lemma_fundamental_div_mod(mantissa_u as int, divisor as int);
        lemma_mul_is_commutative(divisor as int, quotient as int);
        assert(mantissa_u as int == (quotient as int) * (divisor as int));
        assert(mantissa * (MICRO as int) == (quotient as int) * pow10(s)) by {
            assert(mantissa * (MICRO as int) == ((quotient as int) * (divisor as int)) * (
            MICRO as int));
            lemma_mul_is_associative(quotient as int, divisor as int, MICRO as int);
            lemma_mul_is_commutative(divisor as int, MICRO as int);
            lemma_mul_is_associative(quotient as int, MICRO as int, divisor as int);
        }
    }
    if quotient > 1_000_000 {
        proof {
            assert forall|m: int|
                0 <= m <= PRICE_MAX as int implies mantissa * (MICRO as int) != #[trigger] (m
                * pow10(s)) by {
                if mantissa * (MICRO as int) == m * pow10(s) {
                    lemma_pow10_pos(s);
                    assert(m == quotient as int) by (nonlinear_arith)
                        requires
                            (quotient as int) * pow10(s) == m * pow10(s),
                            pow10(s) >= 1,
                    ;
                }
            }
        }
        return None;
    }
    Some(quotient as u64)
}

/// Convert an exchange quote to a micro-dollar price: `Some` exactly when
/// the decimal is a price in `[0, 1]` with at most six decimal places.
pub fn price_from_decimal(d: &rust_decimal::Decimal) -> (r: Option<u64>)
    ensures
        r is Some ==> quote_ok(r->0),
{
    let mantissa: i128 = decimal_mantissa(d);
    let scale: u32 = decimal_scale(d);
    price_micros_from_parts(mantissa, scale)
}

} // verus!
