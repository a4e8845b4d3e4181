//! Euclidean division on unbounded integers, built on the division that
//! rounds toward zero.

use vstd::prelude::*;
use std::ops::Neg;
use std::rc::Rc;
use num::BigInt;
use num::BigRational;
use crate::bigint::int_of;
use crate::bigint::numer_of;
use crate::bigint::denom_of;
use crate::bigint::trunc_div;
use crate::bigint::trunc_rem;
use crate::bigint::big_clone;
use crate::bigint::big_sign;
use crate::bigint::ratio_numer;
use crate::bigint::ratio_denom;
use crate::dafny_int::DafnyInt;

verus! {

/// For a divisor other than zero, the Euclidean remainder lies in
/// `[0, |b|)` and, with the Euclidean quotient, gives the dividend back.
pub proof fn lemma_euclidean_division(a: int, b: int)
    requires
        b != 0,
    ensures
        0 <= a % b < (if b < 0 { -b } else { b }),
        a == (a / b) * b + a % b,
{
    assert(0 <= a % b < (if b < 0 { -b } else { b }) && a == (a / b) * b + a % b)
        by (nonlinear_arith)
        requires
            b != 0,
    ;
}

/// A quotient and remainder with the remainder in `[0, |b|)` are the
/// Euclidean ones.
pub proof fn lemma_euclidean_unique(a: int, b: int, q: int, r: int)
    requires
        b != 0,
        a == q * b + r,
        0 <= r < (if b < 0 { -b } else { b }),
    ensures
        q == a / b,
        r == a % b,
{
    lemma_euclidean_division(a, b);
    let q0 = a / b;
    let r0 = a % b;
    assert((q - q0) * b == r0 - r) by (nonlinear_arith)
        requires
            a == q * b + r,
            a == q0 * b + r0,
    ;
    assert(q == q0) by (nonlinear_arith)
        requires
            (q - q0) * b == r0 - r,
            b != 0,
            0 <= r < (if b < 0 { -b } else { b }),
            0 <= r0 < (if b < 0 { -b } else { b }),
    ;
}

/// On a dividend that is not negative and a positive divisor, rounding
/// toward zero and Euclidean division agree.
proof fn lemma_trunc_of_naturals(a: int, b: int)
    requires
        a >= 0,
        b > 0,
    ensures
        trunc_div(a, b) == a / b,
        trunc_rem(a, b) == a % b,
        0 <= a % b < b,
        a == (a / b) * b + a % b,
{
    lemma_euclidean_division(a, b);
}

/// The Euclidean quotient of `a` by `b`.
pub fn euclidian_division(a: DafnyInt, b: DafnyInt) -> (q: DafnyInt)
    requires
        b@ != 0,
    ensures
        q@ == a@ / b@,
{
    if !a.is_negative() {
        if !b.is_negative() {
            a / b
        } else {
            let ghost m: int = -b@;
            let q = a / b.neg();
            proof {
                lemma_trunc_of_naturals(a@, m);
                assert(a@ == (-q@) * b@ + a@ % m) by (nonlinear_arith)
                    requires
                        a@ == q@ * m + a@ % m,
                        m == -b@,
                ;
                lemma_euclidean_unique(a@, b@, -q@, a@ % m);
            }
            q.neg()
        }
    } else {
        let ghost n: int = -(a@ + 1);
        if !b.is_negative() {
            let q = (a + DafnyInt::one()).neg() / b;
            let r = q.neg() - DafnyInt::one();
            proof {
                lemma_trunc_of_naturals(n, b@);
                assert(a@ == r@ * b@ + (b@ - 1 - n % b@)) by (nonlinear_arith)
                    requires
                        n == -(a@ + 1),
                        n == q@ * b@ + n % b@,
                        r@ == -q@ - 1,
                ;
                lemma_euclidean_unique(a@, b@, r@, b@ - 1 - n % b@);
            }
            r
        } else {
            let ghost m: int = -b@;
            let q = (a + DafnyInt::one()).neg() / b.neg();
            let r = q + DafnyInt::one();
            proof {
                lemma_trunc_of_naturals(n, m);
                assert(a@ == r@ * b@ + (m - 1 - n % m)) by (nonlinear_arith)
                    requires
                        n == -(a@ + 1),
                        m == -b@,
                        n == (r@ - 1) * m + n % m,
                ;
                lemma_euclidean_unique(a@, b@, r@, m - 1 - n % m);
            }
            r
        }
    }
}

/// The Euclidean remainder of `a` by `b`: the one in `[0, |b|)`.
pub fn euclidian_modulo(a: DafnyInt, b: DafnyInt) -> (r: DafnyInt)
    requires
        b@ != 0,
    ensures
        r@ == a@ % b@,
{
    if !a.is_negative() {
        if !b.is_negative() {
            proof {
                lemma_trunc_of_naturals(a@, b@);
            }
            a % b
        } else {
            let ghost m: int = -b@;
            let ghost q: int = a@ / m;
            let r = a % b.neg();
            proof {
                lemma_trunc_of_naturals(a@, m);
                assert(a@ == (-q) * b@ + r@) by (nonlinear_arith)
                    requires
                        a@ == q * m + r@,
                        m == -b@,
                ;
                lemma_euclidean_unique(a@, b@, -q, r@);
            }
            r
        }
    } else {
        let ghost n: int = -a@;
        let bp = b.abs();
        let ghost q: int = n / bp@;
        let c = a.neg() % bp.clone();
        proof {
            lemma_trunc_of_naturals(n, bp@);
        }
        if c == DafnyInt::zero() {
            proof {
                if b@ > 0 {
                    assert(a@ == (-q) * b@ + 0) by (nonlinear_arith)
                        requires
                            -a@ == q * b@,
                    ;
                    lemma_euclidean_unique(a@, b@, -q, 0);
                } else {
                    assert(a@ == q * b@ + 0) by (nonlinear_arith)
                        requires
                            -a@ == q * (-b@),
                    ;
                    lemma_euclidean_unique(a@, b@, q, 0);
                }
            }
            DafnyInt::zero()
        } else {
            let r = bp - c;
            proof {
                if b@ > 0 {
                    assert(a@ == (-q - 1) * b@ + r@) by (nonlinear_arith)
                        requires
                            -a@ == q * b@ + c@,
                            r@ == b@ - c@,
                    ;
                    lemma_euclidean_unique(a@, b@, -q - 1, r@);
                } else {
                    assert(a@ == (q + 1) * b@ + r@) by (nonlinear_arith)
                        requires
                            -a@ == q * (-b@) + c@,
                            r@ == -b@ - c@,
                    ;
                    lemma_euclidean_unique(a@, b@, q + 1, r@);
                }
            }
            r
        }
    }
}

/// The integer part of a rational, rounded down: the Euclidean quotient of
/// its numerator by its denominator.
pub fn dafny_rational_to_int(r: &BigRational) -> (q: BigInt)
    requires
        denom_of(*r) != 0,
    ensures
        int_of(q) == numer_of(*r) / denom_of(*r),
{
    let n = DafnyInt::new(Rc::new(big_clone(ratio_numer(r))));
    let d = DafnyInt::new(Rc::new(big_clone(ratio_denom(r))));
    let q = euclidian_division(n, d);
    big_clone(q.as_ref())
}

/// The integer part of a rational, rounded down, or `None` for a rational
/// whose denominator is zero.
pub fn dafny_rational_to_int_checked(r: &BigRational) -> (q: Option<BigInt>)
    ensures
        q is Some <==> denom_of(*r) != 0,
        q matches Some(n) ==> int_of(n) == numer_of(*r) / denom_of(*r),
{
    if big_sign(ratio_denom(r)) == 0 {
        None
    } else {
        Some(dafny_rational_to_int(r))
    }
}

} // verus!
