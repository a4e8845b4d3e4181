//! The boundary to the `num` crate's arbitrary-precision integers.
//!
//! A `BigInt` is opaque to the verifier. Its mathematical value has a name,
//! [`int_of`], and every arithmetic call goes through one small function whose
//! contract is stated over that name. None of these contracts is proved: each
//! restates what `num` documents for the call it makes.

use vstd::prelude::*;
use num::BigInt;
use num::BigRational;
use num::rational::Ratio;
use num::bigint::ParseBigIntError;
use num::bigint::Sign;
use num::Num;
use num::ToPrimitive;
use std::cmp::Ordering;

verus! {

/// `num::BigInt`, carried as an opaque value.
#[verifier::external_type_specification]
#[verifier::external_body]
pub struct ExBigInt(BigInt);

/// `num::rational::Ratio`, carried as an opaque value.
#[verifier::external_type_specification]
#[verifier::external_body]
#[verifier::reject_recursive_types(T)]
pub struct ExRatio<T>(Ratio<T>);

/// `num::bigint::ParseBigIntError`, carried as an opaque value.
#[verifier::external_type_specification]
#[verifier::external_body]
pub struct ExParseBigIntError(ParseBigIntError);

/// The mathematical integer that a `BigInt` holds.
pub uninterp spec fn int_of(b: BigInt) -> int;

/// What `BigInt::parse_bytes` makes of the bytes `buf` read in base `radix`:
/// the number they spell, or `None` where they spell none.
pub uninterp spec fn parsed_bytes(buf: Seq<u8>, radix: u32) -> Option<int>;

/// What `BigInt::from_str_radix` makes of the text `s` read in base `radix`:
/// the number it spells, or `None` where it spells none.
pub uninterp spec fn parsed_text(s: Seq<char>, radix: u32) -> Option<int>;

/// The text that `BigInt::to_string` writes for the number `n`: its decimal
/// digits, after a minus sign where it is negative.
pub uninterp spec fn decimal_of(n: int) -> Seq<char>;

/// The numerator that a `BigRational` stores.
pub uninterp spec fn numer_of(r: BigRational) -> int;

/// The denominator that a `BigRational` stores.
pub uninterp spec fn denom_of(r: BigRational) -> int;

/// Division that rounds toward zero, as `/` does on machine integers.
pub open spec fn trunc_div(a: int, b: int) -> int
    recommends
        b != 0,
{
    if a >= 0 {
        if b > 0 {
            a / b
        } else {
            -(a / (-b))
        }
    } else {
        if b > 0 {
            -((-a) / b)
        } else {
            (-a) / (-b)
        }
    }
}

/// The remainder that goes with [`trunc_div`]; it has the sign of `a`.
pub open spec fn trunc_rem(a: int, b: int) -> int
    recommends
        b != 0,
{
    a - trunc_div(a, b) * b
}

/// `BigInt::from` on a `u128`: the result holds the same number.
#[verifier::external_body]
pub(crate) fn big_from_u128(n: u128) -> (r: BigInt)
    ensures
        int_of(r) == n,
{
    BigInt::from(n)
}

/// `BigInt::from` on an `i128`: the result holds the same number.
#[verifier::external_body]
pub(crate) fn big_from_i128(n: i128) -> (r: BigInt)
    ensures
        int_of(r) == n,
{
    BigInt::from(n)
}

/// `ToPrimitive::to_u128`: the number itself where a `u128` can hold it,
/// `None` where it cannot.
#[verifier::external_body]
pub(crate) fn big_to_u128(b: &BigInt) -> (r: Option<u128>)
    ensures
        r is Some <==> 0 <= int_of(*b) <= u128::MAX,
        r matches Some(n) ==> n == int_of(*b),
{
    b.to_u128()
}

/// `ToPrimitive::to_i128`: the number itself where an `i128` can hold it,
/// `None` where it cannot.
#[verifier::external_body]
pub(crate) fn big_to_i128(b: &BigInt) -> (r: Option<i128>)
    ensures
        r is Some <==> i128::MIN <= int_of(*b) <= i128::MAX,
        r matches Some(n) ==> n == int_of(*b),
{
    b.to_i128()
}

/// `&BigInt + &BigInt`: the exact sum.
#[verifier::external_body]
pub(crate) fn big_add(a: &BigInt, b: &BigInt) -> (r: BigInt)
    ensures
        int_of(r) == int_of(*a) + int_of(*b),
{
    a + b
}

/// `&BigInt - &BigInt`: the exact difference.
#[verifier::external_body]
pub(crate) fn big_sub(a: &BigInt, b: &BigInt) -> (r: BigInt)
    ensures
        int_of(r) == int_of(*a) - int_of(*b),
{
    a - b
}

/// `&BigInt * &BigInt`: the exact product.
#[verifier::external_body]
pub(crate) fn big_mul(a: &BigInt, b: &BigInt) -> (r: BigInt)
    ensures
        int_of(r) == int_of(*a) * int_of(*b),
{
    a * b
}

/// `&BigInt / &BigInt`: the quotient rounded toward zero. `num` panics on a
/// zero divisor, which the precondition leaves out.
#[verifier::external_body]
pub(crate) fn big_div(a: &BigInt, b: &BigInt) -> (r: BigInt)
    requires
        int_of(*b) != 0,
    ensures
        int_of(r) == trunc_div(int_of(*a), int_of(*b)),
{
    a / b
}

/// `&BigInt % &BigInt`: the remainder of the division that rounds toward
/// zero. `num` panics on a zero divisor, which the precondition leaves out.
#[verifier::external_body]
pub(crate) fn big_rem(a: &BigInt, b: &BigInt) -> (r: BigInt)
    requires
        int_of(*b) != 0,
    ensures
        int_of(r) == trunc_rem(int_of(*a), int_of(*b)),
{
    a % b
}

/// `-&BigInt`: the exact negation.
#[verifier::external_body]
pub(crate) fn big_neg(a: &BigInt) -> (r: BigInt)
    ensures
        int_of(r) == -int_of(*a),
{
    -a
}

/// `BigInt::sign`, as -1, 0 or 1.
#[verifier::external_body]
pub(crate) fn big_sign(a: &BigInt) -> (r: i8)
    ensures
        int_of(*a) < 0 ==> r == -1,
        int_of(*a) == 0 ==> r == 0,
        int_of(*a) > 0 ==> r == 1,
{
    match a.sign() {
        Sign::Minus => -1,
        Sign::NoSign => 0,
        Sign::Plus => 1,
    }
}

/// `Ord::cmp` on two `BigInt`s, as -1, 0 or 1: the order of the numbers.
#[verifier::external_body]
pub(crate) fn big_order(a: &BigInt, b: &BigInt) -> (r: i8)
    ensures
        int_of(*a) < int_of(*b) ==> r == -1,
        int_of(*a) == int_of(*b) ==> r == 0,
        int_of(*a) > int_of(*b) ==> r == 1,
{
    match a.cmp(b) {
        Ordering::Less => -1,
        Ordering::Equal => 0,
        Ordering::Greater => 1,
    }
}

/// `BigInt::clone`: a second value that holds the same number.
#[verifier::external_body]
pub(crate) fn big_clone(a: &BigInt) -> (r: BigInt)
    ensures
        int_of(r) == int_of(*a),
{
    a.clone()
}

/// `BigInt::parse_bytes`. `num` panics on a radix outside 2..=36, which the
/// precondition leaves out.
#[verifier::external_body]
pub(crate) fn big_parse_bytes(buf: &[u8], radix: u32) -> (r: Option<BigInt>)
    requires
        2 <= radix <= 36,
    ensures
        match r {
            Some(b) => parsed_bytes(buf@, radix) == Some(int_of(b)),
            None => parsed_bytes(buf@, radix) is None,
        },
{
    BigInt::parse_bytes(buf, radix)
}

/// `BigInt::from_str_radix`. `num` panics on a radix outside 2..=36, which
/// the precondition leaves out.
#[verifier::external_body]
pub(crate) fn big_from_str_radix(s: &str, radix: u32) -> (r: Result<BigInt, ParseBigIntError>)
    requires
        2 <= radix <= 36,
    ensures
        match r {
            Ok(b) => parsed_text(s@, radix) == Some(int_of(b)),
            Err(_) => parsed_text(s@, radix) is None,
        },
{
    BigInt::from_str_radix(s, radix)
}

/// `BigInt::to_string`, whose result goes by the name [`decimal_of`].
#[verifier::external_body]
pub(crate) fn big_to_string(b: &BigInt) -> (r: String)
    ensures
        r@ == decimal_of(int_of(*b)),
{
    b.to_string()
}

/// `Ratio::numer`: the stored numerator.
#[verifier::external_body]
pub(crate) fn ratio_numer(r: &BigRational) -> (n: &BigInt)
    ensures
        int_of(*n) == numer_of(*r),
{
    r.numer()
}

/// `Ratio::denom`: the stored denominator.
#[verifier::external_body]
pub(crate) fn ratio_denom(r: &BigRational) -> (d: &BigInt)
    ensures
        int_of(*d) == denom_of(*r),
{
    r.denom()
}

} // verus!
