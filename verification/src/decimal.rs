//! Rationals written as decimal numbers.

use vstd::prelude::*;
use vstd::arithmetic::power::pow;
use num::BigInt;
use num::BigRational;
use crate::bigint::int_of;
use crate::bigint::numer_of;
use crate::bigint::denom_of;
use crate::bigint::decimal_of;
use crate::bigint::big_clone;
use crate::bigint::big_div;
use crate::bigint::big_from_u128;
use crate::bigint::big_mul;
use crate::bigint::big_neg;
use crate::bigint::big_order;
use crate::bigint::big_rem;
use crate::bigint::big_sign;
use crate::bigint::big_to_string;
use crate::bigint::ratio_denom;
use crate::bigint::ratio_numer;
use crate::euclid::lemma_euclidean_division;
use crate::text::push_char;

verus! {

/// How many times `p` divides the positive number `i`.
pub open spec fn power_in(i: int, p: int) -> nat
    decreases i,
    via power_in_decreases
{
    if i > 0 && p > 1 && i % p == 0 {
        1 + power_in(i / p, p)
    } else {
        0
    }
}

#[via_fn]
proof fn power_in_decreases(i: int, p: int) {
    if i > 0 && p > 1 && i % p == 0 {
        lemma_quotient_is_smaller(i, p);
    }
}

/// The positive number `i` with every factor `p` taken out.
pub open spec fn without(i: int, p: int) -> int
    decreases i,
    via without_decreases
{
    if i > 0 && p > 1 && i % p == 0 {
        without(i / p, p)
    } else {
        i
    }
}

#[via_fn]
proof fn without_decreases(i: int, p: int) {
    if i > 0 && p > 1 && i % p == 0 {
        lemma_quotient_is_smaller(i, p);
    }
}

/// A positive number that `p` divides gives a smaller positive quotient.
proof fn lemma_quotient_is_smaller(i: int, p: int)
    requires
        i > 0,
        p > 1,
        i % p == 0,
    ensures
        0 < i / p < i,
{
    lemma_euclidean_division(i, p);
    assert(0 < i / p < i) by (nonlinear_arith)
        requires
            i > 0,
            p > 1,
            i == (i / p) * p + i % p,
            i % p == 0,
    ;
}

/// How many times ten divides `i`.
pub open spec fn tens_in(i: int) -> nat {
    power_in(i, 10)
}

/// How many times five divides what `i` leaves once ten divides it no more.
pub open spec fn fives_in(i: int) -> nat {
    power_in(without(i, 10), 5)
}

/// How many times two divides what `i` leaves once ten and five divide it
/// no more.
pub open spec fn twos_in(i: int) -> nat {
    power_in(without(without(i, 10), 5), 2)
}

/// What `i` leaves once ten, five and two divide it no more.
pub open spec fn beyond_ten(i: int) -> int {
    without(without(without(i, 10), 5), 2)
}

/// How many factors ten, five and two were taken out of `i` in all.
pub open spec fn places_of(i: int) -> nat {
    tens_in(i) + fives_in(i) + twos_in(i)
}

/// Two to the number of factors five and two that were taken out of `i`.
pub open spec fn scale_of(i: int) -> int {
    pow(2, fives_in(i) + twos_in(i))
}

/// Takes every factor `p` out of `i` and counts them onto `count`.
fn take_out(i: BigInt, p: &BigInt, count: usize) -> (r: (BigInt, usize))
    requires
        int_of(i) > 0,
        int_of(*p) > 1,
        count + power_in(int_of(i), int_of(*p)) <= usize::MAX,
    ensures
        int_of(r.0) == without(int_of(i), int_of(*p)),
        r.1 == count + power_in(int_of(i), int_of(*p)),
{
    let ghost start = int_of(i);
    let ghost q = int_of(*p);
    let ghost base = count;
    let mut i = i;
    let mut count = count;
    loop
        invariant
            int_of(i) > 0,
            q == int_of(*p),
            q > 1,
            without(int_of(i), q) == without(start, q),
            count + power_in(int_of(i), q) == base + power_in(start, q),
            base + power_in(start, q) <= usize::MAX,
        ensures
            int_of(i) == without(start, q),
            count == base + power_in(start, q),
        decreases int_of(i),
    {
        let rest = big_rem(&i, p);
        proof {
            lemma_euclidean_division(int_of(i), q);
        }
        if big_sign(&rest) != 0 {
            break ;
        }
        proof {
            lemma_quotient_is_smaller(int_of(i), q);
        }
        i = big_div(&i, p);
        count = count + 1;
    }
    (i, count)
}

/// Whether `i` is a product of twos and fives, with the number to scale a
/// numerator by and the number of decimal places that go with it.
///
/// The factors ten are taken out of `i` first, then the factors five, then
/// the factors two; each counts as one decimal place, and the scale doubles
/// for each factor five and for each factor two. A number that is zero or
/// less is no such product.
pub fn divides_a_power_of_10(i: BigInt) -> (r: (bool, BigInt, usize))
    requires
        int_of(i) > 0 ==> places_of(int_of(i)) <= usize::MAX,
    ensures
        int_of(i) <= 0 ==> !r.0 && int_of(r.1) == 1 && r.2 == 0,
        int_of(i) > 0 ==> {
            &&& r.0 == (beyond_ten(int_of(i)) == 1)
            &&& int_of(r.1) == scale_of(int_of(i))
            &&& r.2 == places_of(int_of(i))
        },
{
    let one = big_from_u128(1);
    if big_sign(&i) <= 0 {
        return (false, one, 0);
    }
    let ghost start = int_of(i);
    let two = big_from_u128(2);
    let five = big_from_u128(5);
    let ten = big_from_u128(10);
    proof {
        lemma_without_stays_positive(start, 10);
        lemma_without_stays_positive(without(start, 10), 5);
    }
    let (i, tens) = take_out(i, &ten, 0);
    let (i, fives) = take_out(i, &five, tens);
    let (i, places) = take_out(i, &two, fives);
    let doublings: usize = places - tens;
    let mut factor = big_from_u128(1);
    let mut k: usize = 0;
    proof {
        vstd::arithmetic::power::lemma_pow0(2);
    }
    while k < doublings
        invariant
            k <= doublings,
            int_of(two) == 2,
            int_of(factor) == pow(2, k as nat),
        decreases doublings - k,
    {
        proof {
            vstd::arithmetic::power::lemma_pow_adds(2, k as nat, 1);
            vstd::arithmetic::power::lemma_pow1(2);
        }
        factor = big_mul(&factor, &two);
        k += 1;
    }
    (big_order(&i, &one) == 0, factor, places)
}

/// Taking factors out of a positive number leaves a positive number.
proof fn lemma_without_stays_positive(i: int, p: int)
    requires
        i > 0,
    ensures
        without(i, p) > 0,
    decreases i,
{
    if p > 1 && i % p == 0 {
        lemma_quotient_is_smaller(i, p);
        lemma_without_stays_positive(i / p, p);
    }
}

/// `n` zeroes in a row.
pub open spec fn zeros(n: nat) -> Seq<char> {
    Seq::new(n, |i: int| '0')
}

/// The text for the rational with numerator `numer` and denominator
/// `denom`.
///
/// A whole number is written with `.0` after it. A rational whose
/// denominator is a product of twos and fives is written as a decimal
/// number: the digits of the numerator times [`scale_of`] the denominator,
/// with the point [`places_of`] the denominator digits from the right.
/// Every other rational is written as a quotient in brackets.
pub open spec fn rational_text(numer: int, denom: int) -> Seq<char> {
    if denom == 1 || numer == 0 {
        decimal_of(numer) + seq!['.', '0']
    } else if denom > 0 && beyond_ten(denom) == 1 {
        let scaled = numer * scale_of(denom);
        let sign = if scaled < 0 {
            seq!['-']
        } else {
            Seq::<char>::empty()
        };
        let digits = decimal_of(if scaled < 0 {
            -scaled
        } else {
            scaled
        });
        let places = places_of(denom);
        if places < digits.len() {
            sign + digits.take(digits.len() - places) + seq!['.'] + digits.skip(
                digits.len() - places,
            )
        } else {
            sign + seq!['0', '.'] + zeros((places - digits.len()) as nat) + digits
        }
    } else {
        seq!['('] + decimal_of(numer) + seq!['.', '0', ' ', '/', ' '] + decimal_of(denom) + seq![
            '.',
            '0',
            ')',
        ]
    }
}

/// The characters of a text.
fn chars_of(s: &String) -> (r: Vec<char>)
    ensures
        r@ == s@,
{
    let mut result: Vec<char> = Vec::new();
    let text = s.as_str();
    for c in it: text.chars()
        invariant
            it.seq() == text@,
            result@ == text@.take(it.index()),
            it.index() == it.seq().len() ==> result@ == text@,
    {
        result.push(c);
    }
    result
}

/// Adds the characters of `chars` from index `from` up to `to` to `out`.
fn push_chars(out: &mut String, chars: &Vec<char>, from: usize, to: usize)
    requires
        from <= to <= chars@.len(),
    ensures
        final(out)@ == old(out)@ + chars@.subrange(from as int, to as int),
{
    let ghost before = out@;
    let mut i: usize = from;
    while i < to
        invariant
            from <= i <= to <= chars@.len(),
            out@ == before + chars@.subrange(from as int, i as int),
        decreases to - i,
    {
        push_char(out, chars[i]);
        i += 1;
    }
}

/// The text for the rational `r`.
pub fn rational_to_string(r: &BigRational) -> (text: String)
    requires
        denom_of(*r) > 0 ==> places_of(denom_of(*r)) <= usize::MAX,
    ensures
        text@ == rational_text(numer_of(*r), denom_of(*r)),
{
    let numer = ratio_numer(r);
    let denom = ratio_denom(r);
    let one = big_from_u128(1);
    let mut out = String::new();
    if big_order(denom, &one) == 0 || big_sign(numer) == 0 {
        let digits = chars_of(&big_to_string(numer));
        push_chars(&mut out, &digits, 0, digits.len());
        push_char(&mut out, '.');
        push_char(&mut out, '0');
        return out;
    }
    let (divides, factor, places) = divides_a_power_of_10(big_clone(denom));
    if divides {
        let mut num = big_mul(numer, &factor);
        if big_sign(&num) < 0 {
            push_char(&mut out, '-');
            num = big_neg(&num);
        }
        let digits = chars_of(&big_to_string(&num));
        let length = digits.len();
        if places < length {
            let digit_count = length - places;
            push_chars(&mut out, &digits, 0, digit_count);
            push_char(&mut out, '.');
            push_chars(&mut out, &digits, digit_count, length);
        } else {
            let z = places - length;
            push_char(&mut out, '0');
            push_char(&mut out, '.');
            let ghost start = out@;
            let mut k: usize = 0;
            while k < z
                invariant
                    k <= z,
                    out@ == start + zeros(k as nat),
                decreases z - k,
            {
                push_char(&mut out, '0');
                k += 1;
            }
            push_chars(&mut out, &digits, 0, length);
        }
        out
    } else {
        push_char(&mut out, '(');
        let first = chars_of(&big_to_string(numer));
        push_chars(&mut out, &first, 0, first.len());
        push_char(&mut out, '.');
        push_char(&mut out, '0');
        push_char(&mut out, ' ');
        push_char(&mut out, '/');
        push_char(&mut out, ' ');
        let second = chars_of(&big_to_string(denom));
        push_chars(&mut out, &second, 0, second.len());
        push_char(&mut out, '.');
        push_char(&mut out, '0');
        push_char(&mut out, ')');
        out
    }
}

} // verus!
