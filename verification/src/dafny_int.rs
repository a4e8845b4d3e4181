//! Unbounded integers with value semantics.

use vstd::prelude::*;
use vstd::std_specs::cmp::PartialEqSpecImpl;
use vstd::std_specs::cmp::PartialOrdSpecImpl;
use vstd::std_specs::ops::AddSpecImpl;
use vstd::std_specs::ops::SubSpecImpl;
use vstd::std_specs::ops::MulSpecImpl;
use vstd::std_specs::ops::DivSpecImpl;
use vstd::std_specs::ops::RemSpecImpl;
use vstd::std_specs::ops::NegSpecImpl;
use vstd::std_specs::convert::FromSpecImpl;
use std::cmp::Ordering;
use std::ops::Add;
use std::ops::Sub;
use std::ops::Mul;
use std::ops::Div;
use std::ops::Rem;
use std::ops::Neg;
use std::rc::Rc;
use num::BigInt;
use crate::bigint::int_of;
use crate::dafny_type::NontrivialDefault;
use crate::bigint::parsed_bytes;
use crate::bigint::parsed_text;
use crate::bigint::trunc_div;
use crate::bigint::trunc_rem;
use crate::bigint::big_from_u128;
use crate::bigint::big_from_i128;
use crate::bigint::big_to_u128;
use crate::bigint::big_to_i128;
use crate::bigint::big_add;
use crate::bigint::big_sub;
use crate::bigint::big_mul;
use crate::bigint::big_div;
use crate::bigint::big_rem;
use crate::bigint::big_neg;
use crate::bigint::big_sign;
use crate::bigint::big_order;
use crate::bigint::big_parse_bytes;
use crate::bigint::big_from_str_radix;
use crate::bigint::big_to_string;
use crate::bigint::decimal_of;

verus! {

/// An integer of any size. Its view is the number it holds; two values are
/// equal, ordered and hashed by that number, whatever storage they share.
#[derive(Hash, Ord)]
pub struct DafnyInt {
    data: Rc<BigInt>,
}

impl View for DafnyInt {
    type V = int;

    closed spec fn view(&self) -> int {
        int_of(*self.data)
    }
}

/// The text given to a parser spelled no number in the given base.
#[derive(Clone, Copy, Debug, PartialEq, Eq, Structural)]
pub struct ParseDafnyIntError {}

impl Clone for DafnyInt {
    fn clone(&self) -> (r: Self)
        ensures
            r == *self,
    {
        DafnyInt { data: Rc::clone(&self.data) }
    }
}

impl DafnyInt {
    /// Wraps a shared big integer.
    pub fn new(data: Rc<BigInt>) -> (r: DafnyInt)
        ensures
            r@ == int_of(*data),
    {
        DafnyInt { data }
    }

    /// The big integer inside.
    pub fn as_ref(&self) -> (r: &BigInt)
        ensures
            int_of(*r) == self@,
    {
        &self.data
    }

    /// Zero.
    pub fn zero() -> (r: DafnyInt)
        ensures
            r@ == 0,
    {
        DafnyInt { data: Rc::new(big_from_u128(0)) }
    }

    /// One.
    pub fn one() -> (r: DafnyInt)
        ensures
            r@ == 1,
    {
        DafnyInt { data: Rc::new(big_from_u128(1)) }
    }

    /// The integer with the value of `usize`.
    pub fn from_usize(usize: usize) -> (r: DafnyInt)
        ensures
            r@ == usize,
    {
        DafnyInt { data: Rc::new(big_from_u128(usize as u128)) }
    }

    /// The integer with the value of `i`.
    pub fn from_i32(i: i32) -> (r: DafnyInt)
        ensures
            r@ == i,
    {
        DafnyInt { data: Rc::new(big_from_i128(i as i128)) }
    }

    /// Whether the number is zero.
    pub fn is_zero(&self) -> (r: bool)
        ensures
            r == (self@ == 0),
    {
        big_sign(&self.data) == 0
    }

    /// Whether the number is greater than zero.
    pub fn is_positive(&self) -> (r: bool)
        ensures
            r == (self@ > 0),
    {
        big_sign(&self.data) > 0
    }

    /// Whether the number is less than zero.
    pub fn is_negative(&self) -> (r: bool)
        ensures
            r == (self@ < 0),
    {
        big_sign(&self.data) < 0
    }

    /// The absolute value.
    pub fn abs(&self) -> (r: DafnyInt)
        ensures
            r@ == (if self@ < 0 { -self@ } else { self@ }),
    {
        if big_sign(&self.data) < 0 {
            DafnyInt { data: Rc::new(big_neg(&self.data)) }
        } else {
            self.clone()
        }
    }

    /// The positive difference: `self - other` where that is positive, else zero.
    pub fn abs_sub(&self, other: &DafnyInt) -> (r: DafnyInt)
        ensures
            r@ == (if self@ <= other@ { 0 } else { self@ - other@ }),
    {
        if big_order(&self.data, &other.data) <= 0 {
            DafnyInt::zero()
        } else {
            DafnyInt { data: Rc::new(big_sub(&self.data, &other.data)) }
        }
    }

    /// -1, 0 or 1, as the number is negative, zero or positive.
    pub fn signum(&self) -> (r: DafnyInt)
        ensures
            r@ == (if self@ < 0 { -1int } else if self@ == 0 { 0int } else { 1int }),
    {
        let s: i8 = big_sign(&self.data);
        DafnyInt { data: Rc::new(big_from_i128(s as i128)) }
    }

    /// Reads a number in base `radix` from text, as `num` reads it.
    pub fn from_str_radix(s: &str, radix: u32) -> (r: Result<DafnyInt, ParseDafnyIntError>)
        requires
            2 <= radix <= 36,
        ensures
            match r {
                Ok(n) => parsed_text(s@, radix) == Some(n@),
                Err(_) => parsed_text(s@, radix) is None,
            },
    {
        match big_from_str_radix(s, radix) {
            Ok(b) => Ok(DafnyInt { data: Rc::new(b) }),
            Err(_) => Err(ParseDafnyIntError {}),
        }
    }

    /// Reads a number in base `radix` from bytes that are known to spell one.
    pub fn parse_bytes(number: &[u8], radix: u32) -> (r: DafnyInt)
        requires
            2 <= radix <= 36,
            parsed_bytes(number@, radix) is Some,
        ensures
            Some(r@) == parsed_bytes(number@, radix),
    {
        match big_parse_bytes(number, radix) {
            Some(b) => DafnyInt { data: Rc::new(b) },
            None => DafnyInt::zero(),
        }
    }

    /// Reads a number in base `radix` from bytes; `None` where the base is
    /// outside 2..=36 or the bytes spell no number.
    pub fn parse_bytes_checked(number: &[u8], radix: u32) -> (r: Option<DafnyInt>)
        ensures
            r is Some <==> 2 <= radix <= 36 && parsed_bytes(number@, radix) is Some,
            r matches Some(n) ==> Some(n@) == parsed_bytes(number@, radix),
    {
        if radix < 2 || radix > 36 {
            return None;
        }
        match big_parse_bytes(number, radix) {
            Some(_) => Some(DafnyInt::parse_bytes(number, radix)),
            None => None,
        }
    }

    /// The number as a `u128`, or `None` where a `u128` cannot hold it.
    pub fn to_u128(&self) -> (r: Option<u128>)
        ensures
            r is Some <==> 0 <= self@ <= u128::MAX,
            r matches Some(n) ==> n == self@,
    {
        big_to_u128(&self.data)
    }

    /// The number as a `i128`, or `None` where a `i128` cannot hold it.
    pub fn to_i128(&self) -> (r: Option<i128>)
        ensures
            r is Some <==> i128::MIN <= self@ <= i128::MAX,
            r matches Some(n) ==> n == self@,
    {
        big_to_i128(&self.data)
    }

    /// The number as a `u64`, or `None` where a `u64` cannot hold it.
    pub fn to_u64(&self) -> (r: Option<u64>)
        ensures
            r is Some <==> 0 <= self@ <= u64::MAX,
            r matches Some(n) ==> n == self@,
    {
        match big_to_u128(&self.data) {
            Some(n) => if n <= u64::MAX as u128 { Some(n as u64) } else { None },
            None => None,
        }
    }

    /// The number as a `u32`, or `None` where a `u32` cannot hold it.
    pub fn to_u32(&self) -> (r: Option<u32>)
        ensures
            r is Some <==> 0 <= self@ <= u32::MAX,
            r matches Some(n) ==> n == self@,
    {
        match big_to_u128(&self.data) {
            Some(n) => if n <= u32::MAX as u128 { Some(n as u32) } else { None },
            None => None,
        }
    }

    /// The number as a `u16`, or `None` where a `u16` cannot hold it.
    pub fn to_u16(&self) -> (r: Option<u16>)
        ensures
            r is Some <==> 0 <= self@ <= u16::MAX,
            r matches Some(n) ==> n == self@,
    {
        match big_to_u128(&self.data) {
            Some(n) => if n <= u16::MAX as u128 { Some(n as u16) } else { None },
            None => None,
        }
    }

    /// The number as a `u8`, or `None` where a `u8` cannot hold it.
    pub fn to_u8(&self) -> (r: Option<u8>)
        ensures
            r is Some <==> 0 <= self@ <= u8::MAX,
            r matches Some(n) ==> n == self@,
    {
        match big_to_u128(&self.data) {
            Some(n) => if n <= u8::MAX as u128 { Some(n as u8) } else { None },
            None => None,
        }
    }

    /// The number as a `usize`, or `None` where a `usize` cannot hold it.
    pub fn to_usize(&self) -> (r: Option<usize>)
        ensures
            r is Some <==> 0 <= self@ <= usize::MAX,
            r matches Some(n) ==> n == self@,
    {
        match big_to_u128(&self.data) {
            Some(n) => if n <= usize::MAX as u128 { Some(n as usize) } else { None },
            None => None,
        }
    }

    /// The number as a `i64`, or `None` where a `i64` cannot hold it.
    pub fn to_i64(&self) -> (r: Option<i64>)
        ensures
            r is Some <==> i64::MIN <= self@ <= i64::MAX,
            r matches Some(n) ==> n == self@,
    {
        match big_to_i128(&self.data) {
            Some(n) => if i64::MIN as i128 <= n && n <= i64::MAX as i128 {
                Some(n as i64)
            } else {
                None
            },
            None => None,
        }
    }

    /// The number as a `i32`, or `None` where a `i32` cannot hold it.
    pub fn to_i32(&self) -> (r: Option<i32>)
        ensures
            r is Some <==> i32::MIN <= self@ <= i32::MAX,
            r matches Some(n) ==> n == self@,
    {
        match big_to_i128(&self.data) {
            Some(n) => if i32::MIN as i128 <= n && n <= i32::MAX as i128 {
                Some(n as i32)
            } else {
                None
            },
            None => None,
        }
    }

    /// The number as a `i16`, or `None` where a `i16` cannot hold it.
    pub fn to_i16(&self) -> (r: Option<i16>)
        ensures
            r is Some <==> i16::MIN <= self@ <= i16::MAX,
            r matches Some(n) ==> n == self@,
    {
        match big_to_i128(&self.data) {
            Some(n) => if i16::MIN as i128 <= n && n <= i16::MAX as i128 {
                Some(n as i16)
            } else {
                None
            },
            None => None,
        }
    }

    /// The number as a `i8`, or `None` where a `i8` cannot hold it.
    pub fn to_i8(&self) -> (r: Option<i8>)
        ensures
            r is Some <==> i8::MIN <= self@ <= i8::MAX,
            r matches Some(n) ==> n == self@,
    {
        match big_to_i128(&self.data) {
            Some(n) => if i8::MIN as i128 <= n && n <= i8::MAX as i128 {
                Some(n as i8)
            } else {
                None
            },
            None => None,
        }
    }

    /// The number in decimal digits.
    pub fn to_string(&self) -> (r: String)
        ensures
            r@ == decimal_of(self@),
    {
        big_to_string(&self.data)
    }

    /// The number as a `usize`, for a caller that knows it fits.
    pub fn as_usize(&self) -> (r: usize)
        requires
            0 <= self@ <= usize::MAX,
        ensures
            r == self@,
    {
        match self.to_usize() {
            Some(n) => n,
            None => 0,
        }
    }

    /// The number as a `u8`, for a caller that knows it fits.
    pub fn as_u8(&self) -> (r: u8)
        requires
            0 <= self@ <= u8::MAX,
        ensures
            r == self@,
    {
        match self.to_u8() {
            Some(n) => n,
            None => 0,
        }
    }

    /// The number as a `u16`, for a caller that knows it fits.
    pub fn as_u16(&self) -> (r: u16)
        requires
            0 <= self@ <= u16::MAX,
        ensures
            r == self@,
    {
        match self.to_u16() {
            Some(n) => n,
            None => 0,
        }
    }

    /// The number as a `u32`, for a caller that knows it fits.
    pub fn as_u32(&self) -> (r: u32)
        requires
            0 <= self@ <= u32::MAX,
        ensures
            r == self@,
    {
        match self.to_u32() {
            Some(n) => n,
            None => 0,
        }
    }

    /// The number as a `u64`, for a caller that knows it fits.
    pub fn as_u64(&self) -> (r: u64)
        requires
            0 <= self@ <= u64::MAX,
        ensures
            r == self@,
    {
        match self.to_u64() {
            Some(n) => n,
            None => 0,
        }
    }

    /// The number as a `u128`, for a caller that knows it fits.
    pub fn as_u128(&self) -> (r: u128)
        requires
            0 <= self@ <= u128::MAX,
        ensures
            r == self@,
    {
        match self.to_u128() {
            Some(n) => n,
            None => 0,
        }
    }

    /// The number as a `i8`, for a caller that knows it fits.
    pub fn as_i8(&self) -> (r: i8)
        requires
            i8::MIN <= self@ <= i8::MAX,
        ensures
            r == self@,
    {
        match self.to_i8() {
            Some(n) => n,
            None => 0,
        }
    }

    /// The number as a `i16`, for a caller that knows it fits.
    pub fn as_i16(&self) -> (r: i16)
        requires
            i16::MIN <= self@ <= i16::MAX,
        ensures
            r == self@,
    {
        match self.to_i16() {
            Some(n) => n,
            None => 0,
        }
    }

    /// The number as a `i32`, for a caller that knows it fits.
    pub fn as_i32(&self) -> (r: i32)
        requires
            i32::MIN <= self@ <= i32::MAX,
        ensures
            r == self@,
    {
        match self.to_i32() {
            Some(n) => n,
            None => 0,
        }
    }

    /// The number as a `i64`, for a caller that knows it fits.
    pub fn as_i64(&self) -> (r: i64)
        requires
            i64::MIN <= self@ <= i64::MAX,
        ensures
            r == self@,
    {
        match self.to_i64() {
            Some(n) => n,
            None => 0,
        }
    }

    /// The number as a `i128`, for a caller that knows it fits.
    pub fn as_i128(&self) -> (r: i128)
        requires
            i128::MIN <= self@ <= i128::MAX,
        ensures
            r == self@,
    {
        match self.to_i128() {
            Some(n) => n,
            None => 0,
        }
    }
}

impl Default for DafnyInt {
    fn default() -> (r: DafnyInt)
        ensures
            r@ == 0,
    {
        DafnyInt::zero()
    }
}

impl NontrivialDefault for DafnyInt {
    fn nontrivial_default() -> (r: DafnyInt)
        ensures
            r@ == 0,
    {
        DafnyInt::zero()
    }
}

impl From<u8> for DafnyInt {
    fn from(n: u8) -> (r: DafnyInt)
        ensures
            r@ == n,
    {
        DafnyInt { data: Rc::new(big_from_u128(n as u128)) }
    }
}

impl FromSpecImpl<u8> for DafnyInt {
    open spec fn obeys_from_spec() -> bool {
        false
    }

    open spec fn from_spec(n: u8) -> DafnyInt {
        arbitrary()
    }
}

impl From<u16> for DafnyInt {
    fn from(n: u16) -> (r: DafnyInt)
        ensures
            r@ == n,
    {
        DafnyInt { data: Rc::new(big_from_u128(n as u128)) }
    }
}

impl FromSpecImpl<u16> for DafnyInt {
    open spec fn obeys_from_spec() -> bool {
        false
    }

    open spec fn from_spec(n: u16) -> DafnyInt {
        arbitrary()
    }
}

impl From<u32> for DafnyInt {
    fn from(n: u32) -> (r: DafnyInt)
        ensures
            r@ == n,
    {
        DafnyInt { data: Rc::new(big_from_u128(n as u128)) }
    }
}

impl FromSpecImpl<u32> for DafnyInt {
    open spec fn obeys_from_spec() -> bool {
        false
    }

    open spec fn from_spec(n: u32) -> DafnyInt {
        arbitrary()
    }
}

impl From<u64> for DafnyInt {
    fn from(n: u64) -> (r: DafnyInt)
        ensures
            r@ == n,
    {
        DafnyInt { data: Rc::new(big_from_u128(n as u128)) }
    }
}

impl FromSpecImpl<u64> for DafnyInt {
    open spec fn obeys_from_spec() -> bool {
        false
    }

    open spec fn from_spec(n: u64) -> DafnyInt {
        arbitrary()
    }
}

impl From<u128> for DafnyInt {
    fn from(n: u128) -> (r: DafnyInt)
        ensures
            r@ == n,
    {
        DafnyInt { data: Rc::new(big_from_u128(n as u128)) }
    }
}

impl FromSpecImpl<u128> for DafnyInt {
    open spec fn obeys_from_spec() -> bool {
        false
    }

    open spec fn from_spec(n: u128) -> DafnyInt {
        arbitrary()
    }
}

impl From<usize> for DafnyInt {
    fn from(n: usize) -> (r: DafnyInt)
        ensures
            r@ == n,
    {
        DafnyInt { data: Rc::new(big_from_u128(n as u128)) }
    }
}

impl FromSpecImpl<usize> for DafnyInt {
    open spec fn obeys_from_spec() -> bool {
        false
    }

    open spec fn from_spec(n: usize) -> DafnyInt {
        arbitrary()
    }
}

impl From<i8> for DafnyInt {
    fn from(n: i8) -> (r: DafnyInt)
        ensures
            r@ == n,
    {
        DafnyInt { data: Rc::new(big_from_i128(n as i128)) }
    }
}

impl FromSpecImpl<i8> for DafnyInt {
    open spec fn obeys_from_spec() -> bool {
        false
    }

    open spec fn from_spec(n: i8) -> DafnyInt {
        arbitrary()
    }
}

impl From<i16> for DafnyInt {
    fn from(n: i16) -> (r: DafnyInt)
        ensures
            r@ == n,
    {
        DafnyInt { data: Rc::new(big_from_i128(n as i128)) }
    }
}

impl FromSpecImpl<i16> for DafnyInt {
    open spec fn obeys_from_spec() -> bool {
        false
    }

    open spec fn from_spec(n: i16) -> DafnyInt {
        arbitrary()
    }
}

impl From<i32> for DafnyInt {
    fn from(n: i32) -> (r: DafnyInt)
        ensures
            r@ == n,
    {
        DafnyInt { data: Rc::new(big_from_i128(n as i128)) }
    }
}

impl FromSpecImpl<i32> for DafnyInt {
    open spec fn obeys_from_spec() -> bool {
        false
    }

    open spec fn from_spec(n: i32) -> DafnyInt {
        arbitrary()
    }
}

impl From<i64> for DafnyInt {
    fn from(n: i64) -> (r: DafnyInt)
        ensures
            r@ == n,
    {
        DafnyInt { data: Rc::new(big_from_i128(n as i128)) }
    }
}

impl FromSpecImpl<i64> for DafnyInt {
    open spec fn obeys_from_spec() -> bool {
        false
    }

    open spec fn from_spec(n: i64) -> DafnyInt {
        arbitrary()
    }
}

impl From<i128> for DafnyInt {
    fn from(n: i128) -> (r: DafnyInt)
        ensures
            r@ == n,
    {
        DafnyInt { data: Rc::new(big_from_i128(n as i128)) }
    }
}

impl FromSpecImpl<i128> for DafnyInt {
    open spec fn obeys_from_spec() -> bool {
        false
    }

    open spec fn from_spec(n: i128) -> DafnyInt {
        arbitrary()
    }
}

impl PartialEq for DafnyInt {
    fn eq(&self, other: &DafnyInt) -> (r: bool) {
        big_order(&self.data, &other.data) == 0
    }
}

impl PartialEqSpecImpl for DafnyInt {
    open spec fn obeys_eq_spec() -> bool {
        true
    }

    open spec fn eq_spec(&self, other: &DafnyInt) -> bool {
        self@ == other@
    }
}

impl Eq for DafnyInt {}

impl PartialOrd for DafnyInt {
    fn partial_cmp(&self, other: &DafnyInt) -> (r: Option<Ordering>) {
        let c: i8 = big_order(&self.data, &other.data);
        if c < 0 {
            Some(Ordering::Less)
        } else if c == 0 {
            Some(Ordering::Equal)
        } else {
            Some(Ordering::Greater)
        }
    }
}

impl PartialOrdSpecImpl for DafnyInt {
    open spec fn obeys_partial_cmp_spec() -> bool {
        true
    }

    open spec fn partial_cmp_spec(&self, other: &DafnyInt) -> Option<Ordering> {
        if self@ < other@ {
            Some(Ordering::Less)
        } else if self@ == other@ {
            Some(Ordering::Equal)
        } else {
            Some(Ordering::Greater)
        }
    }
}

impl Add<DafnyInt> for DafnyInt {
    type Output = DafnyInt;

    fn add(self, rhs: DafnyInt) -> (r: DafnyInt)
        ensures
            r@ == self@ + rhs@,
    {
        DafnyInt { data: Rc::new(big_add(&self.data, &rhs.data)) }
    }
}

impl AddSpecImpl<DafnyInt> for DafnyInt {
    open spec fn obeys_add_spec() -> bool {
        false
    }

    open spec fn add_req(self, rhs: DafnyInt) -> bool {
        true
    }

    open spec fn add_spec(self, rhs: DafnyInt) -> DafnyInt {
        arbitrary()
    }
}

impl Sub<DafnyInt> for DafnyInt {
    type Output = DafnyInt;

    fn sub(self, rhs: DafnyInt) -> (r: DafnyInt)
        ensures
            r@ == self@ - rhs@,
    {
        DafnyInt { data: Rc::new(big_sub(&self.data, &rhs.data)) }
    }
}

impl SubSpecImpl<DafnyInt> for DafnyInt {
    open spec fn obeys_sub_spec() -> bool {
        false
    }

    open spec fn sub_req(self, rhs: DafnyInt) -> bool {
        true
    }

    open spec fn sub_spec(self, rhs: DafnyInt) -> DafnyInt {
        arbitrary()
    }
}

impl Mul<DafnyInt> for DafnyInt {
    type Output = DafnyInt;

    fn mul(self, rhs: DafnyInt) -> (r: DafnyInt)
        ensures
            r@ == self@ * rhs@,
    {
        DafnyInt { data: Rc::new(big_mul(&self.data, &rhs.data)) }
    }
}

impl MulSpecImpl<DafnyInt> for DafnyInt {
    open spec fn obeys_mul_spec() -> bool {
        false
    }

    open spec fn mul_req(self, rhs: DafnyInt) -> bool {
        true
    }

    open spec fn mul_spec(self, rhs: DafnyInt) -> DafnyInt {
        arbitrary()
    }
}

/// `/` rounds toward zero; the divisor must not be zero.
impl Div<DafnyInt> for DafnyInt {
    type Output = DafnyInt;

    fn div(self, rhs: DafnyInt) -> (r: DafnyInt)
        ensures
            r@ == trunc_div(self@, rhs@),
    {
        DafnyInt { data: Rc::new(big_div(&self.data, &rhs.data)) }
    }
}

impl DivSpecImpl<DafnyInt> for DafnyInt {
    open spec fn obeys_div_spec() -> bool {
        false
    }

    open spec fn div_req(self, rhs: DafnyInt) -> bool {
        rhs@ != 0
    }

    open spec fn div_spec(self, rhs: DafnyInt) -> DafnyInt {
        arbitrary()
    }
}

/// `%` is the remainder of `/`; the divisor must not be zero.
impl Rem<DafnyInt> for DafnyInt {
    type Output = DafnyInt;

    fn rem(self, rhs: DafnyInt) -> (r: DafnyInt)
        ensures
            r@ == trunc_rem(self@, rhs@),
    {
        DafnyInt { data: Rc::new(big_rem(&self.data, &rhs.data)) }
    }
}

impl RemSpecImpl<DafnyInt> for DafnyInt {
    open spec fn obeys_rem_spec() -> bool {
        false
    }

    open spec fn rem_req(self, rhs: DafnyInt) -> bool {
        rhs@ != 0
    }

    open spec fn rem_spec(self, rhs: DafnyInt) -> DafnyInt {
        arbitrary()
    }
}

impl Neg for DafnyInt {
    type Output = DafnyInt;

    fn neg(self) -> (r: DafnyInt)
        ensures
            r@ == -self@,
    {
        DafnyInt { data: Rc::new(big_neg(&self.data)) }
    }
}

impl NegSpecImpl for DafnyInt {
    open spec fn obeys_neg_spec() -> bool {
        false
    }

    open spec fn neg_req(self) -> bool {
        true
    }

    open spec fn neg_spec(self) -> DafnyInt {
        arbitrary()
    }
}

} // verus!
