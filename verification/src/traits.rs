//! Exact integer arithmetic for distances and sums.
//!
//! Every operation either returns the mathematically exact result or reports
//! that the result does not fit the type, so a bound computed with these
//! operations can never understate the quantity it bounds.
use crate::error::{fails_with, Error, ErrorVariant, Fallible};
use vstd::prelude::*;

verus! {

/// The absolute value of `v`.
pub open spec fn abs_int(v: int) -> int {
    if v < 0 {
        -v
    } else {
        v
    }
}

/// The quotient of `a` by `b` rounded up to an integer, for `b` other than
/// zero: where the signs differ the magnitudes are divided and the fraction
/// dropped, and else the quotient of the magnitudes is raised by one when
/// the division leaves a remainder.
pub open spec fn ceil_div(a: int, b: int) -> int {
    if (a < 0) != (b < 0) {
        -(abs_int(a) / abs_int(b))
    } else if abs_int(a) % abs_int(b) != 0 {
        abs_int(a) / abs_int(b) + 1
    } else {
        abs_int(a) / abs_int(b)
    }
}

/// For a positive divisor, `ceil_div` is the least integer that, multiplied
/// by the divisor, reaches the dividend.
pub proof fn lemma_ceil_div(a: int, b: int)
    requires
        b > 0,
    ensures
        ceil_div(a, b) * b >= a,
        (ceil_div(a, b) - 1) * b < a,
{
    let m = abs_int(a);
    vstd::arithmetic::div_mod::lemma_fundamental_div_mod(m, b);
    vstd::arithmetic::div_mod::lemma_mod_bound(m, b);
    let q = m / b;
    let r = m % b;
    assert(m == b * q + r);
    if a < 0 {
        assert(ceil_div(a, b) == -q);
        assert((-q) * b == -(b * q)) by (nonlinear_arith);
        assert((-q - 1) * b == -(b * q) - b) by (nonlinear_arith);
    } else if r != 0 {
        assert((q + 1) * b == b * q + b) by (nonlinear_arith);
        assert(q * b == b * q) by (nonlinear_arith);
    } else {
        assert(q * b == b * q) by (nonlinear_arith);
        assert((q - 1) * b == b * q - b) by (nonlinear_arith);
    }
}

/// `v` brought into the closed range from `lo` to `hi`.
pub open spec fn clamp_int(v: int, lo: int, hi: int) -> int {
    if v < lo {
        lo
    } else if v > hi {
        hi
    } else {
        v
    }
}

/// A fixed-width integer type, seen through the mathematical integer it stands for.
///
/// The signed and unsigned integers of 8, 16, 32 and 64 bits and of the
/// width of a pointer are numbers. Those of 128 bits are not: every
/// operation here works out the exact result in `i128` and then asks whether
/// the type holds it, which needs a type whose sums, differences, negations
/// and casts all fit a strictly wider one. `u128` reaches beyond `i128`, and
/// the negation of the least `i128` does not fit it.
pub trait Number: Copy + Sized {
    /// The integer that `self` stands for.
    spec fn value(self) -> int;

    /// The least integer the type can hold.
    spec fn lowest() -> int;

    /// The greatest integer the type can hold.
    spec fn highest() -> int;

    /// The member of the type that stands for `v`, for `v` in range.
    spec fn from_value(v: int) -> Self;

    /// The type is a window of the 128-bit integers that holds at least the
    /// integers from zero to 127, and `value`
    /// and `from_value` are inverse to each other on it.
    proof fn lemma_number(x: Self, v: int)
        ensures
            i128::MIN < Self::lowest() <= 0 < 127 <= Self::highest() <= i128::MAX,
            Self::lowest() <= x.value() <= Self::highest(),
            Self::from_value(x.value()) == x,
            Self::lowest() <= v <= Self::highest() ==> Self::from_value(v).value() == v,
    ;

    fn to_wide(self) -> (w: i128)
        ensures
            w == self.value(),
    ;

    fn from_wide(w: i128) -> (r: Option<Self>)
        ensures
            r == (if Self::lowest() <= w <= Self::highest() {
                Some(Self::from_value(w as int))
            } else {
                None
            }),
    ;

    fn zero() -> (r: Self)
        ensures
            r.value() == 0,
    ;

    fn total_le(&self, other: &Self) -> (b: bool)
        ensures
            b == (self.value() <= other.value()),
    {
        self.to_wide() <= other.to_wide()
    }

    fn total_lt(&self, other: &Self) -> (b: bool)
        ensures
            b == (self.value() < other.value()),
    {
        self.to_wide() < other.to_wide()
    }

    /// Sum; fails with `FailedFunction` exactly when it does not fit.
    fn inf_add(&self, rhs: &Self) -> (r: Fallible<Self>)
        ensures
            Self::lowest() <= self.value() + rhs.value() <= Self::highest() ==> (r matches Ok(x) && x.value() == self.value() + rhs.value()),
            !(Self::lowest() <= self.value() + rhs.value() <= Self::highest()) ==> fails_with(r, ErrorVariant::FailedFunction),
    {
        proof {
            Self::lemma_number(*self, self.value() + rhs.value());
            Self::lemma_number(*rhs, 0);
        }
        let wide = self.to_wide().checked_add(rhs.to_wide());
        match wide {
            Some(w) => match Self::from_wide(w) {
                Some(x) => Ok(x),
                None => Err(Error::with_message(ErrorVariant::FailedFunction, "addition overflows")),
            },
            None => Err(Error::with_message(ErrorVariant::FailedFunction, "addition overflows")),
        }
    }

    /// Difference; fails with `FailedFunction` exactly when it does not fit.
    fn inf_sub(&self, rhs: &Self) -> (r: Fallible<Self>)
        ensures
            Self::lowest() <= self.value() - rhs.value() <= Self::highest() ==> (r matches Ok(x) && x.value() == self.value() - rhs.value()),
            !(Self::lowest() <= self.value() - rhs.value() <= Self::highest()) ==> fails_with(r, ErrorVariant::FailedFunction),
    {
        proof {
            Self::lemma_number(*self, self.value() - rhs.value());
            Self::lemma_number(*rhs, 0);
        }
        let wide = self.to_wide().checked_sub(rhs.to_wide());
        match wide {
            Some(w) => match Self::from_wide(w) {
                Some(x) => Ok(x),
                None => Err(Error::with_message(ErrorVariant::FailedFunction, "subtraction overflows")),
            },
            None => Err(Error::with_message(ErrorVariant::FailedFunction, "subtraction overflows")),
        }
    }

    /// Product; fails with `FailedFunction` exactly when it does not fit.
    fn inf_mul(&self, rhs: &Self) -> (r: Fallible<Self>)
        ensures
            Self::lowest() <= self.value() * rhs.value() <= Self::highest() ==> (r matches Ok(x) && x.value() == self.value() * rhs.value()),
            !(Self::lowest() <= self.value() * rhs.value() <= Self::highest()) ==> fails_with(r, ErrorVariant::FailedFunction),
    {
        proof {
            Self::lemma_number(*self, self.value() * rhs.value());
            Self::lemma_number(*rhs, 0);
        }
        let wide = self.to_wide().checked_mul(rhs.to_wide());
        match wide {
            Some(w) => match Self::from_wide(w) {
                Some(x) => Ok(x),
                None => Err(Error::with_message(ErrorVariant::FailedFunction, "multiplication overflows")),
            },
            None => Err(Error::with_message(ErrorVariant::FailedFunction, "multiplication overflows")),
        }
    }

    /// Quotient, rounded up so that a bound computed with it never falls
    /// short; fails with `FailedFunction` exactly when the divisor is zero or
    /// the quotient does not fit.
    fn inf_div(&self, rhs: &Self) -> (r: Fallible<Self>)
        ensures
            rhs.value() != 0 && Self::lowest() <= ceil_div(self.value(), rhs.value()) <= Self::highest() ==> (r matches Ok(
                x,
            ) && x.value() == ceil_div(self.value(), rhs.value())),
            !(rhs.value() != 0 && Self::lowest() <= ceil_div(self.value(), rhs.value()) <= Self::highest())
                ==> fails_with(r, ErrorVariant::FailedFunction),
    {
        proof {
            Self::lemma_number(*self, ceil_div(self.value(), rhs.value()));
            Self::lemma_number(*rhs, 0);
        }
        let a = self.to_wide();
        let b = rhs.to_wide();
        if b == 0 {
            return Err(Error::with_message(ErrorVariant::FailedFunction, "division by zero"));
        }
        let ma: u128 = if a < 0 {
            (-a) as u128
        } else {
            a as u128
        };
        let mb: u128 = if b < 0 {
            (-b) as u128
        } else {
            b as u128
        };
        let q = ma / mb;
        let rem = ma % mb;
        proof {
            vstd::arithmetic::div_mod::lemma_fundamental_div_mod(ma as int, mb as int);
            vstd::arithmetic::div_mod::lemma_mod_bound(ma as int, mb as int);
            assert(q * mb <= ma) by (nonlinear_arith)
                requires
                    ma == mb * q + rem,
                    rem >= 0,
            ;
            assert(q <= ma) by (nonlinear_arith)
                requires
                    q * mb <= ma,
                    mb >= 1,
                    q >= 0,
            ;
            if rem != 0 {
                assert(q + 1 <= ma) by (nonlinear_arith)
                    requires
                        ma == mb * q + rem,
                        rem >= 1,
                        mb >= 1,
                        q >= 0,
                ;
            }
        }
        let wide: i128 = if (a < 0) != (b < 0) {
            -(q as i128)
        } else if rem != 0 {
            (q + 1) as i128
        } else {
            q as i128
        };
        match Self::from_wide(wide) {
            Some(x) => Ok(x),
            None => Err(Error::with_message(ErrorVariant::FailedFunction, "division overflows")),
        }
    }

    /// Absolute value; fails with `FailedFunction` exactly when it does not fit.
    fn alerting_abs(&self) -> (r: Fallible<Self>)
        ensures
            Self::lowest() <= abs_int(self.value()) <= Self::highest() ==> (r matches Ok(x) && x.value() == abs_int(self.value())),
            !(Self::lowest() <= abs_int(self.value()) <= Self::highest()) ==> fails_with(r, ErrorVariant::FailedFunction),
    {
        proof {
            Self::lemma_number(*self, abs_int(self.value()));
        }
        let w = self.to_wide();
        if w >= 0 {
            Ok(*self)
        } else {
            match 0i128.checked_sub(w) {
                Some(n) => match Self::from_wide(n) {
                    Some(x) => Ok(x),
                    None => Err(Error::with_message(ErrorVariant::FailedFunction, "the absolute value overflows")),
                },
                None => Err(Error::with_message(ErrorVariant::FailedFunction, "the absolute value overflows")),
            }
        }
    }

    /// The greater of two values; it never fails on integers.
    fn total_max(self, other: Self) -> (r: Fallible<Self>)
        ensures
            r matches Ok(x) && x == (if self.value() < other.value() { other } else { self }),
    {
        if self.to_wide() < other.to_wide() {
            Ok(other)
        } else {
            Ok(self)
        }
    }

    /// Sum that stops at the ends of the type's range instead of overflowing.
    fn saturating_add(&self, rhs: &Self) -> (r: Self)
        ensures
            r.value() == clamp_int(self.value() + rhs.value(), Self::lowest(), Self::highest()),
    {
        proof {
            Self::lemma_number(*self, self.value() + rhs.value());
            Self::lemma_number(*rhs, 0);
        }
        let a = self.to_wide();
        let b = rhs.to_wide();
        match a.checked_add(b) {
            Some(w) => match Self::from_wide(w) {
                Some(x) => x,
                None => if b > 0 {
                    Self::greatest()
                } else {
                    Self::least()
                },
            },
            None => if b > 0 {
                Self::greatest()
            } else {
                Self::least()
            },
        }
    }

    fn least() -> (r: Self)
        ensures
            r.value() == Self::lowest(),
    ;

    fn greatest() -> (r: Self)
        ensures
            r.value() == Self::highest(),
    ;
}

/// `r` is the exact value `v` when `v` fits in `T`, and an error of kind `otherwise` when it does not.
pub open spec fn exact_or<T: Number>(r: Fallible<T>, v: int, otherwise: ErrorVariant) -> bool {
    if T::lowest() <= v <= T::highest() {
        r matches Ok(x) && x.value() == v
    } else {
        fails_with(r, otherwise)
    }
}

/// `r` is the exact value `v` when `v` fits in `T`, and a `FailedCast` error when it does not.
pub open spec fn exact_cast<T: Number>(r: Fallible<T>, v: int) -> bool {
    exact_or(r, v, ErrorVariant::FailedCast)
}

/// Conversion between integer types; fails with `FailedCast` exactly when the value does not fit.
pub fn inf_cast<A: Number, B: Number>(v: A) -> (r: Fallible<B>)
    ensures
        exact_cast(r, v.value()),
{
    proof {
        B::lemma_number(B::from_value(0), v.value());
    }
    match B::from_wide(v.to_wide()) {
        Some(x) => Ok(x),
        None => Err(Error::with_message(ErrorVariant::FailedCast, "value does not fit the target type")),
    }
}

impl Number for i8 {
    open spec fn value(self) -> int {
        self as int
    }

    open spec fn lowest() -> int {
        i8::MIN as int
    }

    open spec fn highest() -> int {
        i8::MAX as int
    }

    open spec fn from_value(v: int) -> i8 {
        v as i8
    }

    proof fn lemma_number(x: i8, v: int) {
        assert(Self::from_value(x as int) == x);
        assert(Self::lowest() <= v <= Self::highest() ==> (v as i8) as int == v);
    }

    fn zero() -> (r: i8) {
        0
    }

    fn to_wide(self) -> (w: i128) {
        self as i128
    }

    fn from_wide(w: i128) -> (r: Option<i8>) {
        if i8::MIN as i128 <= w && w <= i8::MAX as i128 {
            Some(w as i8)
        } else {
            None
        }
    }

    fn least() -> (r: i8) {
        i8::MIN
    }

    fn greatest() -> (r: i8) {
        i8::MAX
    }
}

impl Number for i16 {
    open spec fn value(self) -> int {
        self as int
    }

    open spec fn lowest() -> int {
        i16::MIN as int
    }

    open spec fn highest() -> int {
        i16::MAX as int
    }

    open spec fn from_value(v: int) -> i16 {
        v as i16
    }

    proof fn lemma_number(x: i16, v: int) {
        assert(Self::from_value(x as int) == x);
        assert(Self::lowest() <= v <= Self::highest() ==> (v as i16) as int == v);
    }

    fn zero() -> (r: i16) {
        0
    }

    fn to_wide(self) -> (w: i128) {
        self as i128
    }

    fn from_wide(w: i128) -> (r: Option<i16>) {
        if i16::MIN as i128 <= w && w <= i16::MAX as i128 {
            Some(w as i16)
        } else {
            None
        }
    }

    fn least() -> (r: i16) {
        i16::MIN
    }

    fn greatest() -> (r: i16) {
        i16::MAX
    }
}

impl Number for i32 {
    open spec fn value(self) -> int {
        self as int
    }

    open spec fn lowest() -> int {
        i32::MIN as int
    }

    open spec fn highest() -> int {
        i32::MAX as int
    }

    open spec fn from_value(v: int) -> i32 {
        v as i32
    }

    proof fn lemma_number(x: i32, v: int) {
        assert(Self::from_value(x as int) == x);
        assert(Self::lowest() <= v <= Self::highest() ==> (v as i32) as int == v);
    }

    fn zero() -> (r: i32) {
        0
    }

    fn to_wide(self) -> (w: i128) {
        self as i128
    }

    fn from_wide(w: i128) -> (r: Option<i32>) {
        if i32::MIN as i128 <= w && w <= i32::MAX as i128 {
            Some(w as i32)
        } else {
            None
        }
    }

    fn least() -> (r: i32) {
        i32::MIN
    }

    fn greatest() -> (r: i32) {
        i32::MAX
    }
}

impl Number for i64 {
    open spec fn value(self) -> int {
        self as int
    }

    open spec fn lowest() -> int {
        i64::MIN as int
    }

    open spec fn highest() -> int {
        i64::MAX as int
    }

    open spec fn from_value(v: int) -> i64 {
        v as i64
    }

    proof fn lemma_number(x: i64, v: int) {
        assert(Self::from_value(x as int) == x);
        assert(Self::lowest() <= v <= Self::highest() ==> (v as i64) as int == v);
    }

    fn zero() -> (r: i64) {
        0
    }

    fn to_wide(self) -> (w: i128) {
        self as i128
    }

    fn from_wide(w: i128) -> (r: Option<i64>) {
        if i64::MIN as i128 <= w && w <= i64::MAX as i128 {
            Some(w as i64)
        } else {
            None
        }
    }

    fn least() -> (r: i64) {
        i64::MIN
    }

    fn greatest() -> (r: i64) {
        i64::MAX
    }
}

impl Number for u8 {
    open spec fn value(self) -> int {
        self as int
    }

    open spec fn lowest() -> int {
        u8::MIN as int
    }

    open spec fn highest() -> int {
        u8::MAX as int
    }

    open spec fn from_value(v: int) -> u8 {
        v as u8
    }

    proof fn lemma_number(x: u8, v: int) {
        assert(Self::from_value(x as int) == x);
        assert(Self::lowest() <= v <= Self::highest() ==> (v as u8) as int == v);
    }

    fn zero() -> (r: u8) {
        0
    }

    fn to_wide(self) -> (w: i128) {
        self as i128
    }

    fn from_wide(w: i128) -> (r: Option<u8>) {
        if u8::MIN as i128 <= w && w <= u8::MAX as i128 {
            Some(w as u8)
        } else {
            None
        }
    }

    fn least() -> (r: u8) {
        u8::MIN
    }

    fn greatest() -> (r: u8) {
        u8::MAX
    }
}

impl Number for u16 {
    open spec fn value(self) -> int {
        self as int
    }

    open spec fn lowest() -> int {
        u16::MIN as int
    }

    open spec fn highest() -> int {
        u16::MAX as int
    }

    open spec fn from_value(v: int) -> u16 {
        v as u16
    }

    proof fn lemma_number(x: u16, v: int) {
        assert(Self::from_value(x as int) == x);
        assert(Self::lowest() <= v <= Self::highest() ==> (v as u16) as int == v);
    }

    fn zero() -> (r: u16) {
        0
    }

    fn to_wide(self) -> (w: i128) {
        self as i128
    }

    fn from_wide(w: i128) -> (r: Option<u16>) {
        if u16::MIN as i128 <= w && w <= u16::MAX as i128 {
            Some(w as u16)
        } else {
            None
        }
    }

    fn least() -> (r: u16) {
        u16::MIN
    }

    fn greatest() -> (r: u16) {
        u16::MAX
    }
}

impl Number for u32 {
    open spec fn value(self) -> int {
        self as int
    }

    open spec fn lowest() -> int {
        u32::MIN as int
    }

    open spec fn highest() -> int {
        u32::MAX as int
    }

    open spec fn from_value(v: int) -> u32 {
        v as u32
    }

    proof fn lemma_number(x: u32, v: int) {
        assert(Self::from_value(x as int) == x);
        assert(Self::lowest() <= v <= Self::highest() ==> (v as u32) as int == v);
    }

    fn zero() -> (r: u32) {
        0
    }

    fn to_wide(self) -> (w: i128) {
        self as i128
    }

    fn from_wide(w: i128) -> (r: Option<u32>) {
        if u32::MIN as i128 <= w && w <= u32::MAX as i128 {
            Some(w as u32)
        } else {
            None
        }
    }

    fn least() -> (r: u32) {
        u32::MIN
    }

    fn greatest() -> (r: u32) {
        u32::MAX
    }
}

impl Number for u64 {
    open spec fn value(self) -> int {
        self as int
    }

    open spec fn lowest() -> int {
        u64::MIN as int
    }

    open spec fn highest() -> int {
        u64::MAX as int
    }

    open spec fn from_value(v: int) -> u64 {
        v as u64
    }

    proof fn lemma_number(x: u64, v: int) {
        assert(Self::from_value(x as int) == x);
        assert(Self::lowest() <= v <= Self::highest() ==> (v as u64) as int == v);
    }

    fn zero() -> (r: u64) {
        0
    }

    fn to_wide(self) -> (w: i128) {
        self as i128
    }

    fn from_wide(w: i128) -> (r: Option<u64>) {
        if u64::MIN as i128 <= w && w <= u64::MAX as i128 {
            Some(w as u64)
        } else {
            None
        }
    }

    fn least() -> (r: u64) {
        u64::MIN
    }

    fn greatest() -> (r: u64) {
        u64::MAX
    }
}

impl Number for isize {
    open spec fn value(self) -> int {
        self as int
    }

    open spec fn lowest() -> int {
        isize::MIN as int
    }

    open spec fn highest() -> int {
        isize::MAX as int
    }

    open spec fn from_value(v: int) -> isize {
        v as isize
    }

    proof fn lemma_number(x: isize, v: int) {
        assert(Self::from_value(x as int) == x);
        assert(Self::lowest() <= v <= Self::highest() ==> (v as isize) as int == v);
    }

    fn zero() -> (r: isize) {
        0
    }

    fn to_wide(self) -> (w: i128) {
        self as i128
    }

    fn from_wide(w: i128) -> (r: Option<isize>) {
        if isize::MIN as i128 <= w && w <= isize::MAX as i128 {
            Some(w as isize)
        } else {
            None
        }
    }

    fn least() -> (r: isize) {
        isize::MIN
    }

    fn greatest() -> (r: isize) {
        isize::MAX
    }
}

impl Number for usize {
    open spec fn value(self) -> int {
        self as int
    }

    open spec fn lowest() -> int {
        usize::MIN as int
    }

    open spec fn highest() -> int {
        usize::MAX as int
    }

    open spec fn from_value(v: int) -> usize {
        v as usize
    }

    proof fn lemma_number(x: usize, v: int) {
        assert(Self::from_value(x as int) == x);
        assert(Self::lowest() <= v <= Self::highest() ==> (v as usize) as int == v);
    }

    fn zero() -> (r: usize) {
        0
    }

    fn to_wide(self) -> (w: i128) {
        self as i128
    }

    fn from_wide(w: i128) -> (r: Option<usize>) {
        if usize::MIN as i128 <= w && w <= usize::MAX as i128 {
            Some(w as usize)
        } else {
            None
        }
    }

    fn least() -> (r: usize) {
        usize::MIN
    }

    fn greatest() -> (r: usize) {
        usize::MAX
    }
}

} // verus!
