//! Numbers as the library holds them: exact ratios of whole numbers.
//!
//! A number is a numerator over a positive denominator. Every number that
//! the library makes is in lowest terms, so that one value has one form.
//! Sums, differences, products, quotients and remainders are exact. There
//! is no result where a result would not be a ratio (a division by zero,
//! a power with a fractional exponent) or where its lowest terms leave
//! the range of the machine's 64-bit integers; there the evaluator takes
//! what a host has computed, where a host has.
use vstd::prelude::*;

verus! {

/// A number: `num / den`.
#[derive(Clone, Copy, Debug, PartialEq, Eq, Hash, Structural)]
pub struct Number {
    pub num: i64,
    pub den: i64,
}

/// The size of a whole number.
pub open spec fn magnitude(v: int) -> nat {
    if v < 0 {
        (-v) as nat
    } else {
        v as nat
    }
}

/// The greatest common divisor by Euclid's rule.
pub open spec fn gcd(a: nat, b: nat) -> nat
    decreases b,
{
    if b == 0 {
        a
    } else {
        gcd(b, a % b)
    }
}

/// The number `n / d` in lowest terms with a positive denominator, where
/// `d` is not zero and the terms can be held.
pub open spec fn ratio(n: int, d: int) -> Option<Number> {
    if d == 0 {
        None
    } else {
        let g = gcd(magnitude(n), magnitude(d));
        let m = magnitude(n) / g;
        let e = magnitude(d) / g;
        if m <= i64::MAX && e <= i64::MAX {
            Some(
                Number {
                    num: (if (n < 0) != (d < 0) {
                        -(m as int)
                    } else {
                        m as int
                    }) as i64,
                    den: e as i64,
                },
            )
        } else {
            None
        }
    }
}

/// The number is well formed: its denominator is positive, and its
/// numerator has a negative that can be held.
pub open spec fn well_formed(n: Number) -> bool {
    n.den > 0 && n.num > i64::MIN
}

/// The whole number `v` as a number.
pub open spec fn whole(v: int) -> Number {
    Number { num: v as i64, den: 1 }
}

/// The sum of two numbers.
pub open spec fn sum(a: Number, b: Number) -> Option<Number> {
    if well_formed(a) && well_formed(b) {
        ratio(a.num * b.den + b.num * a.den, a.den * b.den)
    } else {
        None
    }
}

/// The difference of two numbers.
pub open spec fn difference(a: Number, b: Number) -> Option<Number> {
    if well_formed(a) && well_formed(b) {
        ratio(a.num * b.den - b.num * a.den, a.den * b.den)
    } else {
        None
    }
}

/// The product of two numbers.
pub open spec fn product(a: Number, b: Number) -> Option<Number> {
    if well_formed(a) && well_formed(b) {
        ratio(a.num * b.num, a.den * b.den)
    } else {
        None
    }
}

/// The quotient of two numbers; none by zero.
pub open spec fn quotient(a: Number, b: Number) -> Option<Number> {
    if well_formed(a) && well_formed(b) {
        ratio(a.num * b.den, a.den * b.num)
    } else {
        None
    }
}

/// The remainder of `a` by `b` that has the sign of `a`; none by zero.
pub open spec fn remainder(a: Number, b: Number) -> Option<Number> {
    if well_formed(a) && well_formed(b) && b.num != 0 {
        let x = a.num * b.den;
        let y = b.num * a.den;
        let m = (magnitude(x) % magnitude(y)) as int;
        ratio(if x < 0 { -m } else { m }, a.den * b.den)
    } else {
        None
    }
}

/// The negative of a number.
pub open spec fn negated(a: Number) -> Option<Number> {
    if well_formed(a) {
        ratio(-a.num, a.den as int)
    } else {
        None
    }
}

/// `a` multiplied by itself `k` times, beginning from one.
pub open spec fn repeated(a: Number, k: nat) -> Option<Number>
    decreases k,
{
    if k == 0 {
        Some(whole(1))
    } else {
        match repeated(a, (k - 1) as nat) {
            Some(p) => product(p, a),
            None => None,
        }
    }
}

/// The greatest exponent that is multiplied out. A base other than zero,
/// one and minus one leaves the range long before.
pub const MAX_EXPONENT: u64 = 128;

/// `a` to the power `b`, where `b` is a whole number. A negative power is
/// the power of the inverse; zero has none.
pub open spec fn power(a: Number, b: Number) -> Option<Number> {
    if !(well_formed(a) && well_formed(b)) || magnitude(b.num as int) % (b.den as nat) != 0 {
        None
    } else {
        let k = magnitude(b.num as int) / (b.den as nat);
        if k == 0 {
            Some(whole(1))
        } else if a.num == 0 {
            if b.num > 0 {
                Some(whole(0))
            } else {
                None
            }
        } else if magnitude(a.num as int) == a.den {
            if a.num > 0 || k % 2 == 0 {
                Some(whole(1))
            } else {
                Some(whole(-1))
            }
        } else if k > MAX_EXPONENT {
            None
        } else if b.num > 0 {
            repeated(a, k)
        } else {
            match quotient(whole(1), a) {
                Some(inverse) => repeated(inverse, k),
                None => None,
            }
        }
    }
}

/// The whole part of a number, rounded toward zero and kept within 32
/// signed bits; zero for what is no number.
pub open spec fn whole_i32(n: Number) -> int {
    if n.den <= 0 {
        0
    } else {
        let q = (magnitude(n.num as int) / (n.den as nat)) as int;
        let w = if n.num < 0 { -q } else { q };
        if w > i32::MAX {
            i32::MAX as int
        } else if w < i32::MIN {
            i32::MIN as int
        } else {
            w
        }
    }
}

/// The number in ten-thousandths, rounded to the nearest, a half upward;
/// zero for what is no number.
pub open spec fn rounded_units(n: Number) -> int {
    if n.den <= 0 {
        0
    } else {
        let a = magnitude(n.num as int) * 10_000;
        let d = n.den as nat;
        if n.num >= 0 {
            ((2 * a + d) / (2 * d)) as int
        } else {
            -((((2 * a + d - 1) as nat) / (2 * d)) as int)
        }
    }
}

/// Whether two numbers are one value.
pub open spec fn same_value(a: Number, b: Number) -> bool {
    a.num * b.den == b.num * a.den
}

/// The greatest common divisor of two numbers of which one is not zero
/// is not zero.
pub proof fn lemma_gcd_positive(a: nat, b: nat)
    requires
        a > 0 || b > 0,
    ensures
        gcd(a, b) > 0,
    decreases b,
{
    if b != 0 {
        lemma_gcd_positive(b, a % b);
    }
}

/// The greatest common divisor is no greater than either number that is
/// not zero.
pub proof fn lemma_gcd_bounds(a: nat, b: nat)
    ensures
        a > 0 ==> gcd(a, b) <= a,
        b > 0 ==> gcd(a, b) <= b,
    decreases b,
{
    if b != 0 {
        let r = a % b;
        lemma_gcd_bounds(b, r);
        assert(gcd(a, b) == gcd(b, r));
        if a > 0 {
            if r == 0 {
                assert(gcd(b, 0) == b);
                if a < b {
                    vstd::arithmetic::div_mod::lemma_small_mod(a, b);
                }
            } else {
                vstd::arithmetic::div_mod::lemma_mod_decreases(a, b);
            }
        }
    }
}

/// The product of two numbers whose negatives can be held lies well
/// within 127 bits.
pub proof fn lemma_product_small(x: int, y: int)
    requires
        i64::MIN < x <= i64::MAX,
        i64::MIN < y <= i64::MAX,
    ensures
        -0x3fff_ffff_ffff_ffff_0000_0000_0000_0001 <= x * y <= 0x3fff_ffff_ffff_ffff_0000_0000_0000_0001,
{
    assert(-0x3fff_ffff_ffff_ffff_0000_0000_0000_0001 <= x * y <= 0x3fff_ffff_ffff_ffff_0000_0000_0000_0001)
        by (nonlinear_arith)
        requires
            -0x7fff_ffff_ffff_ffff <= x <= 0x7fff_ffff_ffff_ffff,
            -0x7fff_ffff_ffff_ffff <= y <= 0x7fff_ffff_ffff_ffff,
    ;
}

/// The product of two whole numbers of 64 bits lies within 126 bits.
pub proof fn lemma_product_bound(x: int, y: int)
    requires
        i64::MIN <= x <= i64::MAX,
        i64::MIN <= y <= i64::MAX,
    ensures
        -0x4000_0000_0000_0000_0000_0000_0000_0000 <= x * y <= 0x4000_0000_0000_0000_0000_0000_0000_0000,
{
    assert(-0x4000_0000_0000_0000_0000_0000_0000_0000 <= x * y <= 0x4000_0000_0000_0000_0000_0000_0000_0000)
        by (nonlinear_arith)
        requires
            -0x8000_0000_0000_0000 <= x <= 0x7fff_ffff_ffff_ffff,
            -0x8000_0000_0000_0000 <= y <= 0x7fff_ffff_ffff_ffff,
    ;
}

/// The greatest common divisor.
fn gcd_of(a: u128, b: u128) -> (g: u128)
    ensures
        g == gcd(a as nat, b as nat),
{
    let mut x = a;
    let mut y = b;
    while y != 0
        invariant
            gcd(x as nat, y as nat) == gcd(a as nat, b as nat),
        decreases y,
    {
        let t = x % y;
        x = y;
        y = t;
    }
    x
}

/// The size of a whole number.
fn size_of(v: i128) -> (m: u128)
    requires
        v > i128::MIN,
    ensures
        m == magnitude(v as int),
{
    if v < 0 {
        (-v) as u128
    } else {
        v as u128
    }
}

/// The number `n / d` in lowest terms.
pub fn make(n: i128, d: i128) -> (r: Option<Number>)
    requires
        n > i128::MIN,
        d > i128::MIN,
    ensures
        r == ratio(n as int, d as int),
        r matches Some(x) ==> well_formed(x),
{
    if d == 0 {
        return None;
    }
    let an = size_of(n);
    let ad = size_of(d);
    let g = gcd_of(an, ad);
    proof {
        lemma_gcd_positive(an as nat, ad as nat);
    }
    let m = an / g;
    let e = ad / g;
    if m > i64::MAX as u128 || e > i64::MAX as u128 {
        return None;
    }
    proof {
        lemma_gcd_bounds(an as nat, ad as nat);
    }
    assert(e > 0) by (nonlinear_arith)
        requires
            e == ad / g,
            0 < g <= ad,
    ;
    let negative = (n < 0) != (d < 0);
    let size: i64 = m as i64;
    let num: i64 = if negative {
        -size
    } else {
        size
    };
    Some(Number { num, den: e as i64 })
}

impl Number {
    /// The number zero.
    pub fn zero() -> (n: Number)
        ensures
            n == whole(0),
    {
        Number { num: 0, den: 1 }
    }

    /// The number one, or zero, for a truth value.
    pub fn from_bool(b: bool) -> (n: Number)
        ensures
            n == whole(if b { 1int } else { 0int }),
    {
        Number { num: if b { 1 } else { 0 }, den: 1 }
    }

    /// The whole number `n`.
    pub fn from_whole(n: i64) -> (r: Number)
        ensures
            r == whole(n as int),
    {
        Number { num: n, den: 1 }
    }

    /// The number of so many ten-thousandths.
    pub fn from_ten_thousandths(units: i64) -> (r: Option<Number>)
        ensures
            r == ratio(units as int, 10_000),
    {
        make(units as i128, 10_000)
    }

    /// Whether the number is well formed.
    pub fn is_well_formed(&self) -> (ok: bool)
        ensures
            ok == well_formed(*self),
    {
        self.den > 0 && self.num > i64::MIN
    }

    /// Whether the number is zero.
    pub fn is_zero(&self) -> (z: bool)
        ensures
            z == (self.num == 0),
    {
        self.num == 0
    }

    /// The two numbers brought to one denominator: their numerators.
    pub fn cross(&self, other: &Number) -> (p: (i128, i128))
        ensures
            p.0 == self.num * other.den,
            p.1 == other.num * self.den,
            -0x4000_0000_0000_0000_0000_0000_0000_0000 <= p.0 <= 0x4000_0000_0000_0000_0000_0000_0000_0000,
            -0x4000_0000_0000_0000_0000_0000_0000_0000 <= p.1 <= 0x4000_0000_0000_0000_0000_0000_0000_0000,
    {
        proof {
            lemma_product_bound(self.num as int, other.den as int);
            lemma_product_bound(other.num as int, self.den as int);
        }
        ((self.num as i128) * (other.den as i128), (other.num as i128) * (self.den as i128))
    }

    /// Whether the two numbers are one value.
    pub fn same(&self, other: &Number) -> (yes: bool)
        ensures
            yes == same_value(*self, *other),
    {
        let p = self.cross(other);
        p.0 == p.1
    }

    /// The sum.
    pub fn checked_add(self, other: Number) -> (r: Option<Number>)
        ensures
            r == sum(self, other),
    {
        if !self.is_well_formed() || !other.is_well_formed() {
            return None;
        }
        let p = self.cross(&other);
        proof {
            lemma_product_small(self.num as int, other.den as int);
            lemma_product_small(other.num as int, self.den as int);
            lemma_product_bound(self.den as int, other.den as int);
        }
        make(p.0 + p.1, (self.den as i128) * (other.den as i128))
    }

    /// The difference.
    pub fn checked_sub(self, other: Number) -> (r: Option<Number>)
        ensures
            r == difference(self, other),
    {
        if !self.is_well_formed() || !other.is_well_formed() {
            return None;
        }
        let p = self.cross(&other);
        proof {
            lemma_product_small(self.num as int, other.den as int);
            lemma_product_small(other.num as int, self.den as int);
            lemma_product_bound(self.den as int, other.den as int);
        }
        make(p.0 - p.1, (self.den as i128) * (other.den as i128))
    }

    /// The negative.
    pub fn checked_neg(self) -> (r: Option<Number>)
        ensures
            r == negated(self),
    {
        if !self.is_well_formed() {
            return None;
        }
        make(-(self.num as i128), self.den as i128)
    }

    /// The product.
    pub fn checked_mul(self, other: Number) -> (r: Option<Number>)
        ensures
            r == product(self, other),
    {
        if !self.is_well_formed() || !other.is_well_formed() {
            return None;
        }
        proof {
            lemma_product_bound(self.num as int, other.num as int);
            lemma_product_bound(self.den as int, other.den as int);
        }
        make((self.num as i128) * (other.num as i128), (self.den as i128) * (other.den as i128))
    }

    /// The quotient; none by zero.
    pub fn checked_div(self, other: Number) -> (r: Option<Number>)
        ensures
            r == quotient(self, other),
    {
        if !self.is_well_formed() || !other.is_well_formed() {
            return None;
        }
        proof {
            lemma_product_bound(self.num as int, other.den as int);
            lemma_product_bound(self.den as int, other.num as int);
        }
        make((self.num as i128) * (other.den as i128), (self.den as i128) * (other.num as i128))
    }

    /// The remainder that has the sign of `self`; none by zero.
    pub fn checked_rem(self, other: Number) -> (r: Option<Number>)
        ensures
            r == remainder(self, other),
    {
        if !self.is_well_formed() || !other.is_well_formed() || other.num == 0 {
            return None;
        }
        let p = self.cross(&other);
        proof {
            lemma_product_bound(self.den as int, other.den as int);
        }
        let x = size_of(p.0);
        let y = size_of(p.1);
        assert(p.1 != 0) by (nonlinear_arith)
            requires
                p.1 == other.num * self.den,
                other.num != 0,
                self.den > 0,
        ;
        let m: i128 = (x % y) as i128;
        let signed: i128 = if p.0 < 0 {
            -m
        } else {
            m
        };
        make(signed, (self.den as i128) * (other.den as i128))
    }

    /// The power, where the exponent is a whole number.
    pub fn checked_pow(self, exponent: Number) -> (r: Option<Number>)
        ensures
            r == power(self, exponent),
    {
        if !self.is_well_formed() || !exponent.is_well_formed() {
            return None;
        }
        let size: u128 = size_of(exponent.num as i128);
        let den: u128 = exponent.den as u128;
        if size % den != 0 {
            return None;
        }
        let k: u128 = size / den;
        if k == 0 {
            return Some(Number { num: 1, den: 1 });
        }
        if self.num == 0 {
            return if exponent.num > 0 {
                Some(Number { num: 0, den: 1 })
            } else {
                None
            };
        }
        if size_of(self.num as i128) == self.den as u128 {
            return if self.num > 0 || k % 2 == 0 {
                Some(Number { num: 1, den: 1 })
            } else {
                Some(Number { num: -1, den: 1 })
            };
        }
        if k > MAX_EXPONENT as u128 {
            return None;
        }
        let base = if exponent.num > 0 {
            self
        } else {
            match (Number { num: 1, den: 1 }).checked_div(self) {
                Some(inverse) => inverse,
                None => {
                    return None;
                },
            }
        };
        assert(power(self, exponent) == repeated(base, k as nat));
        let mut acc = Number { num: 1, den: 1 };
        let mut i: u128 = 0;
        while i < k
            invariant
                i <= k,
                power(self, exponent) == repeated(base, k as nat),
                repeated(base, i as nat) == Some(acc),
            decreases k - i,
        {
            match acc.checked_mul(base) {
                Some(next) => {
                    acc = next;
                },
                None => {
                    proof {
                        lemma_repeated_fails(base, (i + 1) as nat, k as nat);
                    }
                    return None;
                },
            }
            i += 1;
        }
        Some(acc)
    }

    /// The whole part, rounded toward zero and kept within 32 signed bits.
    pub fn to_i32(self) -> (w: i32)
        ensures
            w == whole_i32(self),
    {
        if self.den <= 0 {
            return 0;
        }
        let q: u128 = size_of(self.num as i128) / (self.den as u128);
        if self.num < 0 {
            if q > 0x8000_0000 {
                i32::MIN
            } else {
                (-(q as i64)) as i32
            }
        } else {
            if q > i32::MAX as u128 {
                i32::MAX
            } else {
                q as i32
            }
        }
    }

    /// The number in ten-thousandths, rounded to the nearest, a half
    /// upward.
    pub fn to_units(self) -> (u: i128)
        ensures
            u == rounded_units(self),
            u > i128::MIN,
    {
        if self.den <= 0 {
            return 0;
        }
        let a: u128 = size_of(self.num as i128) * 10_000;
        let d: u128 = self.den as u128;
        if self.num >= 0 {
            let x: u128 = 2 * a + d;
            let q = x / (2 * d);
            assert(q <= x) by (nonlinear_arith)
                requires
                    q == (x as int) / (2 * d),
                    x >= 0,
                    d >= 1,
            ;
            q as i128
        } else {
            let x: u128 = 2 * a + d - 1;
            let q = x / (2 * d);
            assert(q <= x) by (nonlinear_arith)
                requires
                    q == (x as int) / (2 * d),
                    x >= 0,
                    d >= 1,
            ;
            -(q as i128)
        }
    }
}

/// Once a product on the way cannot be held, no later one can.
proof fn lemma_repeated_fails(a: Number, i: nat, k: nat)
    requires
        i <= k,
        repeated(a, i) is None,
    ensures
        repeated(a, k) is None,
    decreases k,
{
    if i < k {
        lemma_repeated_fails(a, i, (k - 1) as nat);
    }
}

} // verus!
