//! Exact numbers: integers and reduced fractions of 64-bit parts.
use vstd::arithmetic::div_mod::{lemma_fundamental_div_mod, lemma_truncate_middle};
use vstd::arithmetic::power2::{
    lemma2_to64, lemma2_to64_rest, lemma_pow2_adds, lemma_pow2_pos, lemma_pow2_strictly_increases,
    lemma_pow2_unfold, pow2,
};
use vstd::prelude::*;

verus! {

/// An exact number. A `Rational` is a numerator over a denominator; the
/// operations of this module only ever produce it with a denominator above
/// one and in lowest terms, and give whole results as `Fixnum`.
#[derive(Clone, Copy, Debug, PartialEq, Eq, Structural)]
pub enum Number {
    Fixnum(i64),
    Rational(i64, i64),
}

/// A fraction of two integers: what a number stands for.
pub struct Ratio {
    pub num: int,
    pub den: int,
}

pub open spec fn abs(n: int) -> nat {
    if n < 0 {
        (-n) as nat
    } else {
        n as nat
    }
}

/// Greatest common divisor, by Euclid's rule.
pub open spec fn gcd(a: nat, b: nat) -> nat
    decreases b,
{
    if b == 0 {
        a
    } else {
        gcd(b, a % b)
    }
}

/// The fraction `n / d` in lowest terms, for a positive `d`.
pub open spec fn reduce(n: int, d: int) -> Ratio {
    let g = gcd(abs(n), abs(d)) as int;
    Ratio { num: if n < 0 { -(abs(n) as int / g) } else { n / g }, den: d / g }
}

/// Whether both parts of the fraction fit the number type.
pub open spec fn fits(r: Ratio) -> bool {
    i64::MIN <= r.num <= i64::MAX && 0 < r.den <= i64::MAX
}

/// The number that holds a fraction which fits.
pub open spec fn number_of(r: Ratio) -> Number {
    if r.den == 1 {
        Number::Fixnum(r.num as i64)
    } else {
        Number::Rational(r.num as i64, r.den as i64)
    }
}

pub open spec fn ratio_add(a: Ratio, b: Ratio) -> Ratio {
    reduce(a.num * b.den + b.num * a.den, a.den * b.den)
}

pub open spec fn ratio_sub(a: Ratio, b: Ratio) -> Ratio {
    reduce(a.num * b.den - b.num * a.den, a.den * b.den)
}

pub open spec fn ratio_mul(a: Ratio, b: Ratio) -> Ratio {
    reduce(a.num * b.num, a.den * b.den)
}

/// `a / b` for a `b` other than zero: the denominator is kept positive.
pub open spec fn ratio_div(a: Ratio, b: Ratio) -> Ratio {
    if b.num < 0 {
        reduce(-(a.num * b.den), a.den * -b.num)
    } else {
        reduce(a.num * b.den, a.den * b.num)
    }
}

/// Whether two fractions are the same rational number.
pub open spec fn ratio_eq(a: Ratio, b: Ratio) -> bool {
    a.num * b.den == b.num * a.den
}

/// Whether `a` is the smaller rational number, for positive denominators.
pub open spec fn ratio_lt(a: Ratio, b: Ratio) -> bool {
    a.num * b.den < b.num * a.den
}

/// The quotient of two integers rounded towards zero.
pub open spec fn trunc_quotient(x: int, y: int) -> int {
    if (x < 0) == (y < 0) {
        abs(x) as int / abs(y) as int
    } else {
        -(abs(x) as int / abs(y) as int)
    }
}

/// The remainder that goes with [`trunc_quotient`]: it has the sign of `x`.
pub open spec fn trunc_remainder(x: int, y: int) -> int {
    if x < 0 {
        -(abs(x) as int % abs(y) as int)
    } else {
        abs(x) as int % abs(y) as int
    }
}

pub proof fn lemma_gcd_positive(a: nat, b: nat)
    requires
        a > 0 || b > 0,
    ensures
        gcd(a, b) > 0,
    decreases b,
{
    if b != 0 {
        lemma_gcd_positive(b, a % b);
    }
}

/// The greatest common divisor divides both of its arguments.
pub proof fn lemma_gcd_divides(a: nat, b: nat)
    requires
        a > 0 || b > 0,
    ensures
        a % gcd(a, b) == 0,
        b % gcd(a, b) == 0,
    decreases b,
{
    lemma_gcd_positive(a, b);
    let g = gcd(a, b) as int;
    if b != 0 {
        lemma_gcd_divides(b, a % b);
        let r = (a % b) as int;
        let q = (a / b) as int;
        lemma_fundamental_div_mod(a as int, b as int);
        lemma_fundamental_div_mod(b as int, g);
        lemma_fundamental_div_mod(r, g);
        let kb = b as int / g;
        let kr = r / g;
        assert(a == g * (kb * q + kr)) by (nonlinear_arith)
            requires
                a == b * q + r,
                b == g * kb,
                r == g * kr,
        ;
        lemma_multiple_mod(g, kb * q + kr);
    } else {
        vstd::arithmetic::div_mod::lemma_mod_self_0(a as int);
        assert(0nat % a == 0) by {
            vstd::arithmetic::div_mod::lemma_small_mod(0, a);
        }
    }
}

/// A multiple of `g` leaves no remainder on division by `g`.
pub proof fn lemma_multiple_mod(g: int, k: int)
    requires
        g > 0,
    ensures
        (g * k) % g == 0,
        (g * k) / g == k,
{
    assert(g * k == k * g + 0) by (nonlinear_arith);
    vstd::arithmetic::div_mod::lemma_fundamental_div_mod_converse(g * k, g, k, 0);
}

/// Scaling both arguments scales the greatest common divisor.
pub proof fn lemma_gcd_scales(k: nat, a: nat, b: nat)
    requires
        k > 0,
    ensures
        gcd(k * a, k * b) == k * gcd(a, b),
    decreases b,
{
    if b == 0 {
        assert(k * b == 0) by (nonlinear_arith)
            requires
                b == 0,
        ;
    } else {
        lemma_truncate_middle(a as int, k as int, b as int);
        assert(k * b > 0) by (nonlinear_arith)
            requires
                k > 0,
                b > 0,
        ;
        assert((k * a) % (k * b) == k * (a % b));
        lemma_gcd_scales(k, b, a % b);
    }
}

/// Dividing both arguments by their greatest common divisor leaves
/// nothing in common.
pub proof fn lemma_gcd_of_quotients(a: nat, b: nat)
    requires
        a > 0 || b > 0,
    ensures
        gcd(a / gcd(a, b), b / gcd(a, b)) == 1,
{
    lemma_gcd_positive(a, b);
    lemma_gcd_divides(a, b);
    let g = gcd(a, b);
    lemma_fundamental_div_mod(a as int, g as int);
    lemma_fundamental_div_mod(b as int, g as int);
    lemma_gcd_scales(g, a / g, b / g);
    let inner = gcd(a / g, b / g);
    assert(g * inner == g);
    assert(inner == 1) by (nonlinear_arith)
        requires
            g * inner == g,
            g > 0,
    ;
}

/// Coefficients `(x, y)` with `a * x + b * y == gcd(a, b)`.
pub open spec fn bezout(a: nat, b: nat) -> (int, int)
    decreases b,
{
    if b == 0 {
        (1, 0)
    } else {
        let (x, y) = bezout(b, a % b);
        (y, x - (a / b) * y)
    }
}

/// The greatest common divisor is a sum of multiples of its arguments.
pub proof fn lemma_bezout(a: nat, b: nat)
    ensures
        a * bezout(a, b).0 + b * bezout(a, b).1 == gcd(a, b),
    decreases b,
{
    if b != 0 {
        lemma_bezout(b, a % b);
        let (x, y) = bezout(b, a % b);
        let q = (a / b) as int;
        let r = (a % b) as int;
        lemma_fundamental_div_mod(a as int, b as int);
        assert(a * y + b * (x - q * y) == b * x + r * y) by (nonlinear_arith)
            requires
                a == b * q + r,
        ;
    }
}

/// What divides a product and has nothing in common with one factor
/// divides the other factor.
pub proof fn lemma_gauss(a: nat, b: nat, c: nat, k: int)
    requires
        a > 0,
        gcd(b, a) == 1,
        b * c == a * k,
    ensures
        c % a == 0,
{
    lemma_bezout(b, a);
    let x = bezout(b, a).0;
    let y = bezout(b, a).1;
    assert(c == a * (k * x + y * c)) by (nonlinear_arith)
        requires
            b * x + a * y == 1,
            b * c == a * k,
    ;
    lemma_multiple_mod(a as int, k * x + y * c);
}

/// Whether the fraction is in lowest terms with a positive denominator.
pub open spec fn lowest(r: Ratio) -> bool {
    r.den > 0 && gcd(abs(r.num), r.den as nat) == 1
}

/// Two fractions in lowest terms that stand for the same rational number
/// are the same fraction.
pub proof fn lemma_lowest_unique(p: Ratio, q: Ratio)
    requires
        lowest(p),
        lowest(q),
        ratio_eq(p, q),
    ensures
        p == q,
{
    let n1 = abs(p.num);
    let n2 = abs(q.num);
    let d1 = p.den as nat;
    let d2 = q.den as nat;
    assert(n1 * d2 == n2 * d1 && ((p.num < 0) == (q.num < 0) || p.num == 0 || q.num == 0))
        by (nonlinear_arith)
        requires
            p.num * q.den == q.num * p.den,
            p.den > 0,
            q.den > 0,
            n1 == abs(p.num),
            n2 == abs(q.num),
            d1 == p.den,
            d2 == q.den,
    ;
    assert(n1 * d2 == d1 * n2) by (nonlinear_arith)
        requires
            n1 * d2 == n2 * d1,
    ;
    lemma_gauss(d1, n1, d2, n2 as int);
    assert(n2 * d1 == d2 * n1) by (nonlinear_arith)
        requires
            n1 * d2 == n2 * d1,
    ;
    lemma_gauss(d2, n2, d1, n1 as int);
    lemma_fundamental_div_mod(d2 as int, d1 as int);
    lemma_fundamental_div_mod(d1 as int, d2 as int);
    let u = d2 as int / d1 as int;
    let v = d1 as int / d2 as int;
    assert(d1 == d2) by (nonlinear_arith)
        requires
            d2 == d1 * u,
            d1 == d2 * v,
            d1 > 0,
            d2 > 0,
    ;
    assert(p.num == q.num) by (nonlinear_arith)
        requires
            p.num * q.den == q.num * p.den,
            p.den == q.den,
            p.den > 0,
    ;
}

/// A fraction with a positive denominator reduces to one in lowest terms
/// that stands for the same rational number.
pub proof fn lemma_reduce(n: int, d: int)
    requires
        d > 0,
    ensures
        lowest(reduce(n, d)),
        ratio_eq(reduce(n, d), Ratio { num: n, den: d }),
        abs(reduce(n, d).num) <= abs(n),
        reduce(n, d).den <= d,
        n >= 0 ==> reduce(n, d).num >= 0,
        n <= 0 ==> reduce(n, d).num <= 0,
{
    let a = abs(n);
    let b = d as nat;
    let g = gcd(a, b) as int;
    lemma_gcd_positive(a, b);
    lemma_gcd_divides(a, b);
    lemma_gcd_of_quotients(a, b);
    lemma_fundamental_div_mod(a as int, g);
    lemma_fundamental_div_mod(d, g);
    let an = a as int / g;
    let dn = d / g;
    assert(dn > 0 && dn <= d && 0 <= an <= a) by (nonlinear_arith)
        requires
            d == g * dn,
            a == g * an,
            d > 0,
            g > 0,
            a >= 0,
    ;
    let r = reduce(n, d);
    assert(r.den == dn);
    if n < 0 {
        assert(r.num == -an);
        assert(abs(r.num) == an);
        assert(r.num * d == n * r.den) by (nonlinear_arith)
            requires
                r.num == -an,
                r.den == dn,
                d == g * dn,
                -n == g * an,
        ;
    } else {
        assert(r.num == an);
        assert(r.num * d == n * r.den) by (nonlinear_arith)
            requires
                r.num == an,
                r.den == dn,
                d == g * dn,
                n == g * an,
        ;
    }
}

/// Fractions that stand for the same rational number reduce to the same
/// fraction.
pub proof fn lemma_reduce_same(a: Ratio, b: Ratio)
    requires
        a.den > 0,
        b.den > 0,
        ratio_eq(a, b),
    ensures
        reduce(a.num, a.den) == reduce(b.num, b.den),
{
    lemma_reduce(a.num, a.den);
    lemma_reduce(b.num, b.den);
    let p = reduce(a.num, a.den);
    let q = reduce(b.num, b.den);
    lemma_ratio_eq_transitive(p, a, b);
    lemma_ratio_eq_transitive(p, b, q);
    lemma_lowest_unique(p, q);
}

/// Standing for the same rational number is transitive among fractions
/// with positive denominators.
pub proof fn lemma_ratio_eq_transitive(a: Ratio, b: Ratio, c: Ratio)
    requires
        b.den > 0,
        ratio_eq(a, b),
        ratio_eq(b, c),
    ensures
        ratio_eq(a, c),
{
    assert(b.den * (a.num * c.den) == b.den * (c.num * a.den)) by (nonlinear_arith)
        requires
            a.num * b.den == b.num * a.den,
            b.num * c.den == c.num * b.den,
    ;
    assert(a.num * c.den == c.num * a.den) by (nonlinear_arith)
        requires
            b.den * (a.num * c.den) == b.den * (c.num * a.den),
            b.den > 0,
    ;
}

impl View for Number {
    type V = Ratio;

    open spec fn view(&self) -> Ratio {
        match *self {
            Number::Fixnum(i) => Ratio { num: i as int, den: 1 },
            Number::Rational(n, d) => Ratio { num: n as int, den: d as int },
        }
    }
}

impl Number {
    /// The denominator is positive: the number stands for a fraction.
    pub open spec fn valid(self) -> bool {
        self@.den > 0
    }

    /// The number is in the form that the operations produce: a whole
    /// number is a `Fixnum`, a fraction is in lowest terms.
    pub open spec fn wf(self) -> bool {
        match self {
            Number::Fixnum(_) => true,
            Number::Rational(n, d) => d > 1 && gcd(abs(n as int), d as nat) == 1,
        }
    }

    pub open spec fn spec_is_integer(self) -> bool {
        self@.den == 1
    }

    pub open spec fn spec_is_zero(self) -> bool {
        self@.num == 0
    }

    pub fn from_i64(i: i64) -> (n: Number)
        ensures
            n == Number::Fixnum(i),
    {
        Number::Fixnum(i)
    }

    /// Numerator and denominator.
    pub fn parts(self) -> (p: (i64, i64))
        ensures
            p.0 == self@.num,
            p.1 == self@.den,
    {
        match self {
            Number::Fixnum(i) => (i, 1),
            Number::Rational(n, d) => (n, d),
        }
    }

    pub fn is_valid(self) -> (b: bool)
        ensures
            b == self.valid(),
    {
        self.parts().1 > 0
    }

    pub fn is_integer(self) -> (b: bool)
        ensures
            b == self.spec_is_integer(),
    {
        self.parts().1 == 1
    }

    pub fn is_zero(self) -> (b: bool)
        ensures
            b == self.spec_is_zero(),
    {
        self.parts().0 == 0
    }

    /// The number as an index, where it is a whole number that is not
    /// negative and fits.
    pub fn to_usize(self) -> (r: Option<usize>)
        ensures
            r == if self.spec_is_integer() && 0 <= self@.num <= usize::MAX {
                Some(self@.num as usize)
            } else {
                None
            },
    {
        let (n, d) = self.parts();
        if d == 1 && n >= 0 && n as u64 <= usize::MAX as u64 {
            Some(n as usize)
        } else {
            None
        }
    }
}

/// Greatest common divisor of two machine integers.
pub fn gcd_u128(a: u128, b: u128) -> (g: u128)
    ensures
        g == gcd(a as nat, b as nat),
{
    let mut x = a;
    let mut y = b;
    while y != 0
        invariant
            gcd(x as nat, y as nat) == gcd(a as nat, b as nat),
        decreases y,
    {
        let t = x % y;
        x = y;
        y = t;
    }
    x
}

/// Magnitude of a signed value.
pub fn magnitude(n: i128) -> (m: u128)
    requires
        n > i128::MIN,
    ensures
        m == abs(n as int),
{
    if n < 0 {
        (-n) as u128
    } else {
        n as u128
    }
}

/// The number that `n / d` is in lowest terms, where its parts fit.
pub fn normalize(n: i128, d: i128) -> (r: Option<Number>)
    requires
        n > i128::MIN,
        d > 0,
    ensures
        match r {
            Some(x) => fits(reduce(n as int, d as int)) && x == number_of(
                reduce(n as int, d as int),
            ) && x.wf() && x.valid(),
            None => !fits(reduce(n as int, d as int)),
        },
{
    let mag = magnitude(n);
    let den = d as u128;
    let g = gcd_u128(mag, den);
    proof {
        lemma_gcd_positive(mag as nat, den as nat);
        lemma_gcd_divides(mag as nat, den as nat);
        lemma_gcd_of_quotients(mag as nat, den as nat);
        lemma_fundamental_div_mod(den as int, g as int);
        assert(den as int / g as int > 0) by (nonlinear_arith)
            requires
                den as int == g as int * (den as int / g as int),
                den > 0,
                g > 0,
        ;
    }
    let top = mag / g;
    let bottom = den / g;
    if bottom > i64::MAX as u128 {
        return None;
    }
    if n < 0 {
        if top > 0x8000_0000_0000_0000u128 {
            return None;
        }
        let num: i64 = if top == 0x8000_0000_0000_0000u128 {
            i64::MIN
        } else {
            -(top as i64)
        };
        if bottom == 1 {
            Some(Number::Fixnum(num))
        } else {
            Some(Number::Rational(num, bottom as i64))
        }
    } else {
        if top > i64::MAX as u128 {
            return None;
        }
        if bottom == 1 {
            Some(Number::Fixnum(top as i64))
        } else {
            Some(Number::Rational(top as i64, bottom as i64))
        }
    }
}

/// The product of two 64-bit integers, which always fits 128 bits.
pub fn wide_product(a: i64, b: i64) -> (p: i128)
    ensures
        p == a * b,
        -0x4000_0000_0000_0000_0000_0000_0000_0000 <= p <= 0x4000_0000_0000_0000_0000_0000_0000_0000,
        b > 0 ==> -0x4000_0000_0000_0000_0000_0000_0000_0000 < p
            < 0x4000_0000_0000_0000_0000_0000_0000_0000,
{
    assert(b > 0 ==> -0x4000_0000_0000_0000_0000_0000_0000_0000 < a * b
        < 0x4000_0000_0000_0000_0000_0000_0000_0000) by (nonlinear_arith)
        requires
            -0x8000_0000_0000_0000 <= a <= 0x7fff_ffff_ffff_ffff,
            -0x8000_0000_0000_0000 <= b <= 0x7fff_ffff_ffff_ffff,
    ;
    assert(-0x4000_0000_0000_0000_0000_0000_0000_0000 <= a * b
        <= 0x4000_0000_0000_0000_0000_0000_0000_0000) by (nonlinear_arith)
        requires
            -0x8000_0000_0000_0000 <= a <= 0x7fff_ffff_ffff_ffff,
            -0x8000_0000_0000_0000 <= b <= 0x7fff_ffff_ffff_ffff,
    ;
    (a as i128) * (b as i128)
}

/// The number that holds the result `r` of an operation on `a` and `b`:
/// there is one where both operands stand for fractions and `r` fits.
pub open spec fn checked(a: Number, b: Number, r: Ratio) -> Option<Number> {
    if a.valid() && b.valid() && fits(r) {
        Some(number_of(r))
    } else {
        None
    }
}

impl Number {
    pub open spec fn spec_add(self, other: Number) -> Option<Number> {
        checked(self, other, ratio_add(self@, other@))
    }

    pub open spec fn spec_sub(self, other: Number) -> Option<Number> {
        checked(self, other, ratio_sub(self@, other@))
    }

    pub open spec fn spec_mul(self, other: Number) -> Option<Number> {
        checked(self, other, ratio_mul(self@, other@))
    }

    pub open spec fn spec_div(self, other: Number) -> Option<Number> {
        if other@.num == 0 {
            None
        } else {
            checked(self, other, ratio_div(self@, other@))
        }
    }

    /// The absolute value, where it fits.
    pub open spec fn spec_abs(self) -> Option<Number> {
        checked(self, self, reduce(abs(self@.num) as int, self@.den))
    }

    /// The integer quotient rounded towards zero, for two whole numbers
    /// with a divisor other than zero, where it fits.
    pub open spec fn spec_quotient(self, other: Number) -> Option<Number> {
        let q = trunc_quotient(self@.num, other@.num);
        if self.spec_is_integer() && other.spec_is_integer() && other@.num != 0 && q
            <= i64::MAX {
            Some(Number::Fixnum(q as i64))
        } else {
            None
        }
    }

    /// The remainder that goes with [`Number::spec_quotient`].
    pub open spec fn spec_remainder(self, other: Number) -> Option<Number> {
        if self.spec_is_integer() && other.spec_is_integer() && other@.num != 0 {
            Some(Number::Fixnum(trunc_remainder(self@.num, other@.num) as i64))
        } else {
            None
        }
    }

    pub open spec fn spec_eq(self, other: Number) -> bool {
        ratio_eq(self@, other@)
    }

    pub open spec fn spec_lt(self, other: Number) -> bool {
        ratio_lt(self@, other@)
    }

    /// The sum, or `None` where it does not fit.
    pub fn add(self, other: Number) -> (r: Option<Number>)
        ensures
            r == self.spec_add(other),
            r matches Some(x) ==> x.wf() && x.valid(),
    {
        let (an, ad) = self.parts();
        let (bn, bd) = other.parts();
        if ad <= 0 || bd <= 0 {
            return None;
        }
        let left = wide_product(an, bd);
        let right = wide_product(bn, ad);
        let den = wide_product(ad, bd);
        assert(den > 0) by (nonlinear_arith)
            requires
                den == ad * bd,
                ad > 0,
                bd > 0,
        ;
        normalize(left + right, den)
    }

    /// The difference, or `None` where it does not fit.
    pub fn sub(self, other: Number) -> (r: Option<Number>)
        ensures
            r == self.spec_sub(other),
            r matches Some(x) ==> x.wf() && x.valid(),
    {
        let (an, ad) = self.parts();
        let (bn, bd) = other.parts();
        if ad <= 0 || bd <= 0 {
            return None;
        }
        let left = wide_product(an, bd);
        let right = wide_product(bn, ad);
        let den = wide_product(ad, bd);
        assert(den > 0) by (nonlinear_arith)
            requires
                den == ad * bd,
                ad > 0,
                bd > 0,
        ;
        normalize(left - right, den)
    }

    /// The product, or `None` where it does not fit.
    pub fn mul(self, other: Number) -> (r: Option<Number>)
        ensures
            r == self.spec_mul(other),
            r matches Some(x) ==> x.wf() && x.valid(),
    {
        let (an, ad) = self.parts();
        let (bn, bd) = other.parts();
        if ad <= 0 || bd <= 0 {
            return None;
        }
        let num = wide_product(an, bn);
        let den = wide_product(ad, bd);
        assert(den > 0) by (nonlinear_arith)
            requires
                den == ad * bd,
                ad > 0,
                bd > 0,
        ;
        normalize(num, den)
    }

    /// The quotient as a fraction, or `None` where `other` is zero or the
    /// result does not fit.
    pub fn div(self, other: Number) -> (r: Option<Number>)
        ensures
            r == self.spec_div(other),
            r matches Some(x) ==> x.wf() && x.valid(),
    {
        let (an, ad) = self.parts();
        let (bn, bd) = other.parts();
        if bn == 0 || ad <= 0 || bd <= 0 {
            return None;
        }
        let num = wide_product(an, bd);
        let den = wide_product(ad, bn);
        if bn < 0 {
            assert(ad * -bn > 0 && ad * -bn == -(ad * bn)) by (nonlinear_arith)
                requires
                    ad > 0,
                    bn < 0,
            ;
            normalize(-num, -den)
        } else {
            assert(ad * bn > 0) by (nonlinear_arith)
                requires
                    ad > 0,
                    bn > 0,
            ;
            normalize(num, den)
        }
    }

    /// The absolute value, or `None` where it does not fit.
    pub fn abs(self) -> (r: Option<Number>)
        ensures
            r == self.spec_abs(),
            r matches Some(x) ==> x.wf() && x.valid(),
    {
        let (n, d) = self.parts();
        if d <= 0 {
            return None;
        }
        let wide: i128 = n as i128;
        normalize(if wide < 0 { -wide } else { wide }, d as i128)
    }

    /// The integer quotient rounded towards zero.
    pub fn quotient(self, other: Number) -> (r: Option<Number>)
        ensures
            r == self.spec_quotient(other),
    {
        let (xn, xd) = self.parts();
        let (yn, yd) = other.parts();
        if xd != 1 || yd != 1 || yn == 0 {
            return None;
        }
        let q = magnitude(xn as i128) / magnitude(yn as i128);
        if (xn < 0) == (yn < 0) {
            if q > i64::MAX as u128 {
                None
            } else {
                Some(Number::Fixnum(q as i64))
            }
        } else {
            assert(q <= 0x8000_0000_0000_0000u128) by {
                vstd::arithmetic::div_mod::lemma_div_nonincreasing(abs(xn as int) as int, abs(yn as int) as int);
            }
            if q == 0x8000_0000_0000_0000u128 {
                Some(Number::Fixnum(i64::MIN))
            } else {
                Some(Number::Fixnum(-(q as i64)))
            }
        }
    }

    /// The remainder of the division rounded towards zero.
    pub fn remainder(self, other: Number) -> (r: Option<Number>)
        ensures
            r == self.spec_remainder(other),
    {
        let (xn, xd) = self.parts();
        let (yn, yd) = other.parts();
        if xd != 1 || yd != 1 || yn == 0 {
            return None;
        }
        let m = magnitude(xn as i128) % magnitude(yn as i128);
        assert(m < 0x8000_0000_0000_0000u128) by {
            vstd::arithmetic::div_mod::lemma_mod_decreases(abs(xn as int), abs(yn as int));
            vstd::arithmetic::div_mod::lemma_mod_pos_bound(abs(xn as int) as int, abs(yn as int) as int);
        }
        if xn < 0 {
            Some(Number::Fixnum(-(m as i64)))
        } else {
            Some(Number::Fixnum(m as i64))
        }
    }

    /// Whether both stand for the same rational number.
    pub fn same_value(self, other: Number) -> (b: bool)
        ensures
            b == self.spec_eq(other),
    {
        let (an, ad) = self.parts();
        let (bn, bd) = other.parts();
        wide_product(an, bd) == wide_product(bn, ad)
    }

    /// Whether `self` is the smaller of the two.
    pub fn less_than(self, other: Number) -> (b: bool)
        ensures
            b == self.spec_lt(other),
    {
        let (an, ad) = self.parts();
        let (bn, bd) = other.parts();
        wide_product(an, bd) < wide_product(bn, ad)
    }
}

/// Whether the 64 bits of a binary floating-point number of double
/// precision have the sign bit set.
pub open spec fn bits_negative(bits: u64) -> bool {
    bits >= 0x8000_0000_0000_0000
}

/// The exponent field of the 64 bits: the eleven bits below the sign.
pub open spec fn bits_exponent(bits: u64) -> int {
    ((bits / 0x10_0000_0000_0000) % 2048) as int
}

/// The fraction field of the 64 bits: the lowest 52 bits.
pub open spec fn bits_fraction(bits: u64) -> int {
    (bits % 0x10_0000_0000_0000) as int
}

/// The integer that the fraction field stands for, with the sign: a
/// number with an exponent field of zero has no leading one before its
/// fraction, every other has.
pub open spec fn bits_mantissa(bits: u64) -> int {
    let m = if bits_exponent(bits) == 0 {
        bits_fraction(bits)
    } else {
        bits_fraction(bits) + 0x10_0000_0000_0000
    };
    if bits_negative(bits) {
        -m
    } else {
        m
    }
}

/// The power of two by which the mantissa is to be multiplied.
pub open spec fn bits_power(bits: u64) -> int {
    if bits_exponent(bits) == 0 {
        -1074
    } else {
        bits_exponent(bits) - 1075
    }
}

/// The fraction that the 64 bits stand for, where they stand for a
/// number: mantissa times two to the power.
pub open spec fn bits_ratio(bits: u64) -> Ratio {
    if bits_power(bits) >= 0 {
        Ratio { num: bits_mantissa(bits) * pow2(bits_power(bits) as nat), den: 1 }
    } else {
        Ratio { num: bits_mantissa(bits), den: pow2((-bits_power(bits)) as nat) as int }
    }
}

/// The exact number that the 64 bits stand for: none for an infinity or
/// for what is not a number, whose exponent field is all ones, and none
/// where the fraction in lowest terms does not fit.
pub open spec fn exact_of(bits: u64) -> Option<Number> {
    if bits_exponent(bits) == 2047 {
        None
    } else {
        let q = reduce(bits_ratio(bits).num, bits_ratio(bits).den);
        if fits(q) {
            Some(number_of(q))
        } else {
            None
        }
    }
}

/// A whole number is in lowest terms over one.
pub proof fn lemma_reduce_whole(n: int)
    ensures
        reduce(n, 1) == (Ratio { num: n, den: 1 }),
{
    lemma_reduce(n, 1);
    let q = reduce(n, 1);
    assert(q.den == 1);
    assert(q.num == n) by (nonlinear_arith)
        requires
            q.num * 1 == n * q.den,
            q.den == 1,
    ;
}

/// Zero over anything positive is zero over one in lowest terms.
pub proof fn lemma_reduce_zero(d: int)
    requires
        d > 0,
    ensures
        reduce(0, d) == (Ratio { num: 0, den: 1 }),
{
    lemma_reduce(0, d);
    let q = reduce(0, d);
    assert(q.num == 0) by (nonlinear_arith)
        requires
            q.num * d == 0 * q.den,
            d > 0,
    ;
    assert(gcd(0nat, q.den as nat) == q.den) by {
        reveal_with_fuel(gcd, 3);
        vstd::arithmetic::div_mod::lemma_small_mod(0, q.den as nat);
    }
}

/// Some powers of two.
pub proof fn lemma_powers()
    ensures
        pow2(73) == 0x200_0000_0000_0000_0000,
        pow2(74) == 0x400_0000_0000_0000_0000,
        pow2(126) == 0x4000_0000_0000_0000_0000_0000_0000_0000,
        pow2(127) == 0x8000_0000_0000_0000_0000_0000_0000_0000,
{
    lemma2_to64();
    lemma2_to64_rest();
    lemma_pow2_adds(64, 9);
    lemma_pow2_adds(64, 10);
    lemma_pow2_adds(63, 63);
    lemma_pow2_adds(64, 63);
}

/// Two to a power of at most 126.
pub fn power_of_two(k: u64) -> (p: i128)
    requires
        k <= 126,
    ensures
        p == pow2(k as nat),
        0 < p <= 0x4000_0000_0000_0000_0000_0000_0000_0000,
{
    let mut p: i128 = 1;
    let mut i: u64 = 0;
    proof {
        lemma2_to64();
        lemma_powers();
    }
    while i < k
        invariant
            i <= k <= 126,
            p == pow2(i as nat),
            0 < p,
            pow2(126) == 0x4000_0000_0000_0000_0000_0000_0000_0000,
        decreases k - i,
    {
        proof {
            lemma_pow2_unfold((i + 1) as nat);
            if i + 1 < 126 {
                lemma_pow2_strictly_increases((i + 1) as nat, 126);
            }
        }
        p = p * 2;
        i = i + 1;
    }
    proof {
        if k < 126 {
            lemma_pow2_strictly_increases(k as nat, 126);
        }
    }
    p
}

/// The exact number that the 64 bits of a binary floating-point number of
/// double precision stand for.
pub fn exact_of_bits(bits: u64) -> (r: Option<Number>)
    ensures
        r == exact_of(bits),
        r matches Some(n) ==> n.wf() && n.valid() && n@.num * bits_ratio(bits).den == bits_ratio(
            bits,
        ).num * n@.den,
        r is None ==> bits_exponent(bits) == 2047 || !fits(
            reduce(bits_ratio(bits).num, bits_ratio(bits).den),
        ),
{
    proof {
        lemma_pow2_pos((-bits_power(bits)) as nat);
        if bits_ratio(bits).den > 0 {
            lemma_reduce(bits_ratio(bits).num, bits_ratio(bits).den);
        }
    }
    let exponent = (bits / 0x10_0000_0000_0000) % 2048;
    let fraction = bits % 0x10_0000_0000_0000;
    if exponent == 2047 {
        return None;
    }
    let mantissa: u64 = if exponent == 0 {
        fraction
    } else {
        fraction + 0x10_0000_0000_0000
    };
    let signed: i128 = if bits >= 0x8000_0000_0000_0000 {
        -(mantissa as i128)
    } else {
        mantissa as i128
    };
    assert(signed == bits_mantissa(bits));
    proof {
        lemma_powers();
    }
    if exponent >= 1075 {
        let power = exponent - 1075;
        proof {
            lemma_pow2_pos(power as nat);
        }
        if power > 73 {
            proof {
                let scale = pow2(power as nat) as int;
                if power > 74 {
                    lemma_pow2_strictly_increases(74, power as nat);
                }
                lemma_reduce_whole(signed * scale);
                assert(signed * scale > 0x7fff_ffff_ffff_ffff || signed * scale
                    < -0x8000_0000_0000_0000) by (nonlinear_arith)
                    requires
                        scale >= 0x400_0000_0000_0000_0000,
                        signed >= 0x10_0000_0000_0000 || signed <= -0x10_0000_0000_0000,
                ;
            }
            None
        } else {
            let scale = power_of_two(power);
            proof {
                if power < 73 {
                    lemma_pow2_strictly_increases(power as nat, 73);
                }
                assert(-0x4000_0000_0000_0000_0000_0000_0000_0000 < signed * scale
                    < 0x4000_0000_0000_0000_0000_0000_0000_0000) by (nonlinear_arith)
                    requires
                        0 < scale <= 0x200_0000_0000_0000_0000,
                        -0x20_0000_0000_0000 < signed < 0x20_0000_0000_0000,
                ;
            }
            normalize(signed * scale, 1)
        }
    } else {
        let k: u64 = if exponent == 0 {
            1074
        } else {
            1075 - exponent
        };
        assert(k == -bits_power(bits));
        proof {
            lemma_pow2_pos(k as nat);
        }
        if k > 126 {
            if mantissa == 0 {
                proof {
                    lemma_reduce_zero(pow2(k as nat) as int);
                }
                Some(Number::Fixnum(0))
            } else {
                proof {
                    let d = pow2(k as nat) as int;
                    if k > 127 {
                        lemma_pow2_strictly_increases(127, k as nat);
                    }
                    lemma_reduce(signed as int, d);
                    let q = reduce(signed as int, d);
                    let a = abs(signed as int) as int;
                    let b = abs(q.num) as int;
                    assert(b * d == a * q.den) by (nonlinear_arith)
                        requires
                            q.num * d == signed * q.den,
                            (signed >= 0 && q.num >= 0 && a == signed && b == q.num) || (signed
                                <= 0 && q.num <= 0 && a == -signed && b == -q.num),
                    ;
                    assert(q.den > 0x7fff_ffff_ffff_ffff) by (nonlinear_arith)
                        requires
                            b * d == a * q.den,
                            0 < a < 0x20_0000_0000_0000,
                            0 <= b,
                            q.den > 0,
                            d >= 0x8000_0000_0000_0000_0000_0000_0000_0000,
                    ;
                }
                None
            }
        } else {
            let scale = power_of_two(k);
            normalize(signed, scale)
        }
    }
}

} // verus!
