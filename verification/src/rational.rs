//! Exact rational arithmetic.
//!
//! Every coordinate and matrix entry of the rendering core is a rational
//! number: an `i64` numerator over a positive `i64` denominator. Products are
//! formed in `i128`, reduced by a common divisor, and narrowed back to `i64`;
//! an operation whose result cannot be narrowed reports `None` instead of
//! wrapping. Specifications speak about `Ratio`, the mathematical value of a
//! rational, where arithmetic is over unbounded integers.

use vstd::arithmetic::div_mod::*;
use vstd::prelude::*;

verus! {

/// The mathematical value of a rational: numerator and denominator as
/// unbounded integers.
pub ghost struct Ratio {
    pub n: int,
    pub d: int,
}

/// A well-formed value: positive denominator, and a numerator that stays
/// strictly above `i64::MIN`, so that negation is always possible.
pub open spec fn rwf(a: Ratio) -> bool {
    1 <= a.d <= i64::MAX && -(i64::MAX as int) <= a.n <= i64::MAX as int
}

/// Equality of rational values by cross multiplication. Sound whenever both
/// denominators are nonzero.
pub open spec fn req(a: Ratio, b: Ratio) -> bool {
    a.n * b.d == b.n * a.d
}

/// `a <= b` by cross multiplication. Sound whenever both denominators are
/// positive.
pub open spec fn rle(a: Ratio, b: Ratio) -> bool {
    a.n * b.d <= b.n * a.d
}

/// `a < b` by cross multiplication. Sound whenever both denominators are
/// positive.
pub open spec fn rlt(a: Ratio, b: Ratio) -> bool {
    a.n * b.d < b.n * a.d
}

pub open spec fn radd(a: Ratio, b: Ratio) -> Ratio {
    Ratio { n: a.n * b.d + b.n * a.d, d: a.d * b.d }
}

pub open spec fn rmul(a: Ratio, b: Ratio) -> Ratio {
    Ratio { n: a.n * b.n, d: a.d * b.d }
}

pub open spec fn rneg(a: Ratio) -> Ratio {
    Ratio { n: -a.n, d: a.d }
}

pub open spec fn rsub(a: Ratio, b: Ratio) -> Ratio {
    radd(a, rneg(b))
}

/// `a / b`; meaningful only when `b.n != 0`. The resulting denominator can be
/// negative, which `req`, but not `rle`, tolerates.
pub open spec fn rdiv(a: Ratio, b: Ratio) -> Ratio {
    Ratio { n: a.n * b.d, d: a.d * b.n }
}

pub open spec fn rabs(a: Ratio) -> Ratio {
    if a.n < 0 {
        rneg(a)
    } else {
        a
    }
}

pub open spec fn rzero() -> Ratio {
    Ratio { n: 0, d: 1 }
}

pub open spec fn rone() -> Ratio {
    Ratio { n: 1, d: 1 }
}

/// The integer `n` as a rational value.
pub open spec fn rint(n: int) -> Ratio {
    Ratio { n: n, d: 1 }
}

/// The raw sum of `a` and `b` narrows to `i64` without reduction. Under this
/// condition `rat_add` is guaranteed to succeed.
pub open spec fn radd_fits(a: Ratio, b: Ratio) -> bool {
    &&& -(i64::MAX as int) <= a.n * b.d + b.n * a.d <= i64::MAX as int
    &&& a.d * b.d <= i64::MAX as int
}

/// The raw product of `a` and `b` narrows to `i64` without reduction. Under
/// this condition `rat_mul` is guaranteed to succeed.
pub open spec fn rmul_fits(a: Ratio, b: Ratio) -> bool {
    &&& -(i64::MAX as int) <= a.n * b.n <= i64::MAX as int
    &&& a.d * b.d <= i64::MAX as int
}

/// The raw quotient of `a` by `b` narrows to `i64` without reduction. Under
/// this condition `rat_div` is guaranteed to succeed.
pub open spec fn rdiv_fits(a: Ratio, b: Ratio) -> bool {
    &&& -(i64::MAX as int) <= a.n * b.d <= i64::MAX as int
    &&& -(i64::MAX as int) <= a.d * b.n <= i64::MAX as int
}

/// What reduction guarantees about a computed sum: the representation never
/// grows past the cross-multiplied raw form.
pub open spec fn radd_rep_bound(q: Ratio, a: Ratio, b: Ratio) -> bool {
    &&& q.d <= a.d * b.d
    &&& a.n * b.d + b.n * a.d >= 0 ==> 0 <= q.n <= a.n * b.d + b.n * a.d
    &&& a.n * b.d + b.n * a.d < 0 ==> a.n * b.d + b.n * a.d <= q.n <= 0
}

/// Executable rational number; see `Ratio` for the value it denotes.
#[derive(Clone, Copy, Debug, PartialEq, Eq, Structural)]
pub struct Rat {
    pub n: i64,
    pub d: i64,
}

impl View for Rat {
    type V = Ratio;

    open spec fn view(&self) -> Ratio {
        Ratio { n: self.n as int, d: self.d as int }
    }
}

/// Greatest-common-divisor style reducer: the result divides both arguments
/// and is at least 1 when either argument is.
fn gcd_u128(a: u128, b: u128) -> (g: u128)
    requires
        a >= 1 || b >= 1,
    ensures
        g >= 1,
        a % g == 0,
        b % g == 0,
    decreases b,
{
    if b == 0 {
        proof {
            lemma_mod_self_0(a as int);
            assert(0int % (a as int) == 0) by {
                lemma_small_mod(0nat, a as nat);
            }
        }
        a
    } else {
        let r: u128 = a % b;
        let g = gcd_u128(b, r);
        proof {
            lemma_fundamental_div_mod(a as int, b as int);
            lemma_fundamental_div_mod(b as int, g as int);
            lemma_fundamental_div_mod(r as int, g as int);
            let q = a as int / b as int;
            let kb = b as int / g as int;
            let kr = r as int / g as int;
            assert(a as int == (q * kb + kr) * g) by (nonlinear_arith)
                requires
                    a as int == (b as int) * q + r as int,
                    b as int == (g as int) * kb + 0,
                    r as int == (g as int) * kr + 0,
            ;
            lemma_mod_multiples_basic(q * kb + kr, g as int);
        }
        g
    }
}

/// Widening product of two `i64` values, exact in `i128`.
pub fn mul_wide(x: i64, y: i64) -> (r: i128)
    ensures
        r as int == x as int * y as int,
{
    proof {
        assert(i128::MIN as int <= x as int * y as int <= i128::MAX as int) by (nonlinear_arith)
            requires
                i64::MIN as int <= x as int <= i64::MAX as int,
                i64::MIN as int <= y as int <= i64::MAX as int,
        ;
    }
    (x as i128) * (y as i128)
}

/// Bound on a widening product, for overflow reasoning at call sites.
proof fn lemma_wide_bound(x: int, y: int)
    requires
        -(i64::MAX as int) <= x <= i64::MAX as int,
        -(i64::MAX as int) <= y <= i64::MAX as int,
    ensures
        -(i64::MAX as int * i64::MAX as int) <= x * y <= i64::MAX as int * i64::MAX as int,
{
    assert(-(0x7fffffffffffffff * 0x7fffffffffffffff) <= x * y <= 0x7fffffffffffffff
        * 0x7fffffffffffffff) by (nonlinear_arith)
        requires
            -0x7fffffffffffffff <= x <= 0x7fffffffffffffff,
            -0x7fffffffffffffff <= y <= 0x7fffffffffffffff,
    ;
}

/// The product of two positive denominators is positive.
pub proof fn lemma_den_product(x: int, y: int)
    requires
        1 <= x,
        1 <= y,
    ensures
        1 <= x * y,
{
    assert(1 <= x * y) by (nonlinear_arith)
        requires
            1 <= x,
            1 <= y,
    ;
}

/// Absolute value of an `i128`, as a `u128`; total, even at `i128::MIN`.
fn abs_i128(n: i128) -> (r: u128)
    ensures
        n >= 0 ==> r == n,
        n < 0 ==> r == -(n as int),
{
    if n >= 0 {
        n as u128
    } else {
        ((-1i128 - n) as u128) + 1
    }
}

/// Reduce the fraction `n / d` by a common divisor and narrow it to `Rat`.
/// Fails only when even the reduced numerator or denominator exceeds `i64`.
pub(crate) fn reduce128(n: i128, d: i128) -> (r: Option<Rat>)
    requires
        1 <= d,
    ensures
        r matches Some(q) ==> rwf(q@) && req(q@, Ratio { n: n as int, d: d as int }),
        r matches Some(q) ==> q@.d <= d as int && (n >= 0 ==> 0 <= q@.n <= n as int) && (n < 0
            ==> n as int <= q@.n <= 0),
        -(i64::MAX as int) <= n <= i64::MAX as int && d <= i64::MAX as int ==> r.is_some(),
{
    let un: u128 = abs_i128(n);
    let ud: u128 = d as u128;
    let g: u128 = gcd_u128(un, ud);
    let rn: u128 = un / g;
    let rd: u128 = ud / g;
    proof {
        lemma_fundamental_div_mod(un as int, g as int);
        lemma_fundamental_div_mod(ud as int, g as int);
        // un == g * rn and ud == g * rd, so the reduced pair keeps the value
        // and never grows.
        assert(rn <= un && rd <= ud && 1 <= rd) by (nonlinear_arith)
            requires
                un as int == (g as int) * (rn as int) + 0,
                ud as int == (g as int) * (rd as int) + 0,
                g >= 1,
                ud >= 1,
        ;
        assert((rn as int) * (ud as int) == (un as int) * (rd as int)) by (nonlinear_arith)
            requires
                un as int == (g as int) * (rn as int),
                ud as int == (g as int) * (rd as int),
        ;
    }
    if rn <= i64::MAX as u128 && rd <= i64::MAX as u128 {
        let num: i64 = if n < 0 {
            -(rn as i64)
        } else {
            rn as i64
        };
        let q = Rat { n: num, d: rd as i64 };
        proof {
            assert(q@.n * (d as int) == (n as int) * q@.d) by (nonlinear_arith)
                requires
                    (rn as int) * (ud as int) == (un as int) * (rd as int),
                    ud as int == d as int,
                    q@.d == rd as int,
                    n >= 0 ==> un == n as int && q@.n == rn as int,
                    n < 0 ==> un == -(n as int) && q@.n == -(rn as int),
            ;
        }
        Some(q)
    } else {
        None
    }
}

/// Checked `i128` product.
pub(crate) fn cmul(a: i128, b: i128) -> (r: Option<i128>)
    ensures
        r matches Some(v) ==> v as int == a as int * b as int,
        i128::MIN as int <= a as int * b as int <= i128::MAX as int ==> r.is_some(),
{
    a.checked_mul(b)
}

/// Checked `i128` sum.
pub(crate) fn cadd(a: i128, b: i128) -> (r: Option<i128>)
    ensures
        r matches Some(v) ==> v as int == a as int + b as int,
        i128::MIN as int <= a as int + b as int <= i128::MAX as int ==> r.is_some(),
{
    a.checked_add(b)
}

/// Checked `i128` difference.
pub(crate) fn csub(a: i128, b: i128) -> (r: Option<i128>)
    ensures
        r matches Some(v) ==> v as int == a as int - b as int,
        i128::MIN as int <= a as int - b as int <= i128::MAX as int ==> r.is_some(),
{
    a.checked_sub(b)
}

/// Like `reduce128`, but accepts a negative denominator by negating both
/// parts first.
pub(crate) fn reduce_signed(n: i128, d: i128) -> (r: Option<Rat>)
    requires
        d != 0,
    ensures
        r matches Some(q) ==> rwf(q@) && req(q@, Ratio { n: n as int, d: d as int }),
        -(i64::MAX as int) <= n <= i64::MAX as int && -(i64::MAX as int) <= d <= i64::MAX as int
            ==> r.is_some(),
{
    if d >= 1 {
        reduce128(n, d)
    } else {
        let n2 = match csub(0, n) {
            Some(v) => v,
            None => {
                return None;
            },
        };
        let d2 = match csub(0, d) {
            Some(v) => v,
            None => {
                return None;
            },
        };
        let r = reduce128(n2, d2);
        proof {
            let mid = Ratio { n: n2 as int, d: d2 as int };
            let raw = Ratio { n: n as int, d: d as int };
            assert(mid.n * raw.d == raw.n * mid.d) by (nonlinear_arith)
                requires
                    mid.n == -raw.n,
                    mid.d == -raw.d,
            ;
            if let Some(q) = r {
                lemma_req_trans(q@, mid, raw);
            }
        }
        r
    }
}

/// Sum of two fractions over one denominator collapses back to it.
pub proof fn lemma_radd_same_den(x: int, y: int, d: int)
    requires
        d != 0,
    ensures
        req(radd(Ratio { n: x, d: d }, Ratio { n: y, d: d }), Ratio { n: x + y, d: d }),
{
    assert((x * d + y * d) * d == (x + y) * (d * d)) by (nonlinear_arith);
}

impl Rat {
    /// The rational `n / d`. The denominator must be positive; values with a
    /// negative denominator can be written by negating the numerator.
    pub fn new(n: i64, d: i64) -> (r: Rat)
        requires
            1 <= d,
            -(i64::MAX as int) <= n as int,
        ensures
            rwf(r@),
            req(r@, Ratio { n: n as int, d: d as int }),
    {
        let r = reduce128(n as i128, d as i128);
        match r {
            Some(q) => q,
            None => {
                proof {
                    assert(false);
                }
                Rat { n: 0, d: 1 }
            },
        }
    }

    /// The integer `n` as a rational.
    pub fn from_int(n: i64) -> (r: Rat)
        requires
            -(i64::MAX as int) <= n as int,
        ensures
            rwf(r@),
            r@ == rint(n as int),
    {
        Rat { n: n, d: 1 }
    }

    /// The rational zero.
    pub fn zero() -> (r: Rat)
        ensures
            rwf(r@),
            r@ == rzero(),
    {
        Rat { n: 0, d: 1 }
    }

    /// The rational one.
    pub fn one() -> (r: Rat)
        ensures
            rwf(r@),
            r@ == rone(),
    {
        Rat { n: 1, d: 1 }
    }

    /// The numerator of the stored representation.
    pub fn num(&self) -> (r: i64)
        ensures
            r as int == self@.n,
    {
        self.n
    }

    /// The denominator of the stored representation.
    pub fn den(&self) -> (r: i64)
        ensures
            r as int == self@.d,
    {
        self.d
    }
}

/// Sum of two rationals; `None` only when the reduced result leaves `i64`.
pub fn rat_add(a: Rat, b: Rat) -> (r: Option<Rat>)
    requires
        rwf(a@),
        rwf(b@),
    ensures
        r matches Some(q) ==> rwf(q@) && req(q@, radd(a@, b@)),
        r matches Some(q) ==> radd_rep_bound(q@, a@, b@),
        radd_fits(a@, b@) ==> r.is_some(),
{
    if a.d == b.d {
        // Same denominator: add numerators directly; the raw form
        // `(a.n + b.n) / d` has the same value as the cross-multiplied sum.
        let num: i128 = a.n as i128 + b.n as i128;
        let r = reduce128(num, a.d as i128);
        proof {
            let mid = Ratio { n: num as int, d: a@.d };
            assert(mid.n * radd(a@, b@).d == radd(a@, b@).n * mid.d) by (nonlinear_arith)
                requires
                    mid.n == a@.n + b@.n,
                    mid.d == a@.d,
                    a@.d == b@.d,
                    radd(a@, b@).n == a@.n * b@.d + b@.n * a@.d,
                    radd(a@, b@).d == a@.d * b@.d,
            ;
            if let Some(q) = r {
                lemma_req_trans(q@, mid, radd(a@, b@));
            }
            if radd_fits(a@, b@) {
                assert(-(i64::MAX as int) <= a@.n + b@.n <= i64::MAX as int) by (nonlinear_arith)
                    requires
                        -(i64::MAX as int) <= a@.n * b@.d + b@.n * a@.d <= i64::MAX as int,
                        a@.d == b@.d,
                        1 <= a@.d,
                ;
            }
            if let Some(q) = r {
                // The reduced sum never grows past the cross-multiplied one.
                assert(q@.d <= a@.d * b@.d && (a@.n * b@.d + b@.n * a@.d >= 0 ==> 0 <= q@.n <= a@.n
                    * b@.d + b@.n * a@.d) && (a@.n * b@.d + b@.n * a@.d < 0 ==> a@.n * b@.d + b@.n
                    * a@.d <= q@.n <= 0)) by (nonlinear_arith)
                    requires
                        a@.d == b@.d,
                        1 <= a@.d <= i64::MAX as int,
                        q@.d <= a@.d,
                        a@.n + b@.n >= 0 ==> 0 <= q@.n <= a@.n + b@.n,
                        a@.n + b@.n < 0 ==> a@.n + b@.n <= q@.n <= 0,
                ;
            }
        }
        r
    } else {
        proof {
            lemma_wide_bound(a@.n, b@.d);
            lemma_wide_bound(b@.n, a@.d);
            lemma_den_product(a@.d, b@.d);
        }
        let num: i128 = mul_wide(a.n, b.d) + mul_wide(b.n, a.d);
        let den: i128 = mul_wide(a.d, b.d);
        reduce128(num, den)
    }
}

/// Product of two rationals; `None` only when the reduced result leaves
/// `i64`.
pub fn rat_mul(a: Rat, b: Rat) -> (r: Option<Rat>)
    requires
        rwf(a@),
        rwf(b@),
    ensures
        r matches Some(q) ==> rwf(q@) && req(q@, rmul(a@, b@)),
        r matches Some(q) ==> q@.d <= a@.d * b@.d && (a@.n * b@.n >= 0 ==> 0 <= q@.n <= a@.n
            * b@.n) && (a@.n * b@.n < 0 ==> a@.n * b@.n <= q@.n <= 0),
        rmul_fits(a@, b@) ==> r.is_some(),
{
    proof {
        lemma_den_product(a@.d, b@.d);
    }
    let num: i128 = mul_wide(a.n, b.n);
    let den: i128 = mul_wide(a.d, b.d);
    reduce128(num, den)
}

/// Negation; always succeeds thanks to the well-formedness bound on
/// numerators.
pub fn rat_neg(a: Rat) -> (r: Rat)
    requires
        rwf(a@),
    ensures
        rwf(r@),
        r@ == rneg(a@),
{
    Rat { n: -a.n, d: a.d }
}

/// Difference of two rationals.
pub fn rat_sub(a: Rat, b: Rat) -> (r: Option<Rat>)
    requires
        rwf(a@),
        rwf(b@),
    ensures
        r matches Some(q) ==> rwf(q@) && req(q@, rsub(a@, b@)),
        radd_fits(a@, rneg(b@)) ==> r.is_some(),
{
    rat_add(a, rat_neg(b))
}

/// Quotient `a / b` for nonzero `b`; `None` only when the reduced result
/// leaves `i64`.
pub fn rat_div(a: Rat, b: Rat) -> (r: Option<Rat>)
    requires
        rwf(a@),
        rwf(b@),
        b@.n != 0,
    ensures
        r matches Some(q) ==> rwf(q@) && req(q@, rdiv(a@, b@)),
        rdiv_fits(a@, b@) ==> r.is_some(),
{
    proof {
        lemma_wide_bound(a@.n, b@.d);
        lemma_wide_bound(a@.d, b@.n);
    }
    let num0: i128 = mul_wide(a.n, b.d);
    let den0: i128 = mul_wide(a.d, b.n);
    proof {
        assert(den0 != 0) by (nonlinear_arith)
            requires
                den0 as int == a@.d * b@.n,
                a@.d >= 1,
                b@.n != 0,
        ;
    }
    let (num, den): (i128, i128) = if den0 < 0 {
        (-num0, -den0)
    } else {
        (num0, den0)
    };
    let r = reduce128(num, den);
    proof {
        let raw = rdiv(a@, b@);
        let mid = Ratio { n: num as int, d: den as int };
        assert(mid.n * raw.d == raw.n * mid.d) by (nonlinear_arith)
            requires
                (mid.n == raw.n && mid.d == raw.d) || (mid.n == -raw.n && mid.d == -raw.d),
        ;
        if let Some(q) = r {
            lemma_req_trans(q@, mid, raw);
        }
    }
    r
}

/// Absolute value.
pub fn rat_abs(a: Rat) -> (r: Rat)
    requires
        rwf(a@),
    ensures
        rwf(r@),
        r@ == rabs(a@),
{
    if a.n < 0 {
        Rat { n: -a.n, d: a.d }
    } else {
        a
    }
}

/// Exact comparison `a <= b`.
pub fn rat_le(a: Rat, b: Rat) -> (r: bool)
    requires
        rwf(a@),
        rwf(b@),
    ensures
        r == rle(a@, b@),
{
    mul_wide(a.n, b.d) <= mul_wide(b.n, a.d)
}

/// Exact comparison `a < b`.
pub fn rat_lt(a: Rat, b: Rat) -> (r: bool)
    requires
        rwf(a@),
        rwf(b@),
    ensures
        r == rlt(a@, b@),
{
    mul_wide(a.n, b.d) < mul_wide(b.n, a.d)
}

/// Exact value equality, independent of representation.
pub fn rat_value_eq(a: Rat, b: Rat) -> (r: bool)
    requires
        rwf(a@),
        rwf(b@),
    ensures
        r == req(a@, b@),
{
    mul_wide(a.n, b.d) == mul_wide(b.n, a.d)
}

/// Whether the value is zero.
pub fn rat_is_zero(a: Rat) -> (r: bool)
    requires
        rwf(a@),
    ensures
        r == (a@.n == 0),
        r == req(a@, rzero()),
{
    proof {
        assert((a@.n == 0) == (a@.n * 1 == 0 * a@.d)) by (nonlinear_arith);
    }
    a.n == 0
}

/// Value equality is reflexive.
pub proof fn lemma_req_refl(a: Ratio)
    ensures
        req(a, a),
{
}

/// Value equality is symmetric.
pub proof fn lemma_req_sym(a: Ratio, b: Ratio)
    requires
        req(a, b),
    ensures
        req(b, a),
{
}

/// Value equality is transitive when the middle denominator is nonzero.
pub proof fn lemma_req_trans(a: Ratio, b: Ratio, c: Ratio)
    requires
        req(a, b),
        req(b, c),
        b.d != 0,
    ensures
        req(a, c),
{
    assert(a.n * c.d == c.n * a.d) by (nonlinear_arith)
        requires
            a.n * b.d == b.n * a.d,
            b.n * c.d == c.n * b.d,
            b.d != 0,
    ;
}

/// Addition respects value equality.
pub proof fn lemma_req_add(a: Ratio, b: Ratio, x: Ratio, y: Ratio)
    requires
        req(a, x),
        req(b, y),
    ensures
        req(radd(a, b), radd(x, y)),
{
    // Walk each cross product through reassociation and one substitution.
    assert((a.n * b.d) * (x.d * y.d) == (a.n * x.d) * (b.d * y.d)) by (nonlinear_arith);
    assert((a.n * x.d) * (b.d * y.d) == (x.n * a.d) * (b.d * y.d));
    assert((x.n * a.d) * (b.d * y.d) == (x.n * y.d) * (a.d * b.d)) by (nonlinear_arith);
    assert((b.n * a.d) * (x.d * y.d) == (b.n * y.d) * (a.d * x.d)) by (nonlinear_arith);
    assert((b.n * y.d) * (a.d * x.d) == (y.n * b.d) * (a.d * x.d));
    assert((y.n * b.d) * (a.d * x.d) == (y.n * x.d) * (a.d * b.d)) by (nonlinear_arith);
    assert((a.n * b.d + b.n * a.d) * (x.d * y.d) == (a.n * b.d) * (x.d * y.d) + (b.n * a.d) * (x.d
        * y.d)) by (nonlinear_arith);
    assert((x.n * y.d + y.n * x.d) * (a.d * b.d) == (x.n * y.d) * (a.d * b.d) + (y.n * x.d) * (a.d
        * b.d)) by (nonlinear_arith);
}

/// Multiplication respects value equality.
pub proof fn lemma_req_mul(a: Ratio, b: Ratio, x: Ratio, y: Ratio)
    requires
        req(a, x),
        req(b, y),
    ensures
        req(rmul(a, b), rmul(x, y)),
{
    assert((a.n * b.n) * (x.d * y.d) == (x.n * y.n) * (a.d * b.d)) by (nonlinear_arith)
        requires
            a.n * x.d == x.n * a.d,
            b.n * y.d == y.n * b.d,
    ;
}

/// Negation respects value equality.
pub proof fn lemma_req_neg(a: Ratio, x: Ratio)
    requires
        req(a, x),
    ensures
        req(rneg(a), rneg(x)),
{
    assert((-a.n) * x.d == (-x.n) * a.d) by (nonlinear_arith)
        requires
            a.n * x.d == x.n * a.d,
    ;
}

/// Subtraction respects value equality.
pub proof fn lemma_req_sub(a: Ratio, b: Ratio, x: Ratio, y: Ratio)
    requires
        req(a, x),
        req(b, y),
    ensures
        req(rsub(a, b), rsub(x, y)),
{
    lemma_req_neg(b, y);
    lemma_req_add(a, rneg(b), x, rneg(y));
}

/// The ordering `rle` respects value equality, for positive denominators.
pub proof fn lemma_rle_req(a: Ratio, b: Ratio, x: Ratio, y: Ratio)
    requires
        req(a, x),
        req(b, y),
        a.d >= 1,
        b.d >= 1,
        x.d >= 1,
        y.d >= 1,
    ensures
        rle(a, b) == rle(x, y),
        rlt(a, b) == rlt(x, y),
{
    assert((a.n * b.d <= b.n * a.d) == (x.n * y.d <= y.n * x.d) && (a.n * b.d < b.n * a.d) == (
    x.n * y.d < y.n * x.d)) by (nonlinear_arith)
        requires
            a.n * x.d == x.n * a.d,
            b.n * y.d == y.n * b.d,
            a.d >= 1,
            b.d >= 1,
            x.d >= 1,
            y.d >= 1,
    ;
}

/// Division respects value equality.
pub proof fn lemma_req_div(a: Ratio, b: Ratio, x: Ratio, y: Ratio)
    requires
        req(a, x),
        req(b, y),
    ensures
        req(rdiv(a, b), rdiv(x, y)),
{
    assert((a.n * b.d) * (x.d * y.n) == (x.n * y.d) * (a.d * b.n)) by (nonlinear_arith)
        requires
            a.n * x.d == x.n * a.d,
            b.n * y.d == y.n * b.d,
    ;
}

/// The ordering `rle` is transitive over well-formed values.
pub proof fn lemma_rle_trans(a: Ratio, b: Ratio, c: Ratio)
    requires
        rle(a, b),
        rle(b, c),
        rwf(a),
        rwf(b),
        rwf(c),
    ensures
        rle(a, c),
{
    assert(a.n * c.d <= c.n * a.d) by (nonlinear_arith)
        requires
            a.n * b.d <= b.n * a.d,
            b.n * c.d <= c.n * b.d,
            a.d >= 1,
            b.d >= 1,
            c.d >= 1,
    ;
}

/// Scaling numerator and denominator by the same nonzero factor keeps the
/// value.
pub proof fn lemma_req_scale(a: Ratio, k: int)
    requires
        k != 0,
    ensures
        req(a, Ratio { n: a.n * k, d: a.d * k }),
{
    assert(a.n * (a.d * k) == (a.n * k) * a.d) by (nonlinear_arith);
}

} // verus!
