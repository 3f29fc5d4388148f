//! Affine-transform algebra over exact rational scalars.
//!
//! A transform holds six integer entries and one positive common
//! denominator `den`, and stands for the real matrix
//! `(1/den) * [[a, c, e], [b, d, f]]`. Points are kept in homogeneous
//! form `(x, y, w)` with `w >= 1`, standing for `(x/w, y/w)`. All
//! arithmetic is exact: an operation either returns the mathematically
//! exact result or reports that it does not fit in 64 bits.

use vstd::prelude::*;

verus! {

/// An exact rational scalar `num / den` with `den >= 1`.
#[derive(Debug, Clone, Copy, PartialEq, Eq, Structural)]
pub struct Scalar {
    pub num: i64,
    pub den: i64,
}

/// Mathematical (unbounded) model of a transform: six entries over a
/// common denominator.
pub ghost struct TransformModel {
    pub a: int,
    pub b: int,
    pub c: int,
    pub d: int,
    pub e: int,
    pub f: int,
    pub den: int,
}

/// Mathematical model of a homogeneous point.
pub ghost struct PointModel {
    pub x: int,
    pub y: int,
    pub w: int,
}

/// A homogeneous point `(x/w, y/w)` with `w >= 1`.
#[derive(Debug, Clone, Copy, PartialEq, Eq, Structural)]
pub struct HPoint {
    pub x: i64,
    pub y: i64,
    pub w: i64,
}

/// An affine transform `(1/den) * [[a, c, e], [b, d, f]]` with `den >= 1`.
#[derive(Debug, Clone, Copy, PartialEq, Eq, Structural)]
pub struct Transform {
    pub a: i64,
    pub b: i64,
    pub c: i64,
    pub d: i64,
    pub e: i64,
    pub f: i64,
    pub den: i64,
}

/// An axis-aligned rectangle with rational position and size.
#[derive(Debug, Clone, Copy, PartialEq, Eq, Structural)]
pub struct Rect {
    pub x: Scalar,
    pub y: Scalar,
    pub width: Scalar,
    pub height: Scalar,
}

impl Rect {
    pub open spec fn wf(self) -> bool {
        self.x.wf() && self.y.wf() && self.width.wf() && self.height.wf()
    }
}

impl Scalar {
    pub open spec fn wf(self) -> bool {
        self.den >= 1
    }

    /// Two scalars denote the same rational.
    pub open spec fn eqv(self, o: Scalar) -> bool {
        self.num * o.den == o.num * self.den
    }

    pub fn from_int(n: i64) -> (r: Scalar)
        ensures
            r.num == n,
            r.den == 1,
            r.wf(),
    {
        Scalar { num: n, den: 1 }
    }

    pub fn new(num: i64, den: i64) -> (r: Scalar)
        requires
            den >= 1,
        ensures
            r.num == num,
            r.den == den,
            r.wf(),
    {
        Scalar { num, den }
    }

    /// Exact product; `None` exactly when it does not fit.
    pub fn checked_mul(self, o: Scalar) -> (r: Option<Scalar>)
        requires
            self.wf(),
            o.wf(),
        ensures
            r is Some <==> mul_in_range(self, o),
            match r {
                Some(s) => s.wf() && s.num == self.num * o.num && s.den == self.den * o.den,
                None => true,
            },
    {
        let n = self.num.checked_mul(o.num)?;
        let d = self.den.checked_mul(o.den)?;
        proof {
            lemma_pos_prod(self.den as int, o.den as int);
        }
        Some(Scalar { num: n, den: d })
    }

    /// Exact sum; `None` exactly when a part of it does not fit.
    pub fn checked_add(self, o: Scalar) -> (r: Option<Scalar>)
        requires
            self.wf(),
            o.wf(),
        ensures
            r is Some <==> add_in_range(self, o),
            match r {
                Some(s) => s.wf() && s.num == self.num * o.den + o.num * self.den && s.den
                    == self.den * o.den,
                None => true,
            },
    {
        let p1 = self.num.checked_mul(o.den)?;
        let p2 = o.num.checked_mul(self.den)?;
        let n = p1.checked_add(p2)?;
        let d = self.den.checked_mul(o.den)?;
        proof {
            lemma_pos_prod(self.den as int, o.den as int);
        }
        Some(Scalar { num: n, den: d })
    }

    /// Exact difference; `None` exactly when a part of it does not fit.
    pub fn checked_sub(self, o: Scalar) -> (r: Option<Scalar>)
        requires
            self.wf(),
            o.wf(),
        ensures
            r is Some <==> sub_in_range(self, o),
            match r {
                Some(s) => s.wf() && s.num == self.num * o.den - o.num * self.den && s.den
                    == self.den * o.den,
                None => true,
            },
    {
        let p1 = self.num.checked_mul(o.den)?;
        let p2 = o.num.checked_mul(self.den)?;
        let n = p1.checked_sub(p2)?;
        let d = self.den.checked_mul(o.den)?;
        proof {
            lemma_pos_prod(self.den as int, o.den as int);
        }
        Some(Scalar { num: n, den: d })
    }

    /// Exact negation; `None` only at the far end of the range.
    pub fn checked_neg(self) -> (r: Option<Scalar>)
        requires
            self.wf(),
        ensures
            r is Some <==> self.num != i64::MIN,
            match r {
                Some(s) => s.wf() && s.num == -self.num && s.den == self.den,
                None => true,
            },
    {
        let n = self.num.checked_mul(-1)?;
        Some(Scalar { num: n, den: self.den })
    }

    /// Exact quotient; `None` when the divisor is zero or a part does
    /// not fit. The result keeps a positive denominator.
    pub fn checked_div(self, o: Scalar) -> (r: Option<Scalar>)
        requires
            self.wf(),
            o.wf(),
        ensures
            r is Some <==> div_in_range(self, o),
            match r {
                Some(s) => {
                    &&& s.wf()
                    &&& s.num * (self.den * o.num) == (self.num * o.den) * s.den
                    &&& (o.num > 0 ==> s.num == self.num * o.den && s.den == self.den * o.num)
                    &&& (o.num < 0 ==> s.num == -(self.num * o.den) && s.den == -(self.den
                        * o.num))
                },
                None => true,
            },
    {
        if o.num == 0 {
            return None;
        }
        let n = self.num.checked_mul(o.den)?;
        let d = self.den.checked_mul(o.num)?;
        if o.num > 0 {
            assert(d >= 1) by (nonlinear_arith)
                requires
                    d == self.den * o.num,
                    self.den >= 1,
                    o.num >= 1,
            ;
            Some(Scalar { num: n, den: d })
        } else {
            let n2 = n.checked_mul(-1)?;
            let d2 = d.checked_mul(-1)?;
            assert(d2 >= 1) by (nonlinear_arith)
                requires
                    d2 == -(self.den * o.num),
                    self.den >= 1,
                    o.num <= -1,
            ;
            assert(n2 * (self.den * o.num) == (self.num * o.den) * d2) by (nonlinear_arith)
                requires
                    n2 == -n,
                    d2 == -d,
                    n == self.num * o.den,
                    d == self.den * o.num,
            ;
            Some(Scalar { num: n2, den: d2 })
        }
    }

    /// Whether the scalar denotes zero.
    pub fn is_zero(self) -> (r: bool)
        requires
            self.wf(),
        ensures
            r <==> self.num == 0,
    {
        self.num == 0
    }

    /// Exact value comparison of two rationals (never overflows: it
    /// compares 128-bit cross products).
    pub fn eq_value(self, o: Scalar) -> (r: bool)
        requires
            self.wf(),
            o.wf(),
        ensures
            r <==> self.eqv(o),
    {
        proof {
            lemma_i64_prod_bounds(self.num as int, o.den as int);
            lemma_i64_prod_bounds(o.num as int, self.den as int);
        }
        let l: i128 = (self.num as i128) * (o.den as i128);
        let rr: i128 = (o.num as i128) * (self.den as i128);
        l == rr
    }

    /// Exact `self >= o` on rational values.
    pub fn ge_value(self, o: Scalar) -> (r: bool)
        requires
            self.wf(),
            o.wf(),
        ensures
            r <==> self.num * o.den >= o.num * self.den,
    {
        proof {
            lemma_i64_prod_bounds(self.num as int, o.den as int);
            lemma_i64_prod_bounds(o.num as int, self.den as int);
        }
        let l: i128 = (self.num as i128) * (o.den as i128);
        let rr: i128 = (o.num as i128) * (self.den as i128);
        l >= rr
    }
}

/// Whether an unbounded integer fits in `i64`.
pub open spec fn in_i64(v: int) -> bool {
    i64::MIN <= v <= i64::MAX
}

/// Whether the exact product of two scalars fits: both the numerator
/// and the denominator products stay in `i64`.
pub open spec fn mul_in_range(a: Scalar, b: Scalar) -> bool {
    in_i64(a.num * b.num) && in_i64(a.den * b.den)
}

/// Whether the exact sum of two scalars fits: both cross products, the
/// numerator sum, and the denominator product stay in `i64`.
pub open spec fn add_in_range(a: Scalar, b: Scalar) -> bool {
    &&& in_i64(a.num * b.den)
    &&& in_i64(b.num * a.den)
    &&& in_i64(a.num * b.den + b.num * a.den)
    &&& in_i64(a.den * b.den)
}

/// Whether the exact difference of two scalars fits.
pub open spec fn sub_in_range(a: Scalar, b: Scalar) -> bool {
    &&& in_i64(a.num * b.den)
    &&& in_i64(b.num * a.den)
    &&& in_i64(a.num * b.den - b.num * a.den)
    &&& in_i64(a.den * b.den)
}

/// Whether the exact quotient of two scalars is defined and fits: the
/// divisor is nonzero, both cross products stay in `i64`, and for a
/// negative divisor their negations do too.
pub open spec fn div_in_range(a: Scalar, b: Scalar) -> bool {
    &&& b.num != 0
    &&& in_i64(a.num * b.den)
    &&& in_i64(a.den * b.num)
    &&& (b.num > 0 || (a.num * b.den != i64::MIN && a.den * b.num != i64::MIN))
}

/// `x1*y1 + x2*y2`, exactly; `None` exactly when the sum leaves `i64`.
fn mul_add2(x1: i64, y1: i64, x2: i64, y2: i64) -> (r: Option<i64>)
    ensures
        match r {
            Some(v) => v == x1 * y1 + x2 * y2,
            None => !in_i64(x1 * y1 + x2 * y2),
        },
{
    proof {
        lemma_i64_prod_bounds(x1 as int, y1 as int);
        lemma_i64_prod_bounds(x2 as int, y2 as int);
    }
    let p1: i128 = (x1 as i128) * (y1 as i128);
    let p2: i128 = (x2 as i128) * (y2 as i128);
    let s: i128 = match p1.checked_add(p2) {
        Some(s) => s,
        None => { return None; },
    };
    if s >= i64::MIN as i128 && s <= i64::MAX as i128 {
        Some(s as i64)
    } else {
        None
    }
}

/// `x1*y1 + x2*y2 + x3*y3`, exactly; `None` exactly when the sum
/// leaves `i64`.
fn mul_add3(x1: i64, y1: i64, x2: i64, y2: i64, x3: i64, y3: i64) -> (r: Option<i64>)
    ensures
        match r {
            Some(v) => v == x1 * y1 + x2 * y2 + x3 * y3,
            None => !in_i64(x1 * y1 + x2 * y2 + x3 * y3),
        },
{
    proof {
        lemma_i64_prod_bounds(x1 as int, y1 as int);
        lemma_i64_prod_bounds(x2 as int, y2 as int);
        lemma_i64_prod_bounds(x3 as int, y3 as int);
    }
    let p1: i128 = (x1 as i128) * (y1 as i128);
    let p2: i128 = (x2 as i128) * (y2 as i128);
    let p3: i128 = (x3 as i128) * (y3 as i128);
    let s12: i128 = match p1.checked_add(p2) {
        Some(s) => s,
        None => { return None; },
    };
    let s: i128 = match s12.checked_add(p3) {
        Some(s) => s,
        None => { return None; },
    };
    if s >= i64::MIN as i128 && s <= i64::MAX as i128 {
        Some(s as i64)
    } else {
        None
    }
}

/// The product of two 64-bit integers stays well inside `i128`.
proof fn lemma_i64_prod_bounds(x: int, y: int)
    requires
        i64::MIN <= x <= i64::MAX,
        i64::MIN <= y <= i64::MAX,
    ensures
        -0x4000_0000_0000_0000_0000_0000_0000_0000int <= x * y,
        x * y <= 0x4000_0000_0000_0000_0000_0000_0000_0000int,
{
    assert(x * y <= 0x4000_0000_0000_0000_0000_0000_0000_0000int && -0x4000_0000_0000_0000_0000_0000_0000_0000int
        <= x * y) by (nonlinear_arith)
        requires
            -0x8000_0000_0000_0000int <= x <= 0x8000_0000_0000_0000int,
            -0x8000_0000_0000_0000int <= y <= 0x8000_0000_0000_0000int,
    ;
}

/// Application of a transform model to a point model:
/// `p' = M * p` in homogeneous coordinates.
pub open spec fn apply_model(m: TransformModel, p: PointModel) -> PointModel {
    PointModel {
        x: m.a * p.x + m.c * p.y + m.e * p.w,
        y: m.b * p.x + m.d * p.y + m.f * p.w,
        w: m.den * p.w,
    }
}

/// Matrix product of two transform models: applying the result equals
/// applying `m2`, then `m1`.
pub open spec fn compose_model(m1: TransformModel, m2: TransformModel) -> TransformModel {
    TransformModel {
        a: m1.a * m2.a + m1.c * m2.b,
        b: m1.b * m2.a + m1.d * m2.b,
        c: m1.a * m2.c + m1.c * m2.d,
        d: m1.b * m2.c + m1.d * m2.d,
        e: m1.a * m2.e + m1.c * m2.f + m1.e * m2.den,
        f: m1.b * m2.e + m1.d * m2.f + m1.f * m2.den,
        den: m1.den * m2.den,
    }
}

/// Two point models denote the same point of the plane.
pub open spec fn point_eqv(p: PointModel, q: PointModel) -> bool {
    p.x * q.w == q.x * p.w && p.y * q.w == q.y * p.w
}

/// Composition law: applying a composed transform to any point equals
/// applying the outer transform to the image under the inner one. This
/// is exact equality of the homogeneous coordinates, not merely
/// equality of the denoted points.
pub proof fn lemma_compose_apply(m1: TransformModel, m2: TransformModel, p: PointModel)
    ensures
        apply_model(compose_model(m1, m2), p) == apply_model(m1, apply_model(m2, p)),
{
    lemma_row_apply(m1.a, m1.c, m1.e, m2, p);
    lemma_row_apply(m1.b, m1.d, m1.f, m2, p);
    assert((m1.den * m2.den) * p.w == m1.den * (m2.den * p.w)) by (nonlinear_arith);
}

/// One row of the composition law: composing a row `(a, c, e)` with a
/// transform and applying it to a point equals applying the transform
/// first and the row second.
proof fn lemma_row_apply(a: int, c: int, e: int, m2: TransformModel, p: PointModel)
    ensures
        (a * m2.a + c * m2.b) * p.x + (a * m2.c + c * m2.d) * p.y + (a * m2.e + c * m2.f + e
            * m2.den) * p.w == a * (m2.a * p.x + m2.c * p.y + m2.e * p.w) + c * (m2.b * p.x + m2.d
            * p.y + m2.f * p.w) + e * (m2.den * p.w),
{
    assert((a * m2.a + c * m2.b) * p.x == (a * m2.a) * p.x + (c * m2.b) * p.x)
        by (nonlinear_arith);
    assert((a * m2.c + c * m2.d) * p.y == (a * m2.c) * p.y + (c * m2.d) * p.y)
        by (nonlinear_arith);
    assert((a * m2.e + c * m2.f + e * m2.den) * p.w == (a * m2.e) * p.w + (c * m2.f) * p.w + (e
        * m2.den) * p.w) by (nonlinear_arith);
    assert(a * (m2.a * p.x + m2.c * p.y + m2.e * p.w) == a * (m2.a * p.x) + a * (m2.c * p.y) + a
        * (m2.e * p.w)) by (nonlinear_arith);
    assert(c * (m2.b * p.x + m2.d * p.y + m2.f * p.w) == c * (m2.b * p.x) + c * (m2.d * p.y) + c
        * (m2.f * p.w)) by (nonlinear_arith);
    assert((a * m2.a) * p.x == a * (m2.a * p.x)) by (nonlinear_arith);
    assert((c * m2.b) * p.x == c * (m2.b * p.x)) by (nonlinear_arith);
    assert((a * m2.c) * p.y == a * (m2.c * p.y)) by (nonlinear_arith);
    assert((c * m2.d) * p.y == c * (m2.d * p.y)) by (nonlinear_arith);
    assert((a * m2.e) * p.w == a * (m2.e * p.w)) by (nonlinear_arith);
    assert((c * m2.f) * p.w == c * (m2.f * p.w)) by (nonlinear_arith);
    assert((e * m2.den) * p.w == e * (m2.den * p.w)) by (nonlinear_arith);
}

impl View for Transform {
    type V = TransformModel;

    open spec fn view(&self) -> TransformModel {
        TransformModel {
            a: self.a as int,
            b: self.b as int,
            c: self.c as int,
            d: self.d as int,
            e: self.e as int,
            f: self.f as int,
            den: self.den as int,
        }
    }
}

impl View for HPoint {
    type V = PointModel;

    open spec fn view(&self) -> PointModel {
        PointModel { x: self.x as int, y: self.y as int, w: self.w as int }
    }
}

impl HPoint {
    pub open spec fn wf(self) -> bool {
        self.w >= 1
    }

    pub fn from_ints(x: i64, y: i64) -> (r: HPoint)
        ensures
            r.wf(),
            r@ == (PointModel { x: x as int, y: y as int, w: 1int }),
    {
        HPoint { x, y, w: 1 }
    }

    /// The point `(x, y)` for rational coordinates.
    pub fn from_scalars(x: Scalar, y: Scalar) -> (r: Option<HPoint>)
        requires
            x.wf(),
            y.wf(),
        ensures
            match r {
                Some(p) => p.wf() && p.x == x.num * y.den && p.y == y.num * x.den && p.w == x.den
                    * y.den,
                None => !in_i64(x.num * y.den) || !in_i64(y.num * x.den) || !in_i64(x.den * y.den),
            },
    {
        let px = x.num.checked_mul(y.den)?;
        let py = y.num.checked_mul(x.den)?;
        let pw = x.den.checked_mul(y.den)?;
        assert(x.den * y.den >= 1) by (nonlinear_arith)
            requires
                x.den >= 1,
                y.den >= 1,
        ;
        Some(HPoint { x: px, y: py, w: pw })
    }
}

impl Transform {
    pub open spec fn wf(self) -> bool {
        self.den >= 1
    }

    /// The identity transform.
    pub fn identity() -> (r: Transform)
        ensures
            r.wf(),
            r@ == identity_model(),
            r.a == 1 && r.b == 0 && r.c == 0 && r.d == 1 && r.e == 0 && r.f == 0 && r.den == 1,
    {
        Transform { a: 1, b: 0, c: 0, d: 1, e: 0, f: 0, den: 1 }
    }

    /// A transform built from six rational entries, brought to the
    /// common denominator that is the product of the six denominators.
    pub fn from_scalars(a: Scalar, b: Scalar, c: Scalar, d: Scalar, e: Scalar, f: Scalar) -> (r:
        Option<Transform>)
        requires
            a.wf(),
            b.wf(),
            c.wf(),
            d.wf(),
            e.wf(),
            f.wf(),
        ensures
            match r {
                Some(t) => {
                    &&& t.wf()
                    &&& t.den == a.den * b.den * c.den * d.den * e.den * f.den
                    &&& t.a * a.den == a.num * t.den
                    &&& t.b * b.den == b.num * t.den
                    &&& t.c * c.den == c.num * t.den
                    &&& t.d * d.den == d.num * t.den
                    &&& t.e * e.den == e.num * t.den
                    &&& t.f * f.den == f.num * t.den
                },
                None => true,
            },
    {
        let d1: i64 = a.den.checked_mul(b.den)?;
        let d2: i64 = d1.checked_mul(c.den)?;
        let d3: i64 = d2.checked_mul(d.den)?;
        let d4: i64 = d3.checked_mul(e.den)?;
        let den: i64 = d4.checked_mul(f.den)?;
        proof {
            lemma_pos_prod(a.den as int, b.den as int);
            lemma_pos_prod(d1 as int, c.den as int);
            lemma_pos_prod(d2 as int, d.den as int);
            lemma_pos_prod(d3 as int, e.den as int);
            lemma_pos_prod(d4 as int, f.den as int);
        }
        let ra = mul_scaled(a, den)?;
        let rb = mul_scaled(b, den)?;
        let rc = mul_scaled(c, den)?;
        let rd = mul_scaled(d, den)?;
        let re = mul_scaled(e, den)?;
        let rf = mul_scaled(f, den)?;
        Some(Transform { a: ra, b: rb, c: rc, d: rd, e: re, f: rf, den })
    }

    /// Matrix product, exactly; `None` exactly when an entry of the
    /// exact product leaves `i64`.
    pub fn compose(&self, o: &Transform) -> (r: Option<Transform>)
        requires
            self.wf(),
            o.wf(),
        ensures
            match r {
                Some(t) => t.wf() && t@ == compose_model(self@, o@),
                None => !model_in_range(compose_model(self@, o@)),
            },
    {
        let ra = match mul_add2(self.a, o.a, self.c, o.b) {
            Some(v) => v,
            None => { return None; },
        };
        let rb = match mul_add2(self.b, o.a, self.d, o.b) {
            Some(v) => v,
            None => { return None; },
        };
        let rc = match mul_add2(self.a, o.c, self.c, o.d) {
            Some(v) => v,
            None => { return None; },
        };
        let rd = match mul_add2(self.b, o.c, self.d, o.d) {
            Some(v) => v,
            None => { return None; },
        };
        let re = match mul_add3(self.a, o.e, self.c, o.f, self.e, o.den) {
            Some(v) => v,
            None => { return None; },
        };
        let rf = match mul_add3(self.b, o.e, self.d, o.f, self.f, o.den) {
            Some(v) => v,
            None => { return None; },
        };
        let rden = match self.den.checked_mul(o.den) {
            Some(v) => v,
            None => { return None; },
        };
        proof {
            lemma_pos_prod(self.den as int, o.den as int);
        }
        Some(Transform { a: ra, b: rb, c: rc, d: rd, e: re, f: rf, den: rden })
    }

    /// Application to a homogeneous point, exactly; `None` exactly when
    /// a coordinate of the exact image leaves `i64`.
    pub fn apply(&self, p: &HPoint) -> (r: Option<HPoint>)
        requires
            self.wf(),
            p.wf(),
        ensures
            match r {
                Some(q) => q.wf() && q@ == apply_model(self@, p@),
                None => !point_in_range(apply_model(self@, p@)),
            },
    {
        let qx = match mul_add3(self.a, p.x, self.c, p.y, self.e, p.w) {
            Some(v) => v,
            None => { return None; },
        };
        let qy = match mul_add3(self.b, p.x, self.d, p.y, self.f, p.w) {
            Some(v) => v,
            None => { return None; },
        };
        let qw = match self.den.checked_mul(p.w) {
            Some(v) => v,
            None => { return None; },
        };
        proof {
            lemma_pos_prod(self.den as int, p.w as int);
        }
        Some(HPoint { x: qx, y: qy, w: qw })
    }
}

/// Whether every entry of a transform model fits in `i64`.
pub open spec fn model_in_range(m: TransformModel) -> bool {
    in_i64(m.a) && in_i64(m.b) && in_i64(m.c) && in_i64(m.d) && in_i64(m.e) && in_i64(m.f)
        && in_i64(m.den)
}

/// Whether every coordinate of a point model fits in `i64`.
pub open spec fn point_in_range(p: PointModel) -> bool {
    in_i64(p.x) && in_i64(p.y) && in_i64(p.w)
}

/// `s.num * (target / s.den)` where `s.den` divides `target`: the
/// numerator of `s` rescaled to the common denominator `target`.
fn mul_scaled(s: Scalar, target: i64) -> (r: Option<i64>)
    requires
        s.wf(),
        target >= 1,
    ensures
        match r {
            Some(v) => v * s.den == s.num * target,
            None => true,
        },
{
    proof {
        lemma_i64_prod_bounds(s.num as int, target as int);
    }
    let p: i128 = (s.num as i128) * (target as i128);
    let q: i128 = p / (s.den as i128);
    if q >= i64::MIN as i128 && q <= i64::MAX as i128 {
        let v = q as i64;
        proof {
            lemma_i64_prod_bounds(v as int, s.den as int);
        }
        if (v as i128) * (s.den as i128) == (s.num as i128) * (target as i128) {
            Some(v)
        } else {
            None
        }
    } else {
        None
    }
}

impl Scalar {
    /// The integer part of the scalar, truncated toward zero.
    pub fn trunc(self) -> (r: i64)
        requires
            self.wf(),
        ensures
            r == spec_trunc(self),
    {
        match self.num.checked_div(self.den) {
            Some(v) => v,
            None => {
                // Unreachable: the divisor is at least one and the
                // truncated quotient is no larger in magnitude than
                // the dividend.
                proof {
                    if self.num >= 0 {
                        vstd::arithmetic::div_mod::lemma_div_pos_is_pos(
                            self.num as int,
                            self.den as int,
                        );
                        vstd::arithmetic::div_mod::lemma_div_nonincreasing(
                            self.num as int,
                            self.den as int,
                        );
                    } else {
                        vstd::arithmetic::div_mod::lemma_div_pos_is_pos(
                            -(self.num as int),
                            self.den as int,
                        );
                        vstd::arithmetic::div_mod::lemma_div_nonincreasing(
                            -(self.num as int),
                            self.den as int,
                        );
                    }
                    assert(false);
                }
                0
            },
        }
    }
}

/// The integer part of a scalar, truncated toward zero.
pub open spec fn spec_trunc(s: Scalar) -> int {
    if s.num >= 0 {
        s.num as int / s.den as int
    } else {
        -((-(s.num as int)) / s.den as int)
    }
}

/// The model of the identity transform.
pub open spec fn identity_model() -> TransformModel {
    TransformModel { a: 1, b: 0, c: 0, d: 1, e: 0, f: 0, den: 1 }
}

/// The model of the pure translation by `(x, y)`: both coordinates
/// brought to the common denominator `x.den * y.den`.
pub open spec fn translation_model(x: Scalar, y: Scalar) -> TransformModel {
    TransformModel {
        a: x.den * y.den,
        b: 0,
        c: 0,
        d: x.den * y.den,
        e: x.num * y.den,
        f: y.num * x.den,
        den: x.den * y.den,
    }
}

/// Whether the exact translation matrix fits in 64 bits.
pub open spec fn translation_in_range(x: Scalar, y: Scalar) -> bool {
    in_i64(x.den * y.den) && in_i64(x.num * y.den) && in_i64(y.num * x.den)
}

/// The model of the pure scaling by `(sx, sy)` over the common
/// denominator `sx.den * sy.den`.
pub open spec fn scaling_model(sx: Scalar, sy: Scalar) -> TransformModel {
    TransformModel {
        a: sx.num * sy.den,
        b: 0,
        c: 0,
        d: sy.num * sx.den,
        e: 0,
        f: 0,
        den: sx.den * sy.den,
    }
}

/// Whether the exact scaling matrix fits in 64 bits.
pub open spec fn scaling_in_range(sx: Scalar, sy: Scalar) -> bool {
    in_i64(sx.den * sy.den) && in_i64(sx.num * sy.den) && in_i64(sy.num * sx.den)
}

impl Transform {
    /// The pure translation by `(x, y)`, exactly.
    pub fn translation(x: Scalar, y: Scalar) -> (r: Option<Transform>)
        requires
            x.wf(),
            y.wf(),
        ensures
            r is Some <==> translation_in_range(x, y),
            match r {
                Some(t) => t.wf() && t@ == translation_model(x, y),
                None => true,
            },
    {
        let den = x.den.checked_mul(y.den)?;
        let e = x.num.checked_mul(y.den)?;
        let f = y.num.checked_mul(x.den)?;
        proof {
            lemma_pos_prod(x.den as int, y.den as int);
        }
        Some(Transform { a: den, b: 0, c: 0, d: den, e, f, den })
    }

    /// The pure scaling by `(sx, sy)`, exactly.
    pub fn scaling(sx: Scalar, sy: Scalar) -> (r: Option<Transform>)
        requires
            sx.wf(),
            sy.wf(),
        ensures
            r is Some <==> scaling_in_range(sx, sy),
            match r {
                Some(t) => t.wf() && t@ == scaling_model(sx, sy),
                None => true,
            },
    {
        let den = sx.den.checked_mul(sy.den)?;
        let a = sx.num.checked_mul(sy.den)?;
        let d = sy.num.checked_mul(sx.den)?;
        proof {
            lemma_pos_prod(sx.den as int, sy.den as int);
        }
        Some(Transform { a, b: 0, c: 0, d, e: 0, f: 0, den })
    }
}

/// The model of the viewbox-to-device mapping: scale by
/// `(tw / vw, th / vh)` and translate by `-(ox, oy)`, so that the
/// viewbox origin lands on device `(0, 0)` and the far corner on
/// `(tw, th)`.
pub open spec fn viewbox_model(ox: Scalar, oy: Scalar, vw: Scalar, vh: Scalar, tw: int, th: int)
    -> TransformModel {
    TransformModel {
        a: tw * vw.den * vh.num * ox.den * oy.den,
        b: 0,
        c: 0,
        d: th * vh.den * vw.num * ox.den * oy.den,
        e: -(ox.num * tw * vw.den * vh.num * oy.den),
        f: -(oy.num * th * vh.den * vw.num * ox.den),
        den: vw.num * vh.num * ox.den * oy.den,
    }
}

/// Whether the exact viewbox matrix fits in 64 bits (the two
/// translation entries must also stay clear of the far end of the
/// range, where their unnegated intermediates would not fit).
pub open spec fn viewbox_in_range(
    ox: Scalar,
    oy: Scalar,
    vw: Scalar,
    vh: Scalar,
    tw: int,
    th: int,
) -> bool {
    let m = viewbox_model(ox, oy, vw, vh, tw, th);
    model_in_range(m) && m.e != i64::MIN && m.f != i64::MIN
}

/// The top-level viewbox matrix, exactly; `None` only when an entry of
/// the exact result leaves `i64` (or sits at its far end).
pub fn viewbox_matrix(ox: Scalar, oy: Scalar, vw: Scalar, vh: Scalar, tw: i64, th: i64) -> (r:
    Option<Transform>)
    requires
        ox.wf(),
        oy.wf(),
        vw.wf(),
        vh.wf(),
        vw.num >= 1,
        vh.num >= 1,
    ensures
        r is Some <==> viewbox_in_range(ox, oy, vw, vh, tw as int, th as int),
        match r {
            Some(t) => t.wf() && t@ == viewbox_model(ox, oy, vw, vh, tw as int, th as int),
            None => true,
        },
{
    let a = match mul_chain4(tw, vw.den, vh.num, ox.den, oy.den) {
        Some(v) => v,
        None => { return None; },
    };
    let d = match mul_chain4(th, vh.den, vw.num, ox.den, oy.den) {
        Some(v) => v,
        None => { return None; },
    };
    let den = match mul_chain3(vw.num, vh.num, ox.den, oy.den) {
        Some(v) => v,
        None => { return None; },
    };
    let e = match neg_chain(ox.num, tw, vw.den, vh.num, oy.den) {
        Some(v) => v,
        None => { return None; },
    };
    let f = match neg_chain(oy.num, th, vh.den, vw.num, ox.den) {
        Some(v) => v,
        None => { return None; },
    };
    Some(Transform { a, b: 0, c: 0, d, e, f, den })
}

/// `x * k1 * k2 * k3` with positive factors, exactly; `None` exactly
/// when the product leaves `i64`. A result starting from a positive
/// `x` stays positive.
fn mul_chain3(x: i64, k1: i64, k2: i64, k3: i64) -> (r: Option<i64>)
    requires
        k1 >= 1,
        k2 >= 1,
        k3 >= 1,
    ensures
        match r {
            Some(v) => v == x * k1 * k2 * k3 && (x >= 1 ==> v >= 1),
            None => !in_i64(x * k1 * k2 * k3),
        },
{
    let p1 = match x.checked_mul(k1) {
        Some(v) => v,
        None => {
            proof {
                lemma_out_mul(x * k1, k2 as int);
                lemma_out_mul(x * k1 * k2, k3 as int);
            }
            return None;
        },
    };
    let p2 = match p1.checked_mul(k2) {
        Some(v) => v,
        None => {
            proof {
                lemma_out_mul(x * k1 * k2, k3 as int);
            }
            return None;
        },
    };
    let p3 = p2.checked_mul(k3)?;
    proof {
        if x >= 1 {
            lemma_pos_prod(x as int, k1 as int);
            lemma_pos_prod(p1 as int, k2 as int);
            lemma_pos_prod(p2 as int, k3 as int);
        }
    }
    Some(p3)
}

/// `x * k1 * k2 * k3 * k4` with positive factors, exactly; `None`
/// exactly when the product leaves `i64`.
fn mul_chain4(x: i64, k1: i64, k2: i64, k3: i64, k4: i64) -> (r: Option<i64>)
    requires
        k1 >= 1,
        k2 >= 1,
        k3 >= 1,
        k4 >= 1,
    ensures
        match r {
            Some(v) => v == x * k1 * k2 * k3 * k4,
            None => !in_i64(x * k1 * k2 * k3 * k4),
        },
{
    let p1 = match x.checked_mul(k1) {
        Some(v) => v,
        None => {
            proof {
                lemma_out_mul(x * k1, k2 as int);
                lemma_out_mul(x * k1 * k2, k3 as int);
                lemma_out_mul(x * k1 * k2 * k3, k4 as int);
            }
            return None;
        },
    };
    match mul_chain3(p1, k2, k3, k4) {
        Some(v) => Some(v),
        None => None,
    }
}

/// `-(x * y * k1 * k2 * k3)`, exactly; `None` exactly when the product
/// or its negation leaves `i64`.
fn neg_chain(x: i64, y: i64, k1: i64, k2: i64, k3: i64) -> (r: Option<i64>)
    requires
        k1 >= 1,
        k2 >= 1,
        k3 >= 1,
    ensures
        match r {
            Some(v) => v == -(x * y * k1 * k2 * k3),
            None => true,
        },
        r is Some <==> in_i64(x * y * k1 * k2 * k3) && x * y * k1 * k2 * k3 != i64::MIN,
{
    let p0 = match x.checked_mul(y) {
        Some(v) => v,
        None => {
            proof {
                lemma_out_mul(x * y, k1 as int);
                lemma_out_mul(x * y * k1, k2 as int);
                lemma_out_mul(x * y * k1 * k2, k3 as int);
            }
            return None;
        },
    };
    let p = match mul_chain3(p0, k1, k2, k3) {
        Some(v) => v,
        None => { return None; },
    };
    let n = p.checked_mul(-1)?;
    Some(n)
}

/// Multiplying a value already outside the 64-bit range by a positive
/// factor keeps it outside.
proof fn lemma_out_mul(x: int, k: int)
    requires
        k >= 1,
        !in_i64(x),
    ensures
        !in_i64(x * k),
{
    assert(x > i64::MAX ==> x * k > i64::MAX) by (nonlinear_arith)
        requires
            k >= 1,
    ;
    assert(x < i64::MIN ==> x * k < i64::MIN) by (nonlinear_arith)
        requires
            k >= 1,
    ;
}

proof fn lemma_pos_prod(x: int, y: int)
    requires
        x >= 1,
        y >= 1,
    ensures
        x * y >= 1,
{
    assert(x * y >= 1) by (nonlinear_arith)
        requires
            x >= 1,
            y >= 1,
    ;
}

/// Half of the viewbox mapping law, stated for every viewbox with
/// positive size: the viewbox matrix sends the viewbox origin to
/// device `(0, 0)`. (That the far corner lands on the target extent
/// holds as well; it is exercised on concrete values by the tests.)
/// The points are compared as rationals in homogeneous form.
pub proof fn lemma_viewbox_maps_origin(
    ox: Scalar,
    oy: Scalar,
    vw: Scalar,
    vh: Scalar,
    tw: int,
    th: int,
)
    requires
        ox.wf(),
        oy.wf(),
        vw.wf(),
        vh.wf(),
        vw.num >= 1,
        vh.num >= 1,
    ensures
        point_eqv(
            apply_model(
                viewbox_model(ox, oy, vw, vh, tw, th),
                PointModel {
                    x: ox.num * oy.den,
                    y: oy.num * ox.den,
                    w: ox.den * oy.den,
                },
            ),
            PointModel { x: 0, y: 0, w: 1 },
        ),
{
    lemma_vb_origin_x(
        tw as int,
        vw.den as int,
        vh.num as int,
        ox.den as int,
        oy.den as int,
        ox.num as int,
    );
    lemma_vb_origin_y(
        th as int,
        vh.den as int,
        vw.num as int,
        ox.den as int,
        oy.den as int,
        oy.num as int,
    );
}

/// The x coordinate of the mapped viewbox origin is zero: the scale
/// row applied to the origin cancels against the translation entry.
proof fn lemma_vb_origin_x(t: int, p: int, q: int, dx: int, dy: int, n: int)
    ensures
        (t * p * q * dx * dy) * (n * dy) + (-(n * t * p * q * dy)) * (dx * dy) == 0,
{
    lemma_cancel_x(t * p * q, dx, dy, n);
    assert(-(n * t * p * q * dy) == -((n * (t * p * q)) * dy)) by (nonlinear_arith);
}

/// The y coordinate of the mapped viewbox origin is zero.
proof fn lemma_vb_origin_y(t: int, p: int, q: int, dx: int, dy: int, n: int)
    ensures
        (t * p * q * dx * dy) * (n * dx) + (-(n * t * p * q * dx)) * (dx * dy) == 0,
{
    lemma_cancel_y(t * p * q, dx, dy, n);
    assert(-(n * t * p * q * dx) == -((n * (t * p * q)) * dx)) by (nonlinear_arith);
}

/// `(g*dx*dy)*(n*dy)` cancels against `(n*g*dy)*(dx*dy)`.
proof fn lemma_cancel_x(g: int, dx: int, dy: int, n: int)
    ensures
        (g * dx * dy) * (n * dy) + (-((n * g) * dy)) * (dx * dy) == 0,
{
    assert((g * dx * dy) * (n * dy) + (-((n * g) * dy)) * (dx * dy) == 0) by (nonlinear_arith);
}

/// `(g*dx*dy)*(n*dx)` cancels against `(n*g*dx)*(dx*dy)`.
proof fn lemma_cancel_y(g: int, dx: int, dy: int, n: int)
    ensures
        (g * dx * dy) * (n * dx) + (-((n * g) * dx)) * (dx * dy) == 0,
{
    assert((g * dx * dy) * (n * dx) + (-((n * g) * dx)) * (dx * dy) == 0) by (nonlinear_arith);
}


} // verus!
