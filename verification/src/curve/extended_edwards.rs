use crate::curve::affine::AffinePoint;
use crate::curve::field::field_element::{fadd, finv, fmul, fneg, fsub, FieldElement};
use crate::curve::field::bits::{bits_of, bits_value};
use crate::curve::params::Curve;
use crate::curve::scalar::Scalar;
use vstd::arithmetic::div_mod::{
    lemma_mul_mod_noop_general, lemma_small_mod, lemma_sub_mod_noop,
};
use vstd::prelude::*;

verus! {

/// A point in extended coordinates: it stands for the point
/// `(X / Z, Y / Z)`, and `T` is `X Y / Z`.
#[allow(non_snake_case)]
#[derive(Debug)]
pub struct ExtendedPoint {
    pub X: FieldElement,
    pub Y: FieldElement,
    pub Z: FieldElement,
    pub T: FieldElement,
}

/// The four coordinates of an extended point as numbers.
pub struct PointView {
    pub x: nat,
    pub y: nat,
    pub z: nat,
    pub t: nat,
}

/// The neutral element in extended coordinates: `(0, 1, 1, 0)`.
pub open spec fn identity_view() -> PointView {
    PointView { x: 0, y: 1, z: 1, t: 0 }
}

/// Whether the coordinates are residues and fit together: `X Y = Z T`.
pub open spec fn valid_point(a: PointView, p: nat) -> bool {
    &&& a.x < p
    &&& a.y < p
    &&& a.z < p
    &&& a.t < p
    &&& fmul(a.x, a.y, p) == fmul(a.z, a.t, p)
}

/// Whether a point lies on the curve `x^2 + y^2 = 1 + d x^2 y^2`, which in
/// extended coordinates reads `X^2 + Y^2 = Z^2 + d T^2`.
pub open spec fn on_curve(a: PointView, p: nat, d: nat) -> bool {
    fadd(fmul(a.x, a.x, p), fmul(a.y, a.y, p), p) == fadd(
        fmul(a.z, a.z, p),
        fmul(d, fmul(a.t, a.t, p), p),
        p,
    )
}

/// The sum of two points, by the unified addition formula, which holds for
/// equal and for distinct points alike.
pub open spec fn point_add(a: PointView, b: PointView, p: nat, d: nat) -> PointView {
    let aa = fmul(a.x, b.x, p);
    let bb = fmul(a.y, b.y, p);
    let cc = fmul(d, fmul(a.t, b.t, p), p);
    let dd = fmul(a.z, b.z, p);
    let e = fsub(fsub(fmul(fadd(a.x, a.y, p), fadd(b.x, b.y, p), p), aa, p), bb, p);
    let f = fsub(dd, cc, p);
    let g = fadd(dd, cc, p);
    let h = fsub(bb, aa, p);
    PointView { x: fmul(e, f, p), y: fmul(g, h, p), z: fmul(f, g, p), t: fmul(e, h, p) }
}

/// Twice a point: its sum with itself.
pub open spec fn point_double(a: PointView, p: nat, d: nat) -> PointView {
    point_add(a, a, p, d)
}

/// The inverse of a point: the first coordinate negated, and `T` with it.
pub open spec fn point_neg(a: PointView, p: nat) -> PointView {
    PointView { x: fneg(a.x, p), y: a.y, z: a.z, t: fneg(a.t, p) }
}

/// Whether two extended points stand for the same point: their coordinates
/// agree after cross-multiplication by the other's `Z`.
pub open spec fn same_point(a: PointView, b: PointView, p: nat) -> bool {
    fmul(a.x, b.z, p) == fmul(b.x, a.z, p) && fmul(a.y, b.z, p) == fmul(b.y, a.z, p)
}

/// The multiple `k a` of a point, by doubling and adding along the binary
/// digits of `k`: nothing for no digits, and for a last digit the double of
/// the multiple by the digits before it, with the point added where the
/// digit is one.
pub open spec fn point_mul(k: nat, a: PointView, p: nat, d: nat) -> PointView
    decreases k,
{
    if k == 0 {
        identity_view()
    } else if k % 2 == 1 {
        point_add(point_double(point_mul(k / 2, a, p, d), p, d), a, p, d)
    } else {
        point_double(point_mul(k / 2, a, p, d), p, d)
    }
}

/// Twice the neutral element is the neutral element.
pub proof fn lemma_double_identity(p: nat, d: nat)
    requires
        p >= 2,
    ensures
        point_double(identity_view(), p, d) == identity_view(),
{
    assert(d * 0 == 0) by (nonlinear_arith);
    lemma_small_mod(1, p);
    lemma_small_mod(0, p);
    let cc = fmul(d, fmul(0, 0, p), p);
    assert(fmul(0, 0, p) == 0);
    assert(cc == 0);
    assert(fmul(1, 1, p) == 1);
    assert(fadd(0, 1, p) == 1);
    assert(fsub(1, 0, p) == 1);
    assert(fsub(1, 1, p) == 0);
    assert(fadd(1, 0, p) == 1);
    assert(fmul(0, 1, p) == 0);
}

/// The product of two products modulo `p` is the product of the four
/// factors modulo `p`.
pub proof fn lemma_fmul_four(a: nat, b: nat, c: nat, d: nat, p: nat)
    requires
        p > 0,
    ensures
        fmul(fmul(a, b, p), fmul(c, d, p), p) == (a * b * c * d) % p,
{
    lemma_mul_mod_noop_general((a * b) as int, (c * d) as int, p as int);
    assert((a * b) * (c * d) == a * b * c * d) by (nonlinear_arith);
}

/// The sum of two valid points is a valid point.
pub proof fn lemma_add_valid(a: PointView, b: PointView, p: nat, d: nat)
    requires
        p > 0,
    ensures
        valid_point(point_add(a, b, p, d), p),
{
    let aa = fmul(a.x, b.x, p);
    let bb = fmul(a.y, b.y, p);
    let cc = fmul(d, fmul(a.t, b.t, p), p);
    let dd = fmul(a.z, b.z, p);
    let e = fsub(fsub(fmul(fadd(a.x, a.y, p), fadd(b.x, b.y, p), p), aa, p), bb, p);
    let f = fsub(dd, cc, p);
    let g = fadd(dd, cc, p);
    let h = fsub(bb, aa, p);
    lemma_fmul_four(e, f, g, h, p);
    lemma_fmul_four(f, g, e, h, p);
    assert(e * f * g * h == f * g * e * h) by (nonlinear_arith);
}

/// The inverse of a valid point is a valid point.
pub proof fn lemma_neg_valid(a: PointView, p: nat)
    requires
        p > 0,
        valid_point(a, p),
    ensures
        valid_point(point_neg(a, p), p),
{
    let nx = fneg(a.x, p);
    let nt = fneg(a.t, p);
    let pi = p as int;
    // (-x) y = -(x y) and z (-t) = -(z t), modulo p
    lemma_mul_mod_noop_general(0 - a.x, a.y as int, pi);
    lemma_mul_mod_noop_general(a.z as int, 0 - a.t, pi);
    assert((0 - a.x) * a.y == 0 - a.x * a.y) by (nonlinear_arith);
    assert(a.z * (0 - a.t) == 0 - a.z * a.t) by (nonlinear_arith);
    lemma_sub_mod_noop(0, (a.x * a.y) as int, pi);
    lemma_sub_mod_noop(0, (a.z * a.t) as int, pi);
}

/// Addition is commutative: the sum does not depend on the order of the
/// two points.
pub proof fn lemma_add_commutative(a: PointView, b: PointView, p: nat, d: nat)
    ensures
        point_add(a, b, p, d) == point_add(b, a, p, d),
{
    assert(a.x * b.x == b.x * a.x) by (nonlinear_arith);
    assert(a.y * b.y == b.y * a.y) by (nonlinear_arith);
    assert(a.t * b.t == b.t * a.t) by (nonlinear_arith);
    assert(a.z * b.z == b.z * a.z) by (nonlinear_arith);
    assert(fadd(a.x, a.y, p) * fadd(b.x, b.y, p) == fadd(b.x, b.y, p) * fadd(a.x, a.y, p))
        by (nonlinear_arith);
}

impl View for ExtendedPoint {
    type V = PointView;

    open spec fn view(&self) -> PointView {
        PointView { x: self.X@, y: self.Y@, z: self.Z@, t: self.T@ }
    }
}

impl ExtendedPoint {
    /// Whether the point is a valid point of the curve's field, in limbs
    /// of the field's length.
    pub open spec fn wf(&self, c: &Curve) -> bool {
        &&& self.X.wf(&c.field)
        &&& self.Y.wf(&c.field)
        &&& self.Z.wf(&c.field)
        &&& self.T.wf(&c.field)
        &&& valid_point(self@, c.spec_p())
    }

    /// The neutral element of the group.
    pub fn id_point(c: &Curve) -> (r: ExtendedPoint)
        requires
            c.wf(),
        ensures
            r.wf(c),
            r@ == identity_view(),
    {
        let r = ExtendedPoint {
            X: FieldElement::zero(c.limbs()),
            Y: FieldElement::one(c.limbs()),
            Z: FieldElement::one(c.limbs()),
            T: FieldElement::zero(c.limbs()),
        };
        proof {
            assert(0 * 1 == 1 * 0) by (nonlinear_arith);
        }
        r
    }

    /// The generator of the curve.
    pub fn generator(c: &Curve) -> (r: ExtendedPoint)
        requires
            c.wf(),
        ensures
            r.wf(c),
            r@ == crate::curve::affine::extended_of(c.id.spec_gx(), c.id.spec_gy(), c.spec_p()),
    {
        AffinePoint::generator(c).to_extended(c)
    }

    /// A copy of the point.
    pub fn copy(&self) -> (r: ExtendedPoint)
        ensures
            r@ == self@,
            r.X.limbs@ == self.X.limbs@,
            r.Y.limbs@ == self.Y.limbs@,
            r.Z.limbs@ == self.Z.limbs@,
            r.T.limbs@ == self.T.limbs@,
    {
        ExtendedPoint {
            X: self.X.clone(),
            Y: self.Y.clone(),
            Z: self.Z.clone(),
            T: self.T.clone(),
        }
    }

    /// The sum of two points.
    pub fn add(&self, other: &ExtendedPoint, c: &Curve) -> (r: ExtendedPoint)
        requires
            c.wf(),
            self.wf(c),
            other.wf(c),
        ensures
            r.wf(c),
            r@ == point_add(self@, other@, c.spec_p(), c.spec_d()),
    {
        let m = &c.field;
        let aa = self.X.mul(&other.X, m);
        let bb = self.Y.mul(&other.Y, m);
        let tt = self.T.mul(&other.T, m);
        let cc = c.d.mul(&tt, m);
        let dd = self.Z.mul(&other.Z, m);
        let s1 = self.X.add(&self.Y, m);
        let s2 = other.X.add(&other.Y, m);
        let e = s1.mul(&s2, m).sub(&aa, m).sub(&bb, m);
        let f = dd.sub(&cc, m);
        let g = dd.add(&cc, m);
        let h = bb.sub(&aa, m);
        proof {
            lemma_add_valid(self@, other@, c.spec_p(), c.spec_d());
        }
        ExtendedPoint { X: e.mul(&f, m), Y: g.mul(&h, m), Z: f.mul(&g, m), T: e.mul(&h, m) }
    }

    /// Twice the point: the same as its sum with itself.
    pub fn double(&self, c: &Curve) -> (r: ExtendedPoint)
        requires
            c.wf(),
            self.wf(c),
        ensures
            r.wf(c),
            r@ == point_double(self@, c.spec_p(), c.spec_d()),
            r@ == point_add(self@, self@, c.spec_p(), c.spec_d()),
    {
        self.add(self, c)
    }

    /// The inverse of the point.
    pub fn negate(&self, c: &Curve) -> (r: ExtendedPoint)
        requires
            c.wf(),
            self.wf(c),
        ensures
            r.wf(c),
            r@ == point_neg(self@, c.spec_p()),
    {
        let m = &c.field;
        proof {
            lemma_neg_valid(self@, c.spec_p());
        }
        ExtendedPoint { X: self.X.neg(m), Y: self.Y.clone(), Z: self.Z.clone(), T: self.T.neg(m) }
    }

    /// Whether two extended points stand for the same point.
    pub fn equals(&self, other: &ExtendedPoint, c: &Curve) -> (same: bool)
        requires
            c.wf(),
            self.wf(c),
            other.wf(c),
        ensures
            same == same_point(self@, other@, c.spec_p()),
    {
        let m = &c.field;
        let x1 = self.X.mul(&other.Z, m);
        let x2 = other.X.mul(&self.Z, m);
        let y1 = self.Y.mul(&other.Z, m);
        let y2 = other.Y.mul(&self.Z, m);
        let same_x = x1.equals(&x2);
        let same_y = y1.equals(&y2);
        same_x && same_y
    }

    /// The multiple of the point by a scalar of any size, reduced or not,
    /// by doubling and adding along the binary digits of the scalar from the
    /// highest down.
    pub fn scalar_mul(&self, k: &Scalar, c: &Curve) -> (r: ExtendedPoint)
        requires
            c.wf(),
            self.wf(c),
        ensures
            r.wf(c),
            r@ == point_mul(k@, self@, c.spec_p(), c.spec_d()),
    {
        let bits = bits_of(k.limbs.as_slice());
        let n: usize = bits.len();
        let ghost p = c.spec_p();
        let ghost d = c.spec_d();
        let mut acc = Self::id_point(c);
        let mut i: usize = 0;
        assert(bits@.take(0) =~= Seq::<bool>::empty());
        while i < n
            invariant
                i <= n,
                n == bits@.len(),
                c.wf(),
                self.wf(c),
                p == c.spec_p(),
                d == c.spec_d(),
                acc.wf(c),
                acc@ == point_mul(bits_value(bits@.take(i as int)), self@, p, d),
            decreases n - i,
        {
            proof {
                assert(bits@.take(i + 1).drop_last() =~= bits@.take(i as int));
                lemma_double_identity(p, d);
            }
            acc = acc.double(c);
            if bits[i] {
                acc = acc.add(self, c);
            }
            i += 1;
        }
        assert(bits@.take(n as int) =~= bits@);
        acc
    }

    /// The two coordinates of the point that the extended point stands for:
    /// `X` and `Y` divided by `Z`, which must not be zero.
    pub fn to_affine(&self, c: &Curve) -> (r: AffinePoint)
        requires
            c.wf(),
            self.wf(c),
            self.Z@ != 0,
        ensures
            r.wf(c),
            r.x@ == fmul(self.X@, finv(self.Z@, c.spec_p()), c.spec_p()),
            r.y@ == fmul(self.Y@, finv(self.Z@, c.spec_p()), c.spec_p()),
    {
        let m = &c.field;
        let z_inv = self.Z.invert(m);
        AffinePoint { x: self.X.mul(&z_inv, m), y: self.Y.mul(&z_inv, m) }
    }
}

} // verus!
