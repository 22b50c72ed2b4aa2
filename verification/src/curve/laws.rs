use crate::curve::affine::extended_of;
use crate::curve::extended_edwards::{
    identity_view, lemma_double_identity, on_curve, point_add, point_double, point_mul, point_neg,
    same_point, valid_point, PointView,
};
use crate::curve::field::field_element::{fadd, fmul, fneg, fsub};
use crate::curve::params::EdCurves;
use vstd::arithmetic::div_mod::{
    lemma_add_mod_noop, lemma_mod_twice, lemma_mul_mod_noop_general, lemma_small_mod,
    lemma_sub_mod_noop,
};
use vstd::prelude::*;

verus! {

/// The multiple of a point by a number of any size: the number is reduced
/// modulo the order of the generator before the point is multiplied.
pub open spec fn scalar_product(k: nat, a: PointView, id: EdCurves) -> PointView {
    point_mul(k % id.spec_r(), a, id.spec_p(), id.spec_d())
}

/// Zero times a point is the neutral element.
pub proof fn lemma_zero_times(a: PointView, id: EdCurves)
    ensures
        scalar_product(0, a, id) == identity_view(),
{
}

/// The order of the generator times a point is the neutral element.
pub proof fn lemma_order_times(a: PointView, id: EdCurves)
    ensures
        scalar_product(id.spec_r(), a, id) == identity_view(),
{
}

/// A number and its remainder modulo the order of the generator give the
/// same multiple of a point.
pub proof fn lemma_reduced_scalar(k: nat, a: PointView, id: EdCurves)
    ensures
        scalar_product(k, a, id) == scalar_product(k % id.spec_r(), a, id),
{
    lemma_mod_twice(k as int, id.spec_r() as int);
}

/// The product of two residues that stand for the integers `x` and `y`
/// stands for the product of the integers.
pub proof fn lemma_fmul_stands(a: nat, b: nat, x: int, y: int, p: nat)
    requires
        p > 0,
        a == x % (p as int),
        b == y % (p as int),
    ensures
        fmul(a, b, p) == (x * y) % (p as int),
{
    lemma_mul_mod_noop_general(x, y, p as int);
}

/// The sum of two residues that stand for the integers `x` and `y` stands
/// for the sum of the integers.
pub proof fn lemma_fadd_stands(a: nat, b: nat, x: int, y: int, p: nat)
    requires
        p > 0,
        a == x % (p as int),
        b == y % (p as int),
    ensures
        fadd(a, b, p) == (x + y) % (p as int),
{
    lemma_add_mod_noop(x, y, p as int);
}

/// The difference of two residues that stand for the integers `x` and `y`
/// stands for the difference of the integers.
pub proof fn lemma_fsub_stands(a: nat, b: nat, x: int, y: int, p: nat)
    requires
        p > 0,
        a == x % (p as int),
        b == y % (p as int),
    ensures
        fsub(a, b, p) == (x - y) % (p as int),
{
    lemma_sub_mod_noop(x, y, p as int);
}

/// The neutral element added to a point gives the point with every
/// coordinate multiplied by the point's `Z`.
pub proof fn lemma_identity_plus(a: PointView, p: nat, d: nat)
    requires
        p >= 2,
        valid_point(a, p),
    ensures
        point_add(identity_view(), a, p, d) == (PointView {
            x: fmul(a.x, a.z, p),
            y: fmul(a.z, a.y, p),
            z: fmul(a.z, a.z, p),
            t: fmul(a.x, a.y, p),
        }),
{
    let pi = p as int;
    lemma_small_mod(a.x, p);
    lemma_small_mod(a.y, p);
    lemma_small_mod(a.z, p);
    lemma_small_mod(a.t, p);
    lemma_small_mod(0, p);
    lemma_small_mod(1, p);
    assert(0 * a.x == 0 && 1 * a.y == a.y && 0 * a.t == 0 && 1 * a.z == a.z && d * 0 == 0)
        by (nonlinear_arith);
    let aa = fmul(0, a.x, p);
    let bb = fmul(1, a.y, p);
    let cc = fmul(d, fmul(0, a.t, p), p);
    let dd = fmul(1, a.z, p);
    assert(aa == 0 && bb == a.y && cc == 0 && dd == a.z);
    let s = fadd(a.x, a.y, p);
    assert(fadd(0, 1, p) == 1);
    assert(1 * s == s) by (nonlinear_arith);
    lemma_small_mod(s, p);
    assert(fmul(1, s, p) == s);
    assert(fsub(s, 0, p) == s);
    // (x + y) - y stands for x
    lemma_fsub_stands(s, a.y, (a.x + a.y) as int, a.y as int, p);
    assert(fsub(s, a.y, p) == a.x);
    assert(fsub(a.z, 0, p) == a.z);
    assert(fadd(a.z, 0, p) == a.z);
    assert(fsub(a.y, 0, p) == a.y);
}

/// The neutral element is neutral: added to a point, it gives the same
/// point.
pub proof fn lemma_identity_neutral(a: PointView, p: nat, d: nat)
    requires
        p >= 2,
        valid_point(a, p),
    ensures
        same_point(point_add(identity_view(), a, p, d), a, p),
        same_point(point_add(a, identity_view(), p, d), a, p),
{
    lemma_identity_plus(a, p, d);
    crate::curve::extended_edwards::lemma_add_commutative(a, identity_view(), p, d);
    let pi = p as int;
    // (x z) z = x (z z) and (z y) z = y (z z), modulo p
    lemma_mul_mod_noop_general((a.x * a.z) as int, a.z as int, pi);
    lemma_mul_mod_noop_general(a.x as int, (a.z * a.z) as int, pi);
    assert((a.x * a.z) * a.z == a.x * (a.z * a.z)) by (nonlinear_arith);
    lemma_mul_mod_noop_general((a.z * a.y) as int, a.z as int, pi);
    lemma_mul_mod_noop_general(a.y as int, (a.z * a.z) as int, pi);
    assert((a.z * a.y) * a.z == a.y * (a.z * a.z)) by (nonlinear_arith);
}

/// One times a point with `Z = 1` is the point.
pub proof fn lemma_one_times(x: nat, y: nat, p: nat, d: nat)
    requires
        p >= 2,
        x < p,
        y < p,
    ensures
        point_mul(1, extended_of(x, y, p), p, d) == extended_of(x, y, p),
{
    let a = extended_of(x, y, p);
    lemma_small_mod(x, p);
    lemma_small_mod(y, p);
    lemma_small_mod(1, p);
    lemma_mod_twice((x * y) as int, p as int);
    assert(1 * fmul(x, y, p) == fmul(x, y, p) && x * 1 == x && 1 * y == y && 1 * 1 == 1)
        by (nonlinear_arith);
    assert(valid_point(a, p));
    lemma_identity_plus(a, p, d);
    lemma_double_identity(p, d);
    reveal_with_fuel(point_mul, 2);
}

/// Two times a point with `Z = 1` is the sum of the point with itself.
pub proof fn lemma_two_times(x: nat, y: nat, p: nat, d: nat)
    requires
        p >= 2,
        x < p,
        y < p,
    ensures
        point_mul(2, extended_of(x, y, p), p, d) == point_add(
            extended_of(x, y, p),
            extended_of(x, y, p),
            p,
            d,
        ),
{
    lemma_one_times(x, y, p, d);
    reveal_with_fuel(point_mul, 2);
}

/// One times a valid point is the same point.
pub proof fn lemma_one_times_any(a: PointView, p: nat, d: nat)
    requires
        p >= 2,
        valid_point(a, p),
    ensures
        same_point(point_mul(1, a, p, d), a, p),
{
    lemma_identity_neutral(a, p, d);
    lemma_double_identity(p, d);
    reveal_with_fuel(point_mul, 2);
}

/// The integers that the parts of the double of a point stand for, from the
/// integers `x`, `y`, `z` and `t` that the coordinates stand for.
pub proof fn lemma_double_stands(a: PointView, x: int, y: int, z: int, t: int, p: nat, d: nat)
    requires
        p >= 2,
        a.x == x % (p as int),
        a.y == y % (p as int),
        a.z == z % (p as int),
        a.t == t % (p as int),
    ensures
        point_double(a, p, d).x == (((x + y) * (x + y) - x * x - y * y) * (z * z - d * (t * t)))
            % (p as int),
        point_double(a, p, d).y == ((z * z + d * (t * t)) * (y * y - x * x)) % (p as int),
        point_double(a, p, d).z == ((z * z - d * (t * t)) * (z * z + d * (t * t))) % (p as int),
{
    let pi = p as int;
    let di = d as int;
    let aa = fmul(a.x, a.x, p);
    lemma_fmul_stands(a.x, a.x, x, x, p);
    let bb = fmul(a.y, a.y, p);
    lemma_fmul_stands(a.y, a.y, y, y, p);
    let tt = fmul(a.t, a.t, p);
    lemma_fmul_stands(a.t, a.t, t, t, p);
    let cc = fmul(d, tt, p);
    lemma_mul_mod_noop_general(di, t * t, pi);
    let dd = fmul(a.z, a.z, p);
    lemma_fmul_stands(a.z, a.z, z, z, p);
    let s = fadd(a.x, a.y, p);
    lemma_fadd_stands(a.x, a.y, x, y, p);
    let m = fmul(s, s, p);
    lemma_fmul_stands(s, s, x + y, x + y, p);
    let e1 = fsub(m, aa, p);
    lemma_fsub_stands(m, aa, (x + y) * (x + y), x * x, p);
    let e = fsub(e1, bb, p);
    lemma_fsub_stands(e1, bb, (x + y) * (x + y) - x * x, y * y, p);
    let f = fsub(dd, cc, p);
    lemma_fsub_stands(dd, cc, z * z, di * (t * t), p);
    let g = fadd(dd, cc, p);
    lemma_fadd_stands(dd, cc, z * z, di * (t * t), p);
    let h = fsub(bb, aa, p);
    lemma_fsub_stands(bb, aa, y * y, x * x, p);
    lemma_fmul_stands(e, f, (x + y) * (x + y) - x * x - y * y, z * z - di * (t * t), p);
    lemma_fmul_stands(g, h, z * z + di * (t * t), y * y - x * x, p);
    lemma_fmul_stands(f, g, z * z - di * (t * t), z * z + di * (t * t), p);
}

/// Doubling does not tell a point from the point with every coordinate
/// multiplied by its `Z`: the doubles of a valid point and of its sum with
/// the neutral element are the same point.
pub proof fn lemma_double_of_scaled(a: PointView, p: nat, d: nat)
    requires
        p >= 2,
        valid_point(a, p),
    ensures
        same_point(
            point_double(point_add(identity_view(), a, p, d), p, d),
            point_double(a, p, d),
            p,
        ),
{
    let pi = p as int;
    let di = d as int;
    let x = a.x as int;
    let y = a.y as int;
    let z = a.z as int;
    let t = a.t as int;
    lemma_small_mod(a.x, p);
    lemma_small_mod(a.y, p);
    lemma_small_mod(a.z, p);
    lemma_small_mod(a.t, p);
    lemma_identity_plus(a, p, d);
    let s = point_add(identity_view(), a, p, d);
    // the coordinates of `s` stand for z x, z y, z z and z t
    assert(x * z == z * x) by (nonlinear_arith);
    lemma_double_stands(a, x, y, z, t, p, d);
    lemma_double_stands(s, z * x, z * y, z * z, z * t, p, d);
    let e = (x + y) * (x + y) - x * x - y * y;
    let f = z * z - di * (t * t);
    let g = z * z + di * (t * t);
    let h = y * y - x * x;
    let k = z * z;
    let e2 = (z * x + z * y) * (z * x + z * y) - (z * x) * (z * x) - (z * y) * (z * y);
    let f2 = (z * z) * (z * z) - di * ((z * t) * (z * t));
    let g2 = (z * z) * (z * z) + di * ((z * t) * (z * t));
    let h2 = (z * y) * (z * y) - (z * x) * (z * x);
    let xy = x * y;
    let u = z * x;
    let v = z * y;
    assert(e == 2 * xy) by (nonlinear_arith)
        requires
            e == (x + y) * (x + y) - x * x - y * y,
            xy == x * y,
    ;
    assert(e2 == 2 * (u * v)) by (nonlinear_arith)
        requires
            e2 == (u + v) * (u + v) - u * u - v * v,
    ;
    assert(u * v == k * xy) by (nonlinear_arith)
        requires
            u == z * x,
            v == z * y,
            k == z * z,
            xy == x * y,
    ;
    assert(e2 == k * e) by (nonlinear_arith)
        requires
            e2 == 2 * (k * xy),
            e == 2 * xy,
    ;
    assert(f2 == k * f) by (nonlinear_arith)
        requires
            f2 == (z * z) * (z * z) - di * ((z * t) * (z * t)),
            f == z * z - di * (t * t),
            k == z * z,
    ;
    assert(g2 == k * g) by (nonlinear_arith)
        requires
            g2 == (z * z) * (z * z) + di * ((z * t) * (z * t)),
            g == z * z + di * (t * t),
            k == z * z,
    ;
    assert(h2 == k * h) by (nonlinear_arith)
        requires
            h2 == (z * y) * (z * y) - (z * x) * (z * x),
            h == y * y - x * x,
            k == z * z,
    ;
    let ds = point_double(s, p, d);
    let da = point_double(a, p, d);
    lemma_fmul_stands(ds.x, da.z, e2 * f2, f * g, p);
    lemma_fmul_stands(da.x, ds.z, e * f, f2 * g2, p);
    assert((e2 * f2) * (f * g) == (e * f) * (f2 * g2)) by (nonlinear_arith)
        requires
            e2 == k * e,
            f2 == k * f,
            g2 == k * g,
    ;
    lemma_fmul_stands(ds.y, da.z, g2 * h2, f * g, p);
    lemma_fmul_stands(da.y, ds.z, g * h, f2 * g2, p);
    assert((g2 * h2) * (f * g) == (g * h) * (f2 * g2)) by (nonlinear_arith)
        requires
            h2 == k * h,
            f2 == k * f,
            g2 == k * g,
    ;
}

/// Four times a point with `Z = 1` is the same point as two times its
/// double.
pub proof fn lemma_four_times(x: nat, y: nat, p: nat, d: nat)
    requires
        p >= 2,
        x < p,
        y < p,
    ensures
        same_point(
            point_mul(4, extended_of(x, y, p), p, d),
            point_mul(2, point_mul(2, extended_of(x, y, p), p, d), p, d),
            p,
        ),
{
    let a = extended_of(x, y, p);
    lemma_two_times(x, y, p, d);
    let q = point_mul(2, a, p, d);
    crate::curve::extended_edwards::lemma_add_valid(a, a, p, d);
    lemma_double_identity(p, d);
    reveal_with_fuel(point_mul, 3);
    assert(point_mul(4, a, p, d) == point_double(q, p, d));
    assert(point_mul(2, q, p, d) == point_double(point_add(identity_view(), q, p, d), p, d));
    lemma_double_of_scaled(q, p, d);
}

/// The successor of an even number: one more than an even number times a
/// point is the even number times the point, plus the point.
pub proof fn lemma_successor_of_even(k: nat, a: PointView, p: nat, d: nat)
    requires
        p >= 2,
        k % 2 == 0,
    ensures
        point_mul(k + 1, a, p, d) == point_add(point_mul(k, a, p, d), a, p, d),
{
    if k == 0 {
        lemma_double_identity(p, d);
        reveal_with_fuel(point_mul, 2);
    } else {
        assert((k + 1) / 2 == k / 2);
    }
}

/// A point and its inverse add up to the neutral element, for every valid
/// point on the curve.
pub proof fn lemma_inverse(a: PointView, p: nat, d: nat)
    requires
        p >= 2,
        valid_point(a, p),
        on_curve(a, p, d),
    ensures
        same_point(point_add(a, point_neg(a, p), p, d), identity_view(), p),
{
    let pi = p as int;
    let x = a.x as int;
    let y = a.y as int;
    let z = a.z as int;
    let t = a.t as int;
    let di = d as int;
    lemma_small_mod(a.x, p);
    lemma_small_mod(a.y, p);
    lemma_small_mod(a.z, p);
    lemma_small_mod(a.t, p);
    let nx = fneg(a.x, p);
    let nt = fneg(a.t, p);
    assert(nx == (0 - x) % pi);
    assert(nt == (0 - t) % pi);
    // the parts of the sum, each with the integer that it stands for
    let aa = fmul(a.x, nx, p);
    lemma_fmul_stands(a.x, nx, x, 0 - x, p);
    let bb = fmul(a.y, a.y, p);
    lemma_fmul_stands(a.y, a.y, y, y, p);
    let tt = fmul(a.t, nt, p);
    lemma_fmul_stands(a.t, nt, t, 0 - t, p);
    let cc = fmul(d, tt, p);
    lemma_mul_mod_noop_general(di, t * (0 - t), pi);
    assert(cc == (di * (t * (0 - t))) % pi);
    let dd = fmul(a.z, a.z, p);
    lemma_fmul_stands(a.z, a.z, z, z, p);
    let s1 = fadd(a.x, a.y, p);
    lemma_fadd_stands(a.x, a.y, x, y, p);
    let s2 = fadd(nx, a.y, p);
    lemma_fadd_stands(nx, a.y, 0 - x, y, p);
    let m = fmul(s1, s2, p);
    lemma_fmul_stands(s1, s2, x + y, (0 - x) + y, p);
    let e1 = fsub(m, aa, p);
    lemma_fsub_stands(m, aa, (x + y) * ((0 - x) + y), x * (0 - x), p);
    let e = fsub(e1, bb, p);
    lemma_fsub_stands(e1, bb, (x + y) * ((0 - x) + y) - x * (0 - x), y * y, p);
    assert((x + y) * ((0 - x) + y) - x * (0 - x) - y * y == 0) by (nonlinear_arith);
    lemma_small_mod(0, p);
    assert(e == 0);
    let f = fsub(dd, cc, p);
    lemma_fsub_stands(dd, cc, z * z, di * (t * (0 - t)), p);
    let g = fadd(dd, cc, p);
    let h = fsub(bb, aa, p);
    lemma_fsub_stands(bb, aa, y * y, x * (0 - x), p);
    // on the curve, what `h` stands for is what `f` stands for
    lemma_fmul_stands(a.x, a.x, x, x, p);
    lemma_fadd_stands(fmul(a.x, a.x, p), bb, x * x, y * y, p);
    lemma_fmul_stands(a.t, a.t, t, t, p);
    lemma_mul_mod_noop_general(di, t * t, pi);
    lemma_fadd_stands(dd, fmul(d, fmul(a.t, a.t, p), p), z * z, di * (t * t), p);
    assert(y * y - x * (0 - x) == x * x + y * y) by (nonlinear_arith);
    assert(z * z - di * (t * (0 - t)) == z * z + di * (t * t)) by (nonlinear_arith);
    assert(h == f);
    // the sum is (0, g f, f g, 0)
    assert(0 * f == 0 && 0 * h == 0) by (nonlinear_arith);
    assert(g * h == f * g) by (nonlinear_arith)
        requires
            h == f,
    ;
    let sum = point_add(a, point_neg(a, p), p, d);
    assert(sum.x == 0);
    assert(sum.y == sum.z);
    assert(sum.x * 1 == 0 && 0 * sum.z == 0 && sum.y * 1 == 1 * sum.z) by (nonlinear_arith)
        requires
            sum.x == 0,
            sum.y == sum.z,
    ;
}

/// The generator of each curve, in extended coordinates, is a valid point on
/// the curve.
pub proof fn lemma_generator_valid(id: EdCurves)
    ensures
        valid_point(extended_of(id.spec_gx(), id.spec_gy(), id.spec_p()), id.spec_p()),
        on_curve(
            extended_of(id.spec_gx(), id.spec_gy(), id.spec_p()),
            id.spec_p(),
            id.spec_d(),
        ),
{
    let p = id.spec_p();
    let x = id.spec_gx();
    let y = id.spec_gy();
    let d = id.spec_d();
    crate::curve::params::lemma_generator_on_curve(id);
    lemma_small_mod(1, p);
    lemma_mod_twice((x * y) as int, p as int);
    assert(1 * fmul(x, y, p) == fmul(x, y, p) && 1 * 1 == 1) by (nonlinear_arith);
    // with Z = 1 and T = x y, the equation in extended coordinates is the
    // equation of the curve
    let xx = fmul(x, x, p);
    let yy = fmul(y, y, p);
    let t = fmul(x, y, p);
    lemma_fmul_stands(t, t, (x * y) as int, (x * y) as int, p);
    lemma_small_mod(x, p);
    lemma_small_mod(y, p);
    lemma_fmul_stands(x, x, x as int, x as int, p);
    lemma_fmul_stands(y, y, y as int, y as int, p);
    lemma_fmul_stands(xx, yy, (x * x) as int, (y * y) as int, p);
    assert((x * y) * (x * y) == (x * x) * (y * y)) by (nonlinear_arith);
    assert(fmul(t, t, p) == fmul(xx, yy, p));
    assert(fmul(1, 1, p) == 1);
}

/// The generator of each curve: zero times it is the neutral element, one
/// times it is itself, two times it is its sum with itself, four times it
/// is the same point as two times its double and is not the neutral
/// element, and its sum with its inverse is the neutral element.
pub proof fn lemma_generator_multiples(id: EdCurves)
    ensures
        ({
            let p = id.spec_p();
            let d = id.spec_d();
            let g = extended_of(id.spec_gx(), id.spec_gy(), p);
            &&& point_mul(0, g, p, d) == identity_view()
            &&& point_mul(1, g, p, d) == g
            &&& point_mul(2, g, p, d) == point_add(g, g, p, d)
            &&& same_point(point_mul(4, g, p, d), point_mul(2, point_mul(2, g, p, d), p, d), p)
            &&& !same_point(point_mul(4, g, p, d), identity_view(), p)
            &&& same_point(point_add(g, point_neg(g, p), p, d), identity_view(), p)
        }),
{
    let p = id.spec_p();
    let d = id.spec_d();
    let x = id.spec_gx();
    let y = id.spec_gy();
    lemma_one_times(x, y, p, d);
    lemma_two_times(x, y, p, d);
    lemma_four_times(x, y, p, d);
    crate::curve::four_times::lemma_four_times_generator(id);
    lemma_generator_valid(id);
    lemma_inverse(extended_of(x, y, p), p, d);
}

} // verus!
