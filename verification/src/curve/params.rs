use crate::curve::constants::{
    E448_D, E448_GX, E448_GY, E448_LIMBS, E448_P, E448_P_GAP, E448_P_SHIFT, E448_R, E448_R_GAP, E448_R_SHIFT,
    E521_D, E521_GX, E521_GY, E521_LIMBS, E521_P, E521_P_GAP, E521_P_SHIFT, E521_R, E521_R_GAP, E521_R_SHIFT,
};
use crate::curve::field::field_element::{fadd, fmul, FieldElement};
use crate::curve::field::bits::lemma_value_skip;
use crate::curve::field::limbs::{base, copy_limbs, pow32, value};
use crate::curve::field::modulus::{pow2, Modulus};
use vstd::prelude::*;

verus! {

/// The curves that the library supports: Edwards curves
/// `x^2 + y^2 = 1 + d x^2 y^2` over a prime field.
#[derive(Clone, Copy, Debug, PartialEq, Eq, Structural)]
pub enum EdCurves {
    E448,
    E521,
}

impl EdCurves {
    /// The prime of the field.
    pub open spec fn spec_p(self) -> nat {
        match self {
            EdCurves::E448 => 0xfffffffffffffffffffffffffffffffffffffffffffffffffffffffeffffffffffffffffffffffffffffffffffffffffffffffffffffffffnat,
            EdCurves::E521 => 0x1ffffffffffffffffffffffffffffffffffffffffffffffffffffffffffffffffffffffffffffffffffffffffffffffffffffffffffffffffffffffffffffffffffnat,
        }
    }

    /// The number of limbs of a coordinate and of a scalar.
    pub open spec fn spec_limbs(self) -> nat {
        match self {
            EdCurves::E448 => 14,
            EdCurves::E521 => 17,
        }
    }

    /// The order of the generator.
    pub open spec fn spec_r(self) -> nat {
        match self {
            EdCurves::E448 => 0x3fffffffffffffffffffffffffffffffffffffffffffffffffffffff7cca23e9c44edb49aed63690216cc2728dc58f552378c292ab5844f3nat,
            EdCurves::E521 => 0x7ffffffffffffffffffffffffffffffffffffffffffffffffffffffffffffffffd15b6c64746fc85f736b8af5e7ec53f04fbd8c4569a8f1f4540ea2435f5180d6bnat,
        }
    }

    /// The constant `d` of the curve equation, as a residue of the prime:
    /// -39081 for E448 and -376014 for E521.
    pub open spec fn spec_d(self) -> nat {
        match self {
            EdCurves::E448 => 0xfffffffffffffffffffffffffffffffffffffffffffffffffffffffeffffffffffffffffffffffffffffffffffffffffffffffffffff6756nat,
            EdCurves::E521 => 0x1fffffffffffffffffffffffffffffffffffffffffffffffffffffffffffffffffffffffffffffffffffffffffffffffffffffffffffffffffffffffffffffa4331nat,
        }
    }

    /// The first coordinate of the generator.
    pub open spec fn spec_gx(self) -> nat {
        match self {
            EdCurves::E448 => 8,
            EdCurves::E521 => 4,
        }
    }

    /// The second coordinate of the generator.
    pub open spec fn spec_gy(self) -> nat {
        match self {
            EdCurves::E448 => 0xc66f6f0565e6d0b5f2bb263cebb9f8540eb046f40ed0fff7f84d84653b428d989aabff93b6bf700801228094e3dd0c2d1c600e3b0bccfc32nat,
            EdCurves::E521 => 0x11dd4b4952f9b741bdb15c806d24013b3ebf3be43295904d1e4050b3c80f5920a145616ebb481557d7bfa955cbfb1cfd4e064b0de40f93e22f8bcdfb41d0093b10cnat,
        }
    }
}

/// The number that the limbs from `i` on spell, by Horner's rule.
pub open spec fn horner(s: Seq<u32>, i: int) -> nat
    decreases s.len() - i,
{
    if i < 0 || i >= s.len() {
        0
    } else {
        s[i] as nat + base() * horner(s, i + 1)
    }
}

/// Horner's rule gives the number that the limbs spell.
pub proof fn lemma_horner(s: Seq<u32>, i: int)
    requires
        0 <= i <= s.len(),
    ensures
        value(s.skip(i)) == horner(s, i),
    decreases s.len() - i,
{
    if i < s.len() {
        lemma_horner(s, i + 1);
        lemma_value_skip(s, i);
    } else {
        assert(s.skip(i) =~= Seq::<u32>::empty());
    }
}

/// The number that limbs spell, by Horner's rule.
pub proof fn lemma_value_horner(s: Seq<u32>)
    ensures
        value(s) == horner(s, 0),
{
    lemma_horner(s, 0);
    assert(s.skip(0) =~= s);
}

/// The powers of the base that the limbs of the two curves reach.
pub proof fn lemma_pow32_limbs()
    ensures
        pow32(14) == 0x10000000000000000000000000000000000000000000000000000000000000000000000000000000000000000000000000000000000000000nat,
        pow32(17) == 0x10000000000000000000000000000000000000000000000000000000000000000000000000000000000000000000000000000000000000000000000000000000000000000nat,
{
    reveal_with_fuel(pow32, 18);
}

/// The powers of two that measure how far the primes and the orders fall
/// short of their limbs.
pub proof fn lemma_shift_powers()
    ensures
        pow2(0) == 1,
        pow2(2) == 4,
        pow2(23) == 0x800000,
        pow2(25) == 0x2000000,
{
    reveal_with_fuel(pow2, 26);
    assert(pow2(23) == 0x800000);
    assert(pow2(25) == 0x2000000);
}

/// The parameters of a curve, ready for arithmetic: the field of its
/// coordinates, the residues modulo the order of its generator, the constant
/// of its equation and its generator.
pub struct Curve {
    pub id: EdCurves,
    pub field: Modulus,
    pub order: Modulus,
    pub d: FieldElement,
    pub gx: FieldElement,
    pub gy: FieldElement,
}

impl Curve {
    /// Whether the parts are those of the curve that `id` names.
    pub open spec fn wf(&self) -> bool {
        &&& self.field.wf()
        &&& self.order.wf()
        &&& self.field.spec_limbs() == self.id.spec_limbs()
        &&& self.order.spec_limbs() == self.id.spec_limbs()
        &&& self.field.spec_p() == self.id.spec_p()
        &&& self.order.spec_p() == self.id.spec_r()
        &&& self.d.wf(&self.field)
        &&& self.d@ == self.id.spec_d()
        &&& self.gx.wf(&self.field)
        &&& self.gx@ == self.id.spec_gx()
        &&& self.gy.wf(&self.field)
        &&& self.gy@ == self.id.spec_gy()
    }

    /// The prime of the field.
    pub open spec fn spec_p(&self) -> nat {
        self.id.spec_p()
    }

    /// The order of the generator.
    pub open spec fn spec_r(&self) -> nat {
        self.id.spec_r()
    }

    /// The constant of the curve equation.
    pub open spec fn spec_d(&self) -> nat {
        self.id.spec_d()
    }

    /// The number of limbs of a coordinate and of a scalar.
    pub fn limbs(&self) -> (n: usize)
        requires
            self.wf(),
        ensures
            n == self.id.spec_limbs(),
            n >= 1,
    {
        self.field.p.len()
    }

    /// The parameters of the curve that `id` names.
    pub fn new(id: EdCurves) -> (c: Curve)
        ensures
            c.wf(),
            c.id == id,
    {
        match id {
            EdCurves::E448 => {
                proof {
                    lemma_e448_constants();
                    lemma_shift_powers();
                    lemma_pow32_limbs();
                }
                let p = E448_P;
                let p_gap = E448_P_GAP;
                let r = E448_R;
                let r_gap = E448_R_GAP;
                let d = E448_D;
                let gy = E448_GY;
                let d_limbs = copy_limbs(d.as_slice(), 0, E448_LIMBS);
                let gy_limbs = copy_limbs(gy.as_slice(), 0, E448_LIMBS);
                assert(d_limbs@ =~= E448_D@);
                assert(gy_limbs@ =~= E448_GY@);
                assert(p@ == E448_P@ && r@ == E448_R@);
                Curve {
                    id,
                    field: Modulus::new(p.as_slice(), p_gap.as_slice(), E448_P_SHIFT),
                    order: Modulus::new(r.as_slice(), r_gap.as_slice(), E448_R_SHIFT),
                    d: FieldElement { limbs: d_limbs },
                    gx: FieldElement::from_u32(E448_GX, E448_LIMBS),
                    gy: FieldElement { limbs: gy_limbs },
                }
            },
            EdCurves::E521 => {
                proof {
                    lemma_e521_constants();
                    lemma_shift_powers();
                    lemma_pow32_limbs();
                }
                let p = E521_P;
                let p_gap = E521_P_GAP;
                let r = E521_R;
                let r_gap = E521_R_GAP;
                let d = E521_D;
                let gy = E521_GY;
                let d_limbs = copy_limbs(d.as_slice(), 0, E521_LIMBS);
                let gy_limbs = copy_limbs(gy.as_slice(), 0, E521_LIMBS);
                assert(d_limbs@ =~= E521_D@);
                assert(gy_limbs@ =~= E521_GY@);
                assert(p@ == E521_P@ && r@ == E521_R@);
                Curve {
                    id,
                    field: Modulus::new(p.as_slice(), p_gap.as_slice(), E521_P_SHIFT),
                    order: Modulus::new(r.as_slice(), r_gap.as_slice(), E521_R_SHIFT),
                    d: FieldElement { limbs: d_limbs },
                    gx: FieldElement::from_u32(E521_GX, E521_LIMBS),
                    gy: FieldElement { limbs: gy_limbs },
                }
            },
        }
    }
}

/// The numbers that the limbs of the constants of E448 spell.
pub proof fn lemma_e448_constants()
    ensures
        value(E448_P@) == EdCurves::E448.spec_p(),
        value(E448_P@) + value(E448_P_GAP@) == 0x10000000000000000000000000000000000000000000000000000000000000000000000000000000000000000000000000000000000000000nat,
        value(E448_R@) == EdCurves::E448.spec_r(),
        value(E448_R@) + value(E448_R_GAP@) == 0x4000000000000000000000000000000000000000000000000000000000000000000000000000000000000000000000000000000000000000nat,
        value(E448_D@) == EdCurves::E448.spec_d(),
        value(E448_GY@) == EdCurves::E448.spec_gy(),
{
    reveal_with_fuel(horner, 18);
    lemma_value_horner(E448_P@);
    lemma_value_horner(E448_P_GAP@);
    lemma_value_horner(E448_R@);
    lemma_value_horner(E448_R_GAP@);
    lemma_value_horner(E448_D@);
    lemma_value_horner(E448_GY@);
}

/// The numbers that the limbs of the constants of E521 spell.
pub proof fn lemma_e521_constants()
    ensures
        value(E521_P@) == EdCurves::E521.spec_p(),
        value(E521_P@) + value(E521_P_GAP@) == 0x20000000000000000000000000000000000000000000000000000000000000000000000000000000000000000000000000000000000000000000000000000000000nat,
        value(E521_R@) == EdCurves::E521.spec_r(),
        value(E521_R@) + value(E521_R_GAP@) == 0x8000000000000000000000000000000000000000000000000000000000000000000000000000000000000000000000000000000000000000000000000000000000nat,
        value(E521_D@) == EdCurves::E521.spec_d(),
        value(E521_GY@) == EdCurves::E521.spec_gy(),
{
    reveal_with_fuel(horner, 18);
    lemma_value_horner(E521_P@);
    lemma_value_horner(E521_P_GAP@);
    lemma_value_horner(E521_R@);
    lemma_value_horner(E521_R_GAP@);
    lemma_value_horner(E521_D@);
    lemma_value_horner(E521_GY@);
}

/// Whether the point `(x, y)` lies on the curve `x^2 + y^2 = 1 + d x^2 y^2`
/// over the field of `p` elements.
pub open spec fn on_curve_affine(x: nat, y: nat, p: nat, d: nat) -> bool {
    fadd(fmul(x, x, p), fmul(y, y, p), p) == fadd(
        1,
        fmul(d, fmul(fmul(x, x, p), fmul(y, y, p), p), p),
        p,
    )
}

/// The generator of each curve lies on the curve.
pub proof fn lemma_generator_on_curve(id: EdCurves)
    ensures
        on_curve_affine(id.spec_gx(), id.spec_gy(), id.spec_p(), id.spec_d()),
{
    match id {
        EdCurves::E448 => {
            let p = EdCurves::E448.spec_p();
            let y = EdCurves::E448.spec_gy();
            let d = EdCurves::E448.spec_d();
            let yy = 0xfc2b2e67e634e4300eab0ee5e1b337d9d16756c03221853370c64fb2067dfdda053b2ee6ed2b7d9d4c1ece45a30a9351d1fe78cdef6eaf79nat;
            let xxyy = 0xacb99f98d390c03aac3b9786ccdf67459d5b00c88614cdc3193ecc09f7f76814ecbb9bb4adf675307b39168c2a4d4747f9e337bdbabde7fnat;
            let dxxyy = 0xfc2b2e67e634e4300eab0ee5e1b337d9d16756c03221853370c64fb2067dfdda053b2ee6ed2b7d9d4c1ece45a30a9351d1fe78cdef6eafb8nat;
            assert((y * y) % p == yy) by (nonlinear_arith)
                requires
                    y == 0xc66f6f0565e6d0b5f2bb263cebb9f8540eb046f40ed0fff7f84d84653b428d989aabff93b6bf700801228094e3dd0c2d1c600e3b0bccfc32nat,
                    p == 0xfffffffffffffffffffffffffffffffffffffffffffffffffffffffeffffffffffffffffffffffffffffffffffffffffffffffffffffffffnat,
                    yy == 0xfc2b2e67e634e4300eab0ee5e1b337d9d16756c03221853370c64fb2067dfdda053b2ee6ed2b7d9d4c1ece45a30a9351d1fe78cdef6eaf79nat,
            ;
            assert((64nat * yy) % p == xxyy) by (nonlinear_arith)
                requires
                    p == 0xfffffffffffffffffffffffffffffffffffffffffffffffffffffffeffffffffffffffffffffffffffffffffffffffffffffffffffffffffnat,
                    yy == 0xfc2b2e67e634e4300eab0ee5e1b337d9d16756c03221853370c64fb2067dfdda053b2ee6ed2b7d9d4c1ece45a30a9351d1fe78cdef6eaf79nat,
                    xxyy == 0xacb99f98d390c03aac3b9786ccdf67459d5b00c88614cdc3193ecc09f7f76814ecbb9bb4adf675307b39168c2a4d4747f9e337bdbabde7fnat,
            ;
            assert((d * xxyy) % p == dxxyy) by (nonlinear_arith)
                requires
                    d == 0xfffffffffffffffffffffffffffffffffffffffffffffffffffffffeffffffffffffffffffffffffffffffffffffffffffffffffffff6756nat,
                    p == 0xfffffffffffffffffffffffffffffffffffffffffffffffffffffffeffffffffffffffffffffffffffffffffffffffffffffffffffffffffnat,
                    xxyy == 0xacb99f98d390c03aac3b9786ccdf67459d5b00c88614cdc3193ecc09f7f76814ecbb9bb4adf675307b39168c2a4d4747f9e337bdbabde7fnat,
                    dxxyy == 0xfc2b2e67e634e4300eab0ee5e1b337d9d16756c03221853370c64fb2067dfdda053b2ee6ed2b7d9d4c1ece45a30a9351d1fe78cdef6eafb8nat,
            ;
            assert(fmul(8, 8, p) == 64);
            assert(fmul(y, y, p) == yy);
            assert(fmul(64, yy, p) == xxyy);
            assert(fmul(d, xxyy, p) == dxxyy);
        },
        EdCurves::E521 => {
            let p = EdCurves::E521.spec_p();
            let y = EdCurves::E521.spec_gy();
            let d = EdCurves::E521.spec_d();
            let yy = 0x6314137883cd7fb89159e598003bb1ddabaf6e943d00499568d6331c292e3afb67967be3e815cc5f9877838a3bbc36e6338060de2c7f5b2893d1b3f8570120b97anat;
            let xxyy = 0x314137883cd7fb89159e598003bb1ddabaf6e943d00499568d6331c292e3afb67967be3e815cc5f9877838a3bbc36e6338060de2c7f5b2893d1b3f8570120b97a3nat;
            let dxxyy = 0x6314137883cd7fb89159e598003bb1ddabaf6e943d00499568d6331c292e3afb67967be3e815cc5f9877838a3bbc36e6338060de2c7f5b2893d1b3f8570120b989nat;
            assert((y * y) % p == yy) by (nonlinear_arith)
                requires
                    y == 0x11dd4b4952f9b741bdb15c806d24013b3ebf3be43295904d1e4050b3c80f5920a145616ebb481557d7bfa955cbfb1cfd4e064b0de40f93e22f8bcdfb41d0093b10cnat,
                    p == 0x1ffffffffffffffffffffffffffffffffffffffffffffffffffffffffffffffffffffffffffffffffffffffffffffffffffffffffffffffffffffffffffffffffffnat,
                    yy == 0x6314137883cd7fb89159e598003bb1ddabaf6e943d00499568d6331c292e3afb67967be3e815cc5f9877838a3bbc36e6338060de2c7f5b2893d1b3f8570120b97anat,
            ;
            assert((16nat * yy) % p == xxyy) by (nonlinear_arith)
                requires
                    p == 0x1ffffffffffffffffffffffffffffffffffffffffffffffffffffffffffffffffffffffffffffffffffffffffffffffffffffffffffffffffffffffffffffffffffnat,
                    yy == 0x6314137883cd7fb89159e598003bb1ddabaf6e943d00499568d6331c292e3afb67967be3e815cc5f9877838a3bbc36e6338060de2c7f5b2893d1b3f8570120b97anat,
                    xxyy == 0x314137883cd7fb89159e598003bb1ddabaf6e943d00499568d6331c292e3afb67967be3e815cc5f9877838a3bbc36e6338060de2c7f5b2893d1b3f8570120b97a3nat,
            ;
            assert((d * xxyy) % p == dxxyy) by (nonlinear_arith)
                requires
                    d == 0x1fffffffffffffffffffffffffffffffffffffffffffffffffffffffffffffffffffffffffffffffffffffffffffffffffffffffffffffffffffffffffffffa4331nat,
                    p == 0x1ffffffffffffffffffffffffffffffffffffffffffffffffffffffffffffffffffffffffffffffffffffffffffffffffffffffffffffffffffffffffffffffffffnat,
                    xxyy == 0x314137883cd7fb89159e598003bb1ddabaf6e943d00499568d6331c292e3afb67967be3e815cc5f9877838a3bbc36e6338060de2c7f5b2893d1b3f8570120b97a3nat,
                    dxxyy == 0x6314137883cd7fb89159e598003bb1ddabaf6e943d00499568d6331c292e3afb67967be3e815cc5f9877838a3bbc36e6338060de2c7f5b2893d1b3f8570120b989nat,
            ;
            assert(fmul(4, 4, p) == 16);
            assert(fmul(y, y, p) == yy);
            assert(fmul(16, yy, p) == xxyy);
            assert(fmul(d, xxyy, p) == dxxyy);
        },
    }
}

} // verus!
