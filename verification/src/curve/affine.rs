use crate::curve::extended_edwards::{ExtendedPoint, PointView};
use crate::curve::field::field_element::{fmul, FieldElement};
use crate::curve::params::Curve;
use vstd::arithmetic::div_mod::lemma_mod_twice;
use vstd::prelude::*;

verus! {

/// A point given by its two coordinates.
#[derive(Debug)]
pub struct AffinePoint {
    pub x: FieldElement,
    pub y: FieldElement,
}

/// The extended coordinates of the point `(x, y)`: `(x, y, 1, x y)`.
pub open spec fn extended_of(x: nat, y: nat, p: nat) -> PointView {
    PointView { x, y, z: 1, t: fmul(x, y, p) }
}

impl AffinePoint {
    /// Whether the coordinates are residues of the curve's prime.
    pub open spec fn wf(&self, c: &Curve) -> bool {
        self.x.wf(&c.field) && self.y.wf(&c.field)
    }

    /// The neutral element of the group: the point `(0, 1)`.
    pub fn identity(c: &Curve) -> (r: AffinePoint)
        requires
            c.wf(),
        ensures
            r.wf(c),
            r.x@ == 0,
            r.y@ == 1,
    {
        AffinePoint { x: FieldElement::zero(c.limbs()), y: FieldElement::one(c.limbs()) }
    }

    /// The generator of the curve.
    pub fn generator(c: &Curve) -> (r: AffinePoint)
        requires
            c.wf(),
        ensures
            r.wf(c),
            r.x@ == c.id.spec_gx(),
            r.y@ == c.id.spec_gy(),
    {
        AffinePoint { x: c.gx.clone(), y: c.gy.clone() }
    }

    /// The same point in extended coordinates: `(x, y, 1, x y)`.
    pub fn to_extended(&self, c: &Curve) -> (r: ExtendedPoint)
        requires
            c.wf(),
            self.wf(c),
        ensures
            r.wf(c),
            r@ == extended_of(self.x@, self.y@, c.spec_p()),
    {
        let t = self.x.mul(&self.y, &c.field);
        let r = ExtendedPoint { X: self.x.clone(), Y: self.y.clone(), Z: FieldElement::one(c.limbs()), T: t };
        proof {
            let p = c.spec_p();
            lemma_mod_twice((self.x@ * self.y@) as int, p as int);
            assert(1 * fmul(self.x@, self.y@, p) == fmul(self.x@, self.y@, p)) by (nonlinear_arith);
        }
        r
    }
}

} // verus!
