use crate::curve::field::bits::lemma_value_skip;
use crate::curve::field::field_element::{fadd, fmul, fsub};
use crate::curve::field::limbs::{base, copy_limbs, lemma_value_update, pow32, value, zeros};
use crate::curve::field::modulus::Modulus;
use crate::curve::params::{Curve, EdCurves};
use vstd::arithmetic::div_mod::{
    lemma_add_mod_noop, lemma_mul_mod_noop_general, lemma_small_mod,
};
use vstd::prelude::*;

verus! {

/// The number that a byte string spells, the highest byte first.
pub open spec fn be_value(s: Seq<u8>) -> nat
    decreases s.len(),
{
    if s.len() == 0 {
        0
    } else {
        256 * be_value(s.drop_last()) + s.last() as nat
    }
}

/// The lowest `n` digits of `x` in base 256, the highest first.
pub open spec fn fixed_be(x: nat, n: nat) -> Seq<u8>
    decreases n,
{
    if n == 0 {
        Seq::<u8>::empty()
    } else {
        fixed_be(x / 256, (n - 1) as nat).push((x % 256) as u8)
    }
}

/// A byte string is the digits of the number that it spells.
pub proof fn lemma_fixed_be(s: Seq<u8>)
    ensures
        s == fixed_be(be_value(s), s.len()),
    decreases s.len(),
{
    if s.len() > 0 {
        lemma_fixed_be(s.drop_last());
        assert(s =~= s.drop_last().push(s.last()));
    } else {
        assert(s =~= Seq::<u8>::empty());
    }
}

/// What a point is multiplied by: a number, most often a residue of the
/// order of a curve's generator. Points are multiplied by scalars of any
/// size; the arithmetic on scalars is that of residues.
#[derive(Debug)]
pub struct Scalar {
    pub limbs: Vec<u32>,
}

impl View for Scalar {
    type V = nat;

    open spec fn view(&self) -> nat {
        value(self.limbs@)
    }
}

impl Scalar {
    /// Whether the scalar is a residue of the curve's order.
    pub open spec fn wf(&self, c: &Curve) -> bool {
        c.order.is_residue(self.limbs@)
    }

    /// A copy of the scalar.
    pub fn copy(&self) -> (r: Scalar)
        ensures
            r.limbs@ == self.limbs@,
    {
        let limbs = copy_limbs(self.limbs.as_slice(), 0, self.limbs.len());
        assert(limbs@ =~= self.limbs@);
        Scalar { limbs }
    }

    /// The scalar that limbs spell, the lowest limb first: a number of any
    /// size, not reduced.
    pub fn from_limbs(limbs: Vec<u32>) -> (r: Scalar)
        ensures
            r.limbs@ == limbs@,
            r@ == value(limbs@),
    {
        Scalar { limbs }
    }

    /// The scalar that a 64-bit number names.
    pub fn from_u64(v: u64, c: &Curve) -> (r: Scalar)
        requires
            c.wf(),
        ensures
            r.wf(c),
            r@ == v,
    {
        let mut limbs = zeros(c.limbs());
        let ghost zero = limbs@;
        let lo: u32 = (v % 0x1_0000_0000) as u32;
        let hi: u32 = (v / 0x1_0000_0000) as u32;
        limbs[0] = lo;
        let ghost first = limbs@;
        limbs[1] = hi;
        proof {
            lemma_value_update(zero, 0, lo, c.field.spec_limbs());
            lemma_value_update(first, 1, hi, c.field.spec_limbs());
            reveal_with_fuel(pow32, 2);
            assert(pow32(0) == 1 && pow32(1) == base());
            assert(0 * pow32(0) == 0 && 0 * pow32(1) == 0) by (nonlinear_arith);
            assert(lo as nat * 1 == lo) by (nonlinear_arith);
            assert(zero[0] == 0 && first[1] == 0);
            assert(value(first) == lo);
            assert(hi as nat * pow32(1) == hi as nat * 0x1_0000_0000) by (nonlinear_arith)
                requires
                    pow32(1) == 0x1_0000_0000,
            ;
            assert(value(limbs@) == lo + hi as nat * 0x1_0000_0000);
            lemma_order_is_large(c.id);
        }
        Scalar { limbs }
    }

    /// The scalar that a byte string names, the highest byte first: the
    /// number that the bytes spell, reduced modulo the order.
    pub fn from_be_bytes(bytes: &[u8], c: &Curve) -> (r: Scalar)
        requires
            c.wf(),
        ensures
            r.wf(c),
            r@ == be_value(bytes@) % c.spec_r(),
    {
        proof {
            lemma_order_is_large(c.id);
        }
        Scalar { limbs: residue_of_bytes(bytes, &c.order) }
    }

    /// The scalar written in bytes, the highest byte first, four bytes to a
    /// limb.
    pub fn to_be_bytes(&self) -> (bytes: Vec<u8>)
        ensures
            bytes@ == fixed_be(self@, 4 * self.limbs@.len()),
            be_value(bytes@) == self@,
    {
        to_be_bytes(self.limbs.as_slice())
    }

    /// The sum of two scalars modulo the order.
    pub fn add(&self, other: &Scalar, c: &Curve) -> (r: Scalar)
        requires
            c.wf(),
            self.wf(c),
            other.wf(c),
        ensures
            r.wf(c),
            r@ == fadd(self@, other@, c.spec_r()),
    {
        Scalar { limbs: c.order.add(self.limbs.as_slice(), other.limbs.as_slice()) }
    }

    /// The difference of two scalars modulo the order.
    pub fn sub(&self, other: &Scalar, c: &Curve) -> (r: Scalar)
        requires
            c.wf(),
            self.wf(c),
            other.wf(c),
        ensures
            r.wf(c),
            r@ == fsub(self@, other@, c.spec_r()),
    {
        Scalar { limbs: c.order.sub(self.limbs.as_slice(), other.limbs.as_slice()) }
    }

    /// The product of two scalars modulo the order.
    pub fn mul(&self, other: &Scalar, c: &Curve) -> (r: Scalar)
        requires
            c.wf(),
            self.wf(c),
            other.wf(c),
        ensures
            r.wf(c),
            r@ == fmul(self@, other@, c.spec_r()),
    {
        Scalar { limbs: c.order.mul(self.limbs.as_slice(), other.limbs.as_slice()) }
    }

    /// Whether two scalars are the same residue.
    pub fn equals(&self, other: &Scalar) -> (same: bool)
        requires
            self.limbs@.len() == other.limbs@.len(),
        ensures
            same == (self@ == other@),
    {
        let (d, borrow) = crate::curve::field::limbs::sub_limbs(
            self.limbs.as_slice(),
            other.limbs.as_slice(),
        );
        proof {
            assert(0 * pow32(self.limbs@.len()) == 0) by (nonlinear_arith);
        }
        borrow == 0 && crate::curve::field::limbs::is_zero(d.as_slice())
    }
}

// The residue that a number below the modulus and below the base names.
fn small_residue(v: u32, m: &Modulus) -> (r: Vec<u32>)
    requires
        m.wf(),
        v < m.spec_p(),
    ensures
        m.is_residue(r@),
        value(r@) == v,
{
    let mut limbs = zeros(m.p.len());
    let ghost before = limbs@;
    limbs[0] = v;
    proof {
        lemma_value_update(before, 0, v, m.spec_limbs());
        assert(pow32(0) == 1);
        assert(0 * pow32(0) == 0) by (nonlinear_arith);
        assert(v as nat * 1 == v) by (nonlinear_arith);
    }
    limbs
}

/// The residue that a byte string names, the highest byte first: the number
/// that the bytes spell, reduced modulo a modulus above 256.
pub fn residue_of_bytes(bytes: &[u8], m: &Modulus) -> (r: Vec<u32>)
    requires
        m.wf(),
        m.spec_p() > 256,
    ensures
        m.is_residue(r@),
        value(r@) == be_value(bytes@) % m.spec_p(),
{
    let n: usize = bytes.len();
    let ghost p = m.spec_p() as int;
    let shift = small_residue(256, m);
    let mut acc = small_residue(0, m);
    let mut i: usize = 0;
    proof {
        assert(bytes@.take(0) =~= Seq::<u8>::empty());
        lemma_small_mod(0, m.spec_p());
    }
    while i < n
        invariant
            i <= n,
            n == bytes@.len(),
            m.wf(),
            p == m.spec_p(),
            p > 256,
            m.is_residue(shift@),
            value(shift@) == 256,
            m.is_residue(acc@),
            value(acc@) == be_value(bytes@.take(i as int)) % m.spec_p(),
        decreases n - i,
    {
        let ghost h = be_value(bytes@.take(i as int)) as int;
        let digit = small_residue(bytes[i] as u32, m);
        let scaled = m.mul(acc.as_slice(), shift.as_slice());
        acc = m.add(scaled.as_slice(), digit.as_slice());
        proof {
            assert(bytes@.take(i + 1).drop_last() =~= bytes@.take(i as int));
            let b = bytes@[i as int] as int;
            lemma_mul_mod_noop_general(h, 256, p);
            lemma_add_mod_noop(h * 256, b, p);
            lemma_small_mod(b as nat, p as nat);
            assert(h * 256 == 256 * h) by (nonlinear_arith);
        }
        i += 1;
    }
    assert(bytes@.take(n as int) =~= bytes@);
    acc
}

/// The order of each curve is larger than any 64-bit number.
pub proof fn lemma_order_is_large(id: EdCurves)
    ensures
        id.spec_r() > 0xffff_ffff_ffff_ffff,
        id.spec_p() > 0xffff_ffff_ffff_ffff,
{
}

/// Four more bytes move what a byte string spells up by four digits and
/// add what the four spell.
pub proof fn lemma_push_four(s: Seq<u8>, b3: u8, b2: u8, b1: u8, b0: u8)
    ensures
        be_value(s.push(b3).push(b2).push(b1).push(b0)) == 0x1_0000_0000 * be_value(s) + 0x100_0000
            * b3 + 0x1_0000 * b2 + 0x100 * b1 + b0,
{
    let s1 = s.push(b3);
    let s2 = s1.push(b2);
    let s3 = s2.push(b1);
    let s4 = s3.push(b0);
    assert(s1.drop_last() =~= s);
    assert(s2.drop_last() =~= s1);
    assert(s3.drop_last() =~= s2);
    assert(s4.drop_last() =~= s3);
    assert(be_value(s1) == 256 * be_value(s) + b3);
    assert(be_value(s2) == 256 * be_value(s1) + b2);
    assert(be_value(s3) == 256 * be_value(s2) + b1);
    assert(be_value(s4) == 256 * be_value(s3) + b0);
}

/// The number that a number of limbs spells, written with four bytes to a
/// limb, the highest byte first.
pub fn to_be_bytes(limbs: &[u32]) -> (bytes: Vec<u8>)
    ensures
        be_value(bytes@) == value(limbs@),
        bytes@.len() == 4 * limbs@.len(),
        bytes@ == fixed_be(value(limbs@), 4 * limbs@.len()),
{
    let n: usize = limbs.len();
    let mut bytes: Vec<u8> = Vec::new();
    let mut i: usize = n;
    assert(limbs@.skip(n as int) =~= Seq::<u32>::empty());
    while i > 0
        invariant
            i <= n,
            n == limbs@.len(),
            bytes@.len() == 4 * (n - i),
            be_value(bytes@) == value(limbs@.skip(i as int)),
        decreases i,
    {
        i -= 1;
        let limb: u32 = limbs[i];
        let b3: u8 = (limb / 0x100_0000) as u8;
        let b2: u8 = (limb / 0x1_0000 % 0x100) as u8;
        let b1: u8 = (limb / 0x100 % 0x100) as u8;
        let b0: u8 = (limb % 0x100) as u8;
        let ghost s0 = bytes@;
        bytes.push(b3);
        bytes.push(b2);
        bytes.push(b1);
        bytes.push(b0);
        proof {
            lemma_push_four(s0, b3, b2, b1, b0);
            lemma_value_skip(limbs@, i as int);
            assert(limb == 0x100_0000 * b3 + 0x1_0000 * b2 + 0x100 * b1 + b0);
        }
    }
    assert(limbs@.skip(0) =~= limbs@);
    proof {
        lemma_fixed_be(bytes@);
    }
    bytes
}

} // verus!
