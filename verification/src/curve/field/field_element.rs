use crate::curve::field::bits::{bits_of, bits_value};
use crate::curve::field::limbs::{
    copy_limbs, is_zero, lemma_value_update, pow32, sub_limbs, value, zeros,
};
use crate::curve::field::modulus::Modulus;
use vstd::arithmetic::div_mod::{lemma_mul_mod_noop_general, lemma_small_mod};
use vstd::arithmetic::power::{lemma_pow0, lemma_pow1, lemma_pow_adds, pow};
use vstd::prelude::*;

verus! {

/// The sum of two residues modulo `p`.
pub open spec fn fadd(a: nat, b: nat, p: nat) -> nat {
    (a + b) % p
}

/// The difference of two residues modulo `p`.
pub open spec fn fsub(a: nat, b: nat, p: nat) -> nat {
    ((a - b) % (p as int)) as nat
}

/// The product of two residues modulo `p`.
pub open spec fn fmul(a: nat, b: nat, p: nat) -> nat {
    (a * b) % p
}

/// The residue that added to `a` gives zero modulo `p`.
pub open spec fn fneg(a: nat, p: nat) -> nat {
    fsub(0, a, p)
}

/// The power `a^e` modulo `p`.
pub open spec fn fpow(a: nat, e: nat, p: nat) -> nat {
    (pow(a as int, e) % (p as int)) as nat
}

/// The inverse of `a` modulo a prime `p`: the power `a^(p-2)`.
pub open spec fn finv(a: nat, p: nat) -> nat {
    fpow(a, (p - 2) as nat, p)
}

/// An integer modulo the prime of a curve, held as a residue below the
/// prime.
#[derive(Debug)]
pub struct FieldElement {
    pub limbs: Vec<u32>,
}

impl View for FieldElement {
    type V = nat;

    open spec fn view(&self) -> nat {
        value(self.limbs@)
    }
}

impl Clone for FieldElement {
    fn clone(&self) -> (r: Self)
        ensures
            r.limbs@ == self.limbs@,
    {
        let limbs = copy_limbs(self.limbs.as_slice(), 0, self.limbs.len());
        assert(limbs@ =~= self.limbs@);
        FieldElement { limbs }
    }
}

impl FieldElement {
    /// Whether the element is a residue of the modulus.
    pub open spec fn wf(&self, m: &Modulus) -> bool {
        m.is_residue(self.limbs@)
    }

    /// The element zero, in `n` limbs.
    pub fn zero(n: usize) -> (r: Self)
        ensures
            r@ == 0,
            r.limbs@.len() == n,
    {
        FieldElement { limbs: zeros(n) }
    }

    /// The element one, in `n` limbs.
    pub fn one(n: usize) -> (r: Self)
        requires
            n >= 1,
        ensures
            r@ == 1,
            r.limbs@.len() == n,
    {
        Self::from_u32(1, n)
    }

    /// The element that a small number names, in `n` limbs.
    pub fn from_u32(v: u32, n: usize) -> (r: Self)
        requires
            n >= 1,
        ensures
            r@ == v,
            r.limbs@.len() == n,
    {
        let mut limbs = zeros(n);
        let ghost before = limbs@;
        limbs[0] = v;
        proof {
            lemma_value_update(before, 0, v, n as nat);
            assert(pow32(0) == 1);
            assert(0 * pow32(0) == 0) by (nonlinear_arith);
            assert(v as nat * 1 == v) by (nonlinear_arith);
        }
        FieldElement { limbs }
    }

    /// The element that a byte string names, the highest byte first: the
    /// number that the bytes spell, reduced modulo the prime.
    pub fn from_be_bytes(bytes: &[u8], m: &Modulus) -> (r: Self)
        requires
            m.wf(),
            m.spec_p() > 256,
        ensures
            r.wf(m),
            r@ == crate::curve::scalar::be_value(bytes@) % m.spec_p(),
    {
        FieldElement { limbs: crate::curve::scalar::residue_of_bytes(bytes, m) }
    }

    /// The element written in bytes, the highest byte first, four bytes to
    /// a limb.
    pub fn to_be_bytes(&self) -> (bytes: Vec<u8>)
        ensures
            bytes@ == crate::curve::scalar::fixed_be(self@, 4 * self.limbs@.len()),
            crate::curve::scalar::be_value(bytes@) == self@,
    {
        crate::curve::scalar::to_be_bytes(self.limbs.as_slice())
    }

    /// The sum of two elements.
    pub fn add(&self, rhs: &Self, m: &Modulus) -> (r: Self)
        requires
            m.wf(),
            self.wf(m),
            rhs.wf(m),
        ensures
            r.wf(m),
            r@ == fadd(self@, rhs@, m.spec_p()),
    {
        FieldElement { limbs: m.add(self.limbs.as_slice(), rhs.limbs.as_slice()) }
    }

    /// The difference of two elements.
    pub fn sub(&self, rhs: &Self, m: &Modulus) -> (r: Self)
        requires
            m.wf(),
            self.wf(m),
            rhs.wf(m),
        ensures
            r.wf(m),
            r@ == fsub(self@, rhs@, m.spec_p()),
    {
        FieldElement { limbs: m.sub(self.limbs.as_slice(), rhs.limbs.as_slice()) }
    }

    /// The product of two elements.
    pub fn mul(&self, rhs: &Self, m: &Modulus) -> (r: Self)
        requires
            m.wf(),
            self.wf(m),
            rhs.wf(m),
        ensures
            r.wf(m),
            r@ == fmul(self@, rhs@, m.spec_p()),
    {
        FieldElement { limbs: m.mul(self.limbs.as_slice(), rhs.limbs.as_slice()) }
    }

    /// The element that added to this one gives zero.
    pub fn neg(&self, m: &Modulus) -> (r: Self)
        requires
            m.wf(),
            self.wf(m),
        ensures
            r.wf(m),
            r@ == fneg(self@, m.spec_p()),
    {
        let zero = zeros(self.limbs.len());
        FieldElement { limbs: m.sub(zero.as_slice(), self.limbs.as_slice()) }
    }

    /// Whether two elements are the same residue.
    pub fn equals(&self, rhs: &Self) -> (same: bool)
        requires
            self.limbs@.len() == rhs.limbs@.len(),
        ensures
            same == (self@ == rhs@),
    {
        let (d, borrow) = sub_limbs(self.limbs.as_slice(), rhs.limbs.as_slice());
        proof {
            assert(0 * pow32(self.limbs@.len()) == 0) by (nonlinear_arith);
        }
        borrow == 0 && is_zero(d.as_slice())
    }

    /// Whether the element is zero.
    pub fn is_zero(&self) -> (z: bool)
        ensures
            z == (self@ == 0),
    {
        is_zero(self.limbs.as_slice())
    }

    /// The power of the element whose exponent the binary digits spell, the
    /// highest digit first.
    pub fn pow(&self, bits: &[bool], m: &Modulus) -> (r: Self)
        requires
            m.wf(),
            self.wf(m),
        ensures
            r.wf(m),
            r@ == fpow(self@, bits_value(bits@), m.spec_p()),
    {
        let n: usize = bits.len();
        let ghost p = m.spec_p() as int;
        let ghost a = self@ as int;
        let mut acc = Self::one(m.p.len());
        let mut i: usize = 0;
        proof {
            lemma_pow0(a);
            lemma_small_mod(1, m.spec_p());
            assert(bits@.take(0) =~= Seq::<bool>::empty());
        }
        while i < n
            invariant
                i <= n,
                n == bits@.len(),
                m.wf(),
                self.wf(m),
                p == m.spec_p(),
                a == self@,
                acc.wf(m),
                acc@ == fpow(self@, bits_value(bits@.take(i as int)), m.spec_p()),
            decreases n - i,
        {
            let ghost h = bits_value(bits@.take(i as int));
            let squared = acc.mul(&acc, m);
            proof {
                lemma_pow_adds(a, h, h);
                lemma_mul_mod_noop_general(pow(a, h), pow(a, h), p);
                assert(bits@.take(i + 1).drop_last() =~= bits@.take(i as int));
                assert(squared@ == fpow(self@, 2 * h, m.spec_p()));
            }
            if bits[i] {
                acc = squared.mul(self, m);
                proof {
                    lemma_pow_adds(a, 2 * h, 1);
                    lemma_pow1(a);
                    lemma_mul_mod_noop_general(pow(a, 2 * h), a, p);
                }
            } else {
                acc = squared;
            }
            i += 1;
        }
        assert(bits@.take(n as int) =~= bits@);
        acc
    }

    /// The inverse of an element other than zero: its power `p - 2`.
    pub fn invert(&self, m: &Modulus) -> (r: Self)
        requires
            m.wf(),
            self.wf(m),
            self@ != 0,
        ensures
            r.wf(m),
            r@ == finv(self@, m.spec_p()),
    {
        let two = Self::from_u32(2, m.p.len());
        let (e, borrow) = sub_limbs(m.p.as_slice(), two.limbs.as_slice());
        proof {
            assert(0 * pow32(m.spec_limbs()) == 0) by (nonlinear_arith);
        }
        let bits = bits_of(e.as_slice());
        self.pow(bits.as_slice(), m)
    }
}

} // verus!
