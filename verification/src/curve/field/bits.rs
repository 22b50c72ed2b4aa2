use crate::curve::field::limbs::{base, lemma_value_split, pow32, value};
use crate::curve::field::modulus::pow2;
use vstd::prelude::*;

verus! {

/// The number that a sequence of binary digits spells, the highest digit
/// first.
pub open spec fn bits_value(s: Seq<bool>) -> nat
    decreases s.len(),
{
    if s.len() == 0 {
        0
    } else {
        2 * bits_value(s.drop_last()) + if s.last() {
            1nat
        } else {
            0nat
        }
    }
}

/// Two to the 32 is the base of the limbs.
pub proof fn lemma_pow2_32()
    ensures
        pow2(32) == base(),
{
    reveal_with_fuel(pow2, 33);
}

/// A number is its lowest limb plus the base times the number that its
/// other limbs spell.
pub proof fn lemma_value_skip(s: Seq<u32>, i: int)
    requires
        0 <= i < s.len(),
    ensures
        value(s.skip(i)) == s[i] as nat + base() * value(s.skip(i + 1)),
{
    let t = s.skip(i);
    lemma_value_split(t, 1);
    assert(t.skip(1) =~= s.skip(i + 1));
    reveal_with_fuel(crate::curve::field::limbs::value_upto, 2);
    reveal_with_fuel(pow32, 2);
    assert(value(t.take(1)) == t.take(1)[0] as nat * 1 + 0);
    assert(pow32(1) == base());
}

/// The binary digits of a number, the highest first: 32 for each limb.
pub fn bits_of(limbs: &[u32]) -> (bits: Vec<bool>)
    ensures
        bits_value(bits@) == value(limbs@),
        bits@.len() == 32 * limbs@.len(),
{
    let n: usize = limbs.len();
    let mut bits: Vec<bool> = Vec::new();
    let mut i: usize = n;
    assert(limbs@.skip(n as int) =~= Seq::<u32>::empty());
    while i > 0
        invariant
            i <= n,
            n == limbs@.len(),
            bits@.len() == 32 * (n - i),
            bits_value(bits@) == value(limbs@.skip(i as int)),
        decreases i,
    {
        i -= 1;
        let limb: u32 = limbs[i];
        let ghost high = value(limbs@.skip(i + 1));
        let mut rest: u32 = limb;
        let ghost mut top: nat = 0;
        let mut w: usize = 0;
        proof {
            assert(high * 1 == high) by (nonlinear_arith);
        }
        while w < 32
            invariant
                w <= 32,
                i < n,
                n == limbs@.len(),
                bits@.len() == 32 * (n - i - 1) + w,
                bits_value(bits@) == high * pow2(w as nat) + top,
                limb * pow2(w as nat) == top * base() + rest,
            decreases 32 - w,
        {
            let bit: bool = rest >= 0x8000_0000;
            let ghost before = bits@;
            let ghost top0 = top;
            let ghost rest0 = rest;
            rest = if bit {
                (rest - 0x8000_0000) * 2
            } else {
                rest * 2
            };
            bits.push(bit);
            proof {
                assert(bits@.drop_last() =~= before);
                let b: nat = if bit {
                    1
                } else {
                    0
                };
                top = 2 * top0 + b;
                let x = pow2(w as nat);
                assert(high * (2 * x) + top == 2 * (high * x + top0) + b) by (nonlinear_arith)
                    requires
                        top == 2 * top0 + b,
                ;
                assert(limb * (2 * x) == top * base() + rest) by (nonlinear_arith)
                    requires
                        limb * x == top0 * base() + rest0,
                        top == 2 * top0 + b,
                        rest + b * base() == 2 * rest0,
                ;
            }
            w += 1;
        }
        proof {
            lemma_pow2_32();
            lemma_value_skip(limbs@, i as int);
            assert(top == limb && rest == 0) by (nonlinear_arith)
                requires
                    limb * base() == top * base() + rest,
                    rest < base(),
                    base() > 0,
            ;
            assert(high * base() == base() * high) by (nonlinear_arith);
        }
    }
    assert(limbs@.skip(0) =~= limbs@);
    bits
}

} // verus!
