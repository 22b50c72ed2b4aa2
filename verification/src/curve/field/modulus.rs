use crate::curve::field::limbs::{
    add_limbs, add_shorter, copy_limbs, lemma_pow32_positive, lemma_value_bound, lemma_value_split,
    lemma_value_take, lemma_value_zero, mul_limbs, pow32, significant_len, sub_limbs, value,
    value_upto, zero_limbs,
};
use vstd::slice::slice_subrange;
use vstd::arithmetic::div_mod::{
    lemma_fundamental_div_mod_converse, lemma_mod_multiples_vanish, lemma_small_mod,
};
use vstd::prelude::*;

verus! {

/// Two to the power `k`.
pub open spec fn pow2(k: nat) -> nat
    decreases k,
{
    if k == 0 {
        1
    } else {
        2 * pow2((k - 1) as nat)
    }
}

pub proof fn lemma_pow2_positive(k: nat)
    ensures
        pow2(k) > 0,
    decreases k,
{
    if k > 0 {
        lemma_pow2_positive((k - 1) as nat);
    }
}

/// A modulus `p`, with what reduction modulo `p` needs: a number congruent
/// to the base to the power of the limb count, and the products of `p` with
/// the powers of two that fit in that many limbs.
pub struct Modulus {
    /// The modulus.
    pub p: Vec<u32>,
    /// The number that a limb beyond the last one folds to.
    pub fold: Vec<u32>,
    /// The number of limbs of the fold number up to its highest limb that
    /// is not zero.
    pub fold_len: usize,
    /// The modulus times two to the `j`, for `j` from zero on.
    pub shifted: Vec<Vec<u32>>,
}

impl Modulus {
    /// The modulus as a number.
    pub open spec fn spec_p(&self) -> nat {
        value(self.p@)
    }

    /// The number of limbs of a residue.
    pub open spec fn spec_limbs(&self) -> nat {
        self.p@.len()
    }

    /// Whether the parts fit together: all have the same number of limbs,
    /// entry `j` of the table is the modulus times two to the `j`, twice the
    /// last entry is no less than the base to the limb count, and that power
    /// of the base less the fold number is a multiple of the modulus.
    pub open spec fn wf(&self) -> bool {
        &&& self.spec_limbs() >= 1
        &&& 2 * self.spec_limbs() <= usize::MAX
        &&& self.spec_p() >= 2
        &&& self.fold@.len() == self.spec_limbs()
        &&& self.fold_len <= self.spec_limbs()
        &&& value_upto(self.fold@, self.fold_len as nat) == value(self.fold@)
        &&& self.shifted@.len() >= 1
        &&& forall|j: int|
            0 <= j < self.shifted@.len() ==> (#[trigger] self.shifted@[j])@.len()
                == self.spec_limbs()
        &&& forall|j: int|
            0 <= j < self.shifted@.len() ==> value((#[trigger] self.shifted@[j])@) == self.spec_p()
                * pow2(j as nat)
        &&& pow32(self.spec_limbs()) <= 2 * self.spec_p() * pow2((self.shifted@.len() - 1) as nat)
        &&& pow32(self.spec_limbs()) == value(self.fold@) + self.spec_p() * pow2(
            (self.shifted@.len() - 1) as nat,
        )
    }

    /// Whether `a` is a residue: it has the limbs of one and is below the
    /// modulus.
    pub open spec fn is_residue(&self, a: Seq<u32>) -> bool {
        a.len() == self.spec_limbs() && value(a) < self.spec_p()
    }

    /// Prepares the modulus `p` for reduction. `c` is what `p` lacks to a
    /// power of two, and `t` the number of bits by which that power of two
    /// lies below the base to the limb count.
    pub fn new(p: &[u32], c: &[u32], t: usize) -> (m: Modulus)
        requires
            p@.len() >= 1,
            2 * p@.len() <= usize::MAX,
            c@.len() == p@.len(),
            value(p@) >= 2,
            1 <= value(c@) <= value(p@),
            (value(p@) + value(c@)) * pow2(t as nat) == pow32(p@.len()),
        ensures
            m.wf(),
            m.p@ == p@,
            m.shifted@.len() == t + 1,
    {
        let n: usize = p.len();
        let ghost pv = value(p@);
        let ghost cv = value(c@);
        let mut cur_p = copy_limbs(p, 0, n);
        let mut cur_c = copy_limbs(c, 0, n);
        assert(cur_p@ =~= p@);
        assert(cur_c@ =~= c@);
        let mut shifted: Vec<Vec<u32>> = Vec::new();
        let mut j: usize = 0;
        proof {
            assert(pv * 1 == pv) by (nonlinear_arith);
            assert(cv * 1 == cv) by (nonlinear_arith);
        }
        while j < t
            invariant
                j <= t,
                n == p@.len(),
                pv == value(p@),
                cv == value(c@),
                1 <= cv <= pv,
                pv >= 2,
                (pv + cv) * pow2(t as nat) == pow32(n as nat),
                cur_p@.len() == n,
                cur_c@.len() == n,
                value(cur_p@) == pv * pow2(j as nat),
                value(cur_c@) == cv * pow2(j as nat),
                shifted@.len() == j,
                forall|k: int| 0 <= k < j ==> (#[trigger] shifted@[k])@.len() == n,
                forall|k: int| 0 <= k < j ==> value((#[trigger] shifted@[k])@) == pv * pow2(k as nat),
            decreases t - j,
        {
            proof {
                lemma_pow2_split(j as nat, t as nat);
                lemma_pow2_positive((t - j - 1) as nat);
                let a = pow2(j as nat);
                let b = pow2((t - j - 1) as nat);
                // (pv + cv) * (2 * a * b) == pow32(n), with b >= 1
                assert(2 * (pv * a) <= (pv + cv) * (2 * a * b) && 2 * (cv * a) <= (pv + cv) * (2
                    * a * b) && 2 * (pv * a) + 2 * (cv * a) <= (pv + cv) * (2 * a * b))
                    by (nonlinear_arith)
                    requires
                        b >= 1,
                ;
                lemma_value_bound(cur_p@, n as nat);
                assert(pv * (2 * a) == 2 * (pv * a)) by (nonlinear_arith);
                assert(cv * (2 * a) == 2 * (cv * a)) by (nonlinear_arith);
                lemma_pow32_positive(n as nat);
            }
            let (next_p, carry_p) = add_limbs(cur_p.as_slice(), cur_p.as_slice());
            let (next_c, carry_c) = add_limbs(cur_c.as_slice(), cur_c.as_slice());
            proof {
                let x = pow32(n as nat);
                assert(carry_p * x >= x || carry_p == 0) by (nonlinear_arith)
                    requires
                        x > 0,
                ;
                assert(carry_c * x >= x || carry_c == 0) by (nonlinear_arith)
                    requires
                        x > 0,
                ;
                // the sum of the two doubled numbers is at most the power of the
                // base, and the second is not zero unless `c` is
                lemma_pow2_positive(j as nat);
                lemma_doubling_fits(pv, cv, pow2(j as nat), pow2((t - j - 1) as nat), x);
                assert(pow2(t as nat) == 2 * pow2(j as nat) * pow2((t - j - 1) as nat));
                assert(carry_p == 0 && carry_c == 0);
                assert(0 * x == 0) by (nonlinear_arith);
            }
            shifted.push(cur_p);
            cur_p = next_p;
            cur_c = next_c;
            j += 1;
        }
        shifted.push(cur_p);
        let fold_len = significant_len(cur_c.as_slice());
        let m = Modulus { p: copy_limbs(p, 0, n), fold: cur_c, fold_len, shifted };
        proof {
            assert(m.p@ =~= p@);
            let a = pow2(t as nat);
            assert((pv + cv) * a == pv * a + cv * a) by (nonlinear_arith);
            assert(cv * a <= pv * a) by (nonlinear_arith)
                requires
                    cv <= pv,
                    a >= 0,
            ;
            assert(2 * pv * a == pv * a + pv * a) by (nonlinear_arith);
        }
        m
    }

    /// The remainder of a number of twice the limbs of a residue.
    pub fn reduce(&self, x: &[u32]) -> (r: Vec<u32>)
        requires
            self.wf(),
            x@.len() == 2 * self.spec_limbs(),
        ensures
            self.is_residue(r@),
            value(r@) == value(x@) % self.spec_p(),
    {
        let n: usize = self.p.len();
        let ghost pv = self.spec_p();
        let ghost t = (self.shifted@.len() - 1) as nat;
        let ghost step = pv * pow2(t);
        let mut cur = copy_limbs(x, 0, 2 * n);
        assert(cur@ =~= x@);
        proof {
            assert(self.shifted@[t as int]@.len() == n);
        }
        loop
            invariant
                self.wf(),
                n == self.spec_limbs(),
                pv == self.spec_p(),
                t == self.shifted@.len() - 1,
                step == pv * pow2(t),
                cur@.len() == 2 * n,
                value(cur@) % pv == value(x@) % pv,
            ensures
                value(cur@.take(n as int)) % pv == value(x@) % pv,
            decreases value(cur@),
        {
            let hi = copy_limbs(cur.as_slice(), n, n);
            let lo = copy_limbs(cur.as_slice(), 0, n);
            proof {
                lemma_value_split(cur@, n as nat);
                assert(hi@ =~= cur@.skip(n as int));
                assert(lo@ =~= cur@.take(n as int));
            }
            let hl = significant_len(hi.as_slice());
            if hl == 0 {
                proof {
                    assert(pow32(n as nat) * 0 == 0) by (nonlinear_arith);
                }
                break;
            }
            let hi_part = slice_subrange(hi.as_slice(), 0, hl);
            let fold_part = slice_subrange(self.fold.as_slice(), 0, self.fold_len);
            proof {
                lemma_value_take(hi@, hl as nat);
                lemma_value_take(self.fold@, self.fold_len as nat);
            }
            let prod = mul_limbs(hi_part, fold_part);
            let mut wide = copy_limbs(cur.as_slice(), 0, n);
            let mut k: usize = 0;
            while k < n
                invariant
                    k <= n,
                    wide@ == lo@ + zero_limbs(k as nat),
                decreases n - k,
            {
                wide.push(0u32);
                assert(wide@ =~= lo@ + zero_limbs((k + 1) as nat));
                k += 1;
            }
            proof {
                lemma_value_split(wide@, n as nat);
                assert(wide@.take(n as int) =~= lo@);
                assert(wide@.skip(n as int) =~= zero_limbs(n as nat));
                lemma_value_zero(wide@.skip(n as int), n as nat);
                assert(pow32(n as nat) * 0 == 0) by (nonlinear_arith);
            }
            let (next, carry) = add_shorter(wide.as_slice(), prod.as_slice());
            proof {
                let h = value(hi@);
                let l = value(lo@);
                let c = value(self.fold@);
                let b = pow32(n as nat);
                // value(cur) == l + b * h; value(next) + carry * b^2 == h * c + l
                lemma_value_bound(cur@, (2 * n) as nat);
                lemma_value_bound(self.fold@, n as nat);
                lemma_pow32_positive((2 * n) as nat);
                assert(h * c + l < l + b * h) by (nonlinear_arith)
                    requires
                        h >= 1,
                        c < b,
                ;
                let bb = pow32((2 * n) as nat);
                assert(carry * bb >= bb || carry == 0) by (nonlinear_arith)
                    requires
                        bb > 0,
                ;
                assert(carry == 0);
                assert(0 * bb == 0) by (nonlinear_arith);
                // l + b * h == (h * c + l) + h * step
                assert(l + b * h == (h * c + l) + (h * pow2(t)) * pv) by (nonlinear_arith)
                    requires
                        b == c + step,
                        step == pv * pow2(t),
                ;
                let k = h * pow2(t);
                lemma_mod_multiples_vanish(k as int, (h * c + l) as int, pv as int);
                assert(pv * k + (h * c + l) == value(cur@)) by (nonlinear_arith)
                    requires
                        value(cur@) == (h * c + l) + k * pv,
                ;
                assert(value(next@) == h * c + l);
            }
            cur = next;
        }
        let mut r = copy_limbs(cur.as_slice(), 0, n);
        assert(r@ =~= cur@.take(n as int));
        let mut j: usize = self.shifted.len();
        proof {
            lemma_value_bound(r@, n as nat);
            assert(2 * pv * pow2(t) == pv * pow2(j as nat)) by (nonlinear_arith)
                requires
                    pow2(j as nat) == 2 * pow2(t),
            ;
        }
        while j > 0
            invariant
                self.wf(),
                n == self.spec_limbs(),
                pv == self.spec_p(),
                j <= self.shifted@.len(),
                r@.len() == n,
                value(r@) < pv * pow2(j as nat),
                value(r@) % pv == value(x@) % pv,
            decreases j,
        {
            j -= 1;
            let entry = &self.shifted[j];
            assert(entry@.len() == n);
            assert(value(entry@) == pv * pow2(j as nat));
            let (d, borrow) = sub_limbs(r.as_slice(), entry.as_slice());
            proof {
                let e = pv * pow2(j as nat);
                assert(pv * pow2((j + 1) as nat) == e + e) by (nonlinear_arith)
                    requires
                        pow2((j + 1) as nat) == 2 * pow2(j as nat),
                        e == pv * pow2(j as nat),
                ;
                assert(0 * pow32(n as nat) == 0) by (nonlinear_arith);
                if borrow == 0 {
                    lemma_mod_multiples_vanish(pow2(j as nat) as int, value(d@) as int, pv as int);
                    assert(value(r@) == pv * pow2(j as nat) + value(d@));
                }
            }
            if borrow == 0 {
                r = d;
            }
        }
        proof {
            assert(pv * 1 == pv) by (nonlinear_arith);
            lemma_small_mod(value(r@), pv);
        }
        r
    }

    /// The sum of two residues.
    pub fn add(&self, a: &[u32], b: &[u32]) -> (r: Vec<u32>)
        requires
            self.wf(),
            self.is_residue(a@),
            self.is_residue(b@),
        ensures
            self.is_residue(r@),
            value(r@) == (value(a@) + value(b@)) % self.spec_p(),
    {
        let ghost pv = self.spec_p();
        let ghost x = pow32(self.spec_limbs());
        let (nb, _) = sub_limbs(self.p.as_slice(), b);
        let (d, borrow) = sub_limbs(a, nb.as_slice());
        proof {
            assert(0 * x == 0) by (nonlinear_arith);
            assert(1 * x == x) by (nonlinear_arith);
        }
        if borrow == 0 {
            proof {
                // d == a + b - p, below p
                lemma_fundamental_div_mod_converse(
                    (value(a@) + value(b@)) as int,
                    pv as int,
                    1,
                    value(d@) as int,
                );
            }
            d
        } else {
            let (s, carry) = add_limbs(a, b);
            proof {
                lemma_value_bound(self.p@, self.spec_limbs());
                assert(carry * x >= x || carry == 0) by (nonlinear_arith)
                    requires
                        x > 0,
                ;
                lemma_small_mod(value(s@), pv);
            }
            s
        }
    }

    /// The difference of two residues.
    pub fn sub(&self, a: &[u32], b: &[u32]) -> (r: Vec<u32>)
        requires
            self.wf(),
            self.is_residue(a@),
            self.is_residue(b@),
        ensures
            self.is_residue(r@),
            value(r@) == (value(a@) - value(b@)) % (self.spec_p() as int),
    {
        let ghost pv = self.spec_p();
        let ghost x = pow32(self.spec_limbs());
        let (d, borrow) = sub_limbs(a, b);
        proof {
            assert(0 * x == 0) by (nonlinear_arith);
            assert(1 * x == x) by (nonlinear_arith);
        }
        if borrow == 0 {
            proof {
                lemma_small_mod(value(d@), pv);
            }
            d
        } else {
            let (nb, _) = sub_limbs(self.p.as_slice(), b);
            let (s, carry) = add_limbs(a, nb.as_slice());
            proof {
                lemma_value_bound(self.p@, self.spec_limbs());
                assert(carry * x >= x || carry == 0) by (nonlinear_arith)
                    requires
                        x > 0,
                ;
                // s == a - b + p, below p
                lemma_fundamental_div_mod_converse(
                    value(a@) - value(b@),
                    pv as int,
                    -1,
                    value(s@) as int,
                );
            }
            s
        }
    }

    /// The product of two residues.
    pub fn mul(&self, a: &[u32], b: &[u32]) -> (r: Vec<u32>)
        requires
            self.wf(),
            self.is_residue(a@),
            self.is_residue(b@),
        ensures
            self.is_residue(r@),
            value(r@) == (value(a@) * value(b@)) % self.spec_p(),
    {
        let wide = mul_limbs(a, b);
        self.reduce(wide.as_slice())
    }
}

/// Two to a sum of at least one more than `j` is twice two to the `j` times
/// two to what is left.
pub proof fn lemma_pow2_split(j: nat, t: nat)
    requires
        j < t,
    ensures
        pow2(t) == 2 * pow2(j) * pow2((t - j - 1) as nat),
    decreases t - j,
{
    if j + 1 == t {
        assert(2 * pow2(j) * 1 == 2 * pow2(j)) by (nonlinear_arith);
    } else {
        lemma_pow2_split((j + 1) as nat, t);
        let a = pow2(j);
        let b = pow2((t - j - 2) as nat);
        assert(2 * (2 * a) * b == 2 * a * (2 * b)) by (nonlinear_arith);
    }
}

proof fn lemma_doubling_fits(pv: nat, cv: nat, a: nat, b: nat, x: nat)
    requires
        b >= 1,
        pv >= 2,
        cv >= 1,
        a >= 1,
        (pv + cv) * (2 * a * b) == x,
    ensures
        2 * (pv * a) < x,
        2 * (cv * a) < x,
{
    assert(2 * (pv * a) + 2 * (cv * a) <= (pv + cv) * (2 * a * b)) by (nonlinear_arith)
        requires
            b >= 1,
    ;
    assert(pv * a >= 2) by (nonlinear_arith)
        requires
            pv >= 2,
            a >= 1,
    ;
    assert(cv * a >= 1) by (nonlinear_arith)
        requires
            cv >= 1,
            a >= 1,
    ;
}

} // verus!
