use vstd::prelude::*;

verus! {

/// The base in which numbers are written: one digit to a 32-bit limb.
pub open spec fn base() -> nat {
    0x1_0000_0000
}

/// The base to the power `k`.
pub open spec fn pow32(k: nat) -> nat
    decreases k,
{
    if k == 0 {
        1
    } else {
        base() * pow32((k - 1) as nat)
    }
}

/// The number that the first `k` limbs spell, the lowest limb first.
pub open spec fn value_upto(s: Seq<u32>, k: nat) -> nat
    decreases k,
{
    if k == 0 {
        0
    } else {
        value_upto(s, (k - 1) as nat) + s[k - 1] as nat * pow32((k - 1) as nat)
    }
}

/// The number that a sequence of limbs spells, the lowest limb first.
pub open spec fn value(s: Seq<u32>) -> nat {
    value_upto(s, s.len())
}

/// `n` limbs that are all zero.
pub open spec fn zero_limbs(n: nat) -> Seq<u32> {
    Seq::new(n, |i: int| 0u32)
}

pub proof fn lemma_pow32_positive(k: nat)
    ensures
        pow32(k) > 0,
    decreases k,
{
    if k > 0 {
        lemma_pow32_positive((k - 1) as nat);
        assert(base() * pow32((k - 1) as nat) > 0) by (nonlinear_arith)
            requires
                pow32((k - 1) as nat) > 0,
                base() > 0,
        ;
    }
}

/// The base to a sum is the product of the powers.
pub proof fn lemma_pow32_add(a: nat, b: nat)
    ensures
        pow32(a + b) == pow32(a) * pow32(b),
    decreases b,
{
    if b == 0 {
        assert(pow32(a) * 1 == pow32(a)) by (nonlinear_arith);
    } else {
        lemma_pow32_add(a, (b - 1) as nat);
        let x = pow32(a);
        let y = pow32((b - 1) as nat);
        assert(pow32(a + b) == base() * pow32((a + b - 1) as nat));
        assert(base() * (x * y) == x * (base() * y)) by (nonlinear_arith);
    }
}

/// The first `k` limbs spell a number below the base to the `k`.
pub proof fn lemma_value_bound(s: Seq<u32>, k: nat)
    ensures
        value_upto(s, k) < pow32(k),
    decreases k,
{
    if k > 0 {
        lemma_value_bound(s, (k - 1) as nat);
        let x = pow32((k - 1) as nat);
        let d = s[k - 1] as nat;
        assert(d <= base() - 1);
        assert(d * x <= (base() - 1) * x) by (nonlinear_arith)
            requires
                d <= base() - 1,
                x >= 0,
        ;
        assert((base() - 1) * x + x == base() * x) by (nonlinear_arith);
    }
}

/// What the first `k` limbs spell depends on those limbs alone.
pub proof fn lemma_value_prefix(s: Seq<u32>, t: Seq<u32>, k: nat)
    requires
        forall|i: int| 0 <= i < k ==> s[i] == t[i],
    ensures
        value_upto(s, k) == value_upto(t, k),
    decreases k,
{
    if k > 0 {
        lemma_value_prefix(s, t, (k - 1) as nat);
    }
}

/// Limbs that are all zero spell zero.
pub proof fn lemma_value_zero(s: Seq<u32>, k: nat)
    requires
        forall|i: int| 0 <= i < k ==> s[i] == 0,
    ensures
        value_upto(s, k) == 0,
    decreases k,
{
    if k > 0 {
        lemma_value_zero(s, (k - 1) as nat);
        assert(0 * pow32((k - 1) as nat) == 0) by (nonlinear_arith);
    }
}

/// Replacing limb `j` changes the number by the change of the limb times
/// the limb's weight.
pub proof fn lemma_value_update(s: Seq<u32>, j: int, v: u32, k: nat)
    requires
        0 <= j < k <= s.len(),
    ensures
        value_upto(s.update(j, v), k) + s[j] as nat * pow32(j as nat) == value_upto(s, k)
            + v as nat * pow32(j as nat),
    decreases k,
{
    let t = s.update(j, v);
    if j == k - 1 {
        lemma_value_prefix(s, t, (k - 1) as nat);
    } else {
        lemma_value_update(s, j, v, (k - 1) as nat);
    }
}

/// A number is its low `k` limbs plus its other limbs times the base to the
/// `k`.
pub proof fn lemma_value_split(s: Seq<u32>, k: nat)
    requires
        k <= s.len(),
    ensures
        value(s) == value(s.take(k as int)) + pow32(k) * value(s.skip(k as int)),
{
    lemma_value_split_upto(s, k, (s.len() - k) as nat);
    assert(s.take(k as int).len() == k);
    lemma_value_prefix(s, s.take(k as int), k);
}

proof fn lemma_value_split_upto(s: Seq<u32>, k: nat, m: nat)
    requires
        k + m <= s.len(),
    ensures
        value_upto(s, k + m) == value_upto(s, k) + pow32(k) * value_upto(s.skip(k as int), m),
    decreases m,
{
    if m == 0 {
        assert(pow32(k) * 0 == 0) by (nonlinear_arith);
    } else {
        lemma_value_split_upto(s, k, (m - 1) as nat);
        lemma_pow32_add(k, (m - 1) as nat);
        let hi = s.skip(k as int);
        let d = s[k + m - 1] as nat;
        assert(hi[m - 1] == s[k + m - 1]);
        let x = pow32(k);
        let y = pow32((m - 1) as nat);
        let v = value_upto(hi, (m - 1) as nat);
        assert(x * (v + d * y) == x * v + d * (x * y)) by (nonlinear_arith);
    }
}

/// `n` zero limbs.
pub fn zeros(n: usize) -> (r: Vec<u32>)
    ensures
        r@ == zero_limbs(n as nat),
        value(r@) == 0,
{
    let mut r: Vec<u32> = Vec::new();
    let mut i: usize = 0;
    while i < n
        invariant
            i <= n,
            r@ == zero_limbs(i as nat),
        decreases n - i,
    {
        r.push(0u32);
        assert(r@ =~= zero_limbs((i + 1) as nat));
        i += 1;
    }
    proof {
        lemma_value_zero(r@, n as nat);
    }
    r
}

/// A copy of `n` limbs from `at` on.
pub fn copy_limbs(a: &[u32], at: usize, n: usize) -> (r: Vec<u32>)
    requires
        at + n <= a@.len(),
    ensures
        r@ == a@.subrange(at as int, at + n),
{
    let len: usize = a.len();
    let mut r: Vec<u32> = Vec::new();
    let mut i: usize = 0;
    while i < n
        invariant
            i <= n,
            len == a@.len(),
            at + n <= len,
            r@ == a@.subrange(at as int, at + i),
        decreases n - i,
    {
        r.push(a[at + i]);
        assert(r@ =~= a@.subrange(at as int, at + i + 1));
        i += 1;
    }
    r
}

/// Whether all limbs are zero, that is whether the number is zero.
pub fn is_zero(a: &[u32]) -> (z: bool)
    ensures
        z == (value(a@) == 0),
{
    let n: usize = a.len();
    let mut i: usize = 0;
    while i < n
        invariant
            i <= n,
            n == a@.len(),
            forall|k: int| 0 <= k < i ==> a@[k] == 0,
        decreases n - i,
    {
        if a[i] != 0 {
            proof {
                lemma_nonzero_limb(a@, i as int, n as nat);
            }
            return false;
        }
        i += 1;
    }
    proof {
        lemma_value_zero(a@, n as nat);
    }
    true
}

/// A number with a limb that is not zero is not zero.
pub proof fn lemma_nonzero_limb(s: Seq<u32>, j: int, k: nat)
    requires
        0 <= j < k <= s.len(),
        s[j] != 0,
    ensures
        value_upto(s, k) > 0,
    decreases k,
{
    if j == k - 1 {
        lemma_pow32_positive((k - 1) as nat);
        let d = s[j] as nat;
        let x = pow32((k - 1) as nat);
        assert(d * x > 0) by (nonlinear_arith)
            requires
                d > 0,
                x > 0,
        ;
    } else {
        lemma_nonzero_limb(s, j, (k - 1) as nat);
    }
}

/// The number of limbs up to the highest one that is not zero: the limbs
/// before it spell the whole number.
pub fn significant_len(a: &[u32]) -> (k: usize)
    ensures
        k <= a@.len(),
        value_upto(a@, k as nat) == value(a@),
        (k == 0) == (value(a@) == 0),
{
    let n: usize = a.len();
    let mut k: usize = n;
    while k > 0 && a[k - 1] == 0
        invariant
            k <= n,
            n == a@.len(),
            value_upto(a@, k as nat) == value(a@),
        decreases k,
    {
        proof {
            assert(0 * pow32((k - 1) as nat) == 0) by (nonlinear_arith);
        }
        k -= 1;
    }
    proof {
        if k > 0 {
            lemma_nonzero_limb(a@, k - 1, k as nat);
        }
    }
    k
}

/// The first `k` limbs of a number, taken by themselves, spell what they
/// spell within the number.
pub proof fn lemma_value_take(s: Seq<u32>, k: nat)
    requires
        k <= s.len(),
    ensures
        value(s.subrange(0, k as int)) == value_upto(s, k),
{
    lemma_value_prefix(s.subrange(0, k as int), s, k);
}

/// The sum of a number of `n` limbs and a number of no more limbs: `n`
/// limbs and a carry.
pub fn add_shorter(a: &[u32], b: &[u32]) -> (r: (Vec<u32>, u32))
    requires
        b@.len() <= a@.len(),
    ensures
        r.0@.len() == a@.len(),
        r.1 <= 1,
        value(r.0@) + r.1 * pow32(a@.len()) == value(a@) + value(b@),
{
    let n: usize = a.len();
    let m: usize = b.len();
    let mut wide = copy_limbs(b, 0, m);
    assert(wide@ =~= b@);
    let mut k: usize = m;
    while k < n
        invariant
            m <= k <= n,
            m == b@.len(),
            wide@ == b@ + zero_limbs((k - m) as nat),
        decreases n - k,
    {
        wide.push(0u32);
        assert(wide@ =~= b@ + zero_limbs((k + 1 - m) as nat));
        k += 1;
    }
    proof {
        lemma_value_split(wide@, m as nat);
        assert(wide@.take(m as int) =~= b@);
        lemma_value_zero(wide@.skip(m as int), (n - m) as nat);
        assert(pow32(m as nat) * 0 == 0) by (nonlinear_arith);
    }
    add_limbs(a, wide.as_slice())
}

/// The sum of two numbers of `n` limbs: `n` limbs and a carry.
pub fn add_limbs(a: &[u32], b: &[u32]) -> (r: (Vec<u32>, u32))
    requires
        a@.len() == b@.len(),
    ensures
        r.0@.len() == a@.len(),
        r.1 <= 1,
        value(r.0@) + r.1 * pow32(a@.len()) == value(a@) + value(b@),
{
    let n: usize = a.len();
    let mut r: Vec<u32> = Vec::new();
    let mut carry: u64 = 0;
    let mut i: usize = 0;
    while i < n
        invariant
            i <= n,
            n == a@.len(),
            n == b@.len(),
            r@.len() == i,
            carry <= 1,
            value_upto(r@, i as nat) + carry * pow32(i as nat) == value_upto(a@, i as nat)
                + value_upto(b@, i as nat),
        decreases n - i,
    {
        let ghost before = r@;
        let ghost c0 = carry;
        let t: u64 = a[i] as u64 + b[i] as u64 + carry;
        let lo: u32 = (t % 0x1_0000_0000) as u32;
        carry = t / 0x1_0000_0000;
        r.push(lo);
        proof {
            lemma_value_prefix(before, r@, i as nat);
            let x = pow32(i as nat);
            let ai = a@[i as int] as nat;
            let bi = b@[i as int] as nat;
            assert((lo as nat) * x + (carry as nat) * (base() * x) == ai * x + bi * x + (c0 as nat)
                * x) by (nonlinear_arith)
                requires
                    lo as nat + (carry as nat) * base() == ai + bi + c0 as nat,
            ;
        }
        i += 1;
    }
    (r, carry as u32)
}

/// The difference of two numbers of `n` limbs: `n` limbs and a borrow, which
/// is set where the second number is the larger.
pub fn sub_limbs(a: &[u32], b: &[u32]) -> (r: (Vec<u32>, u32))
    requires
        a@.len() == b@.len(),
    ensures
        r.0@.len() == a@.len(),
        r.1 <= 1,
        value(r.0@) + value(b@) == value(a@) + r.1 * pow32(a@.len()),
        (r.1 == 0) == (value(a@) >= value(b@)),
{
    let n: usize = a.len();
    let mut r: Vec<u32> = Vec::new();
    let mut borrow: u64 = 0;
    let mut i: usize = 0;
    while i < n
        invariant
            i <= n,
            n == a@.len(),
            n == b@.len(),
            r@.len() == i,
            borrow <= 1,
            value_upto(r@, i as nat) + value_upto(b@, i as nat) == value_upto(a@, i as nat)
                + borrow * pow32(i as nat),
        decreases n - i,
    {
        let ghost before = r@;
        let ghost c0 = borrow;
        let t: u64 = 0x1_0000_0000 + a[i] as u64 - b[i] as u64 - borrow;
        let lo: u32 = (t % 0x1_0000_0000) as u32;
        borrow = 1 - t / 0x1_0000_0000;
        r.push(lo);
        proof {
            lemma_value_prefix(before, r@, i as nat);
            let x = pow32(i as nat);
            let ai = a@[i as int] as nat;
            let bi = b@[i as int] as nat;
            assert((lo as nat) * x + bi * x + (c0 as nat) * x == ai * x + (borrow as nat) * (base()
                * x)) by (nonlinear_arith)
                requires
                    lo as nat + bi + c0 as nat == ai + (borrow as nat) * base(),
            ;
        }
        i += 1;
    }
    proof {
        lemma_value_bound(r@, n as nat);
        lemma_value_bound(a@, n as nat);
        lemma_value_bound(b@, n as nat);
        assert(1 * pow32(n as nat) == pow32(n as nat)) by (nonlinear_arith);
        assert(0 * pow32(n as nat) == 0) by (nonlinear_arith);
    }
    (r, borrow as u32)
}

/// The product of two numbers, in as many limbs as the two have together.
pub fn mul_limbs(a: &[u32], b: &[u32]) -> (r: Vec<u32>)
    requires
        a@.len() + b@.len() <= usize::MAX,
    ensures
        r@.len() == a@.len() + b@.len(),
        value(r@) == value(a@) * value(b@),
{
    let n: usize = a.len();
    let m: usize = b.len();
    let mut r = zeros(n + m);
    let mut i: usize = 0;
    proof {
        assert(0 * value(b@) == 0) by (nonlinear_arith);
    }
    while i < n
        invariant
            i <= n,
            n == a@.len(),
            m == b@.len(),
            n + m <= usize::MAX,
            r@.len() == n + m,
            forall|k: int| i + m <= k < n + m ==> #[trigger] r@[k] == 0,
            value(r@) == value_upto(a@, i as nat) * value(b@),
        decreases n - i,
    {
        let ghost start = r@;
        let ai: u64 = a[i] as u64;
        let mut carry: u64 = 0;
        let mut j: usize = 0;
        proof {
            assert((ai as nat) * pow32(i as nat) * 0 == 0) by (nonlinear_arith);
            assert(0 * pow32(i as nat) == 0) by (nonlinear_arith);
        }
        while j < m
            invariant
                j <= m,
                i < n,
                n == a@.len(),
                m == b@.len(),
                n + m <= usize::MAX,
                r@.len() == n + m,
                start.len() == n + m,
                ai == a@[i as int],
                carry < 0x1_0000_0000,
                forall|k: int| i + j <= k < n + m ==> #[trigger] r@[k] == start[k],
                forall|k: int| i + m <= k < n + m ==> #[trigger] start[k] == 0,
                value(r@) + carry * pow32((i + j) as nat) == value(start) + (ai as nat) * pow32(
                    i as nat,
                ) * value_upto(b@, j as nat),
            decreases m - j,
        {
            let ghost before = r@;
            let ghost c0 = carry;
            let bj: u64 = b[j] as u64;
            let old_limb: u64 = r[i + j] as u64;
            assert(ai * bj <= 0xffff_ffff * 0xffff_ffff) by (nonlinear_arith)
                requires
                    ai <= 0xffff_ffff,
                    bj <= 0xffff_ffff,
            ;
            let t: u64 = old_limb + ai * bj + carry;
            let lo: u32 = (t % 0x1_0000_0000) as u32;
            carry = t / 0x1_0000_0000;
            r[i + j] = lo;
            proof {
                lemma_value_update(before, (i + j) as int, lo, (n + m) as nat);
                lemma_pow32_add(i as nat, j as nat);
                let x = pow32((i + j) as nat);
                let xi = pow32(i as nat);
                let xj = pow32(j as nat);
                let vb = value_upto(b@, j as nat);
                assert(pow32((i + j + 1) as nat) == base() * x);
                let lo_n = lo as nat;
                let ca_n = carry as nat;
                let ai_n = ai as nat;
                let bj_n = bj as nat;
                let ol_n = old_limb as nat;
                let c0_n = c0 as nat;
                let w = ai_n * xi;
                let y = bj_n * xj;
                assert((lo_n + ca_n * base()) * x == lo_n * x + ca_n * (base() * x))
                    by (nonlinear_arith);
                assert((ol_n + ai_n * bj_n + c0_n) * x == ol_n * x + (ai_n * bj_n) * x + c0_n * x)
                    by (nonlinear_arith);
                assert((ai_n * bj_n) * x == w * y) by (nonlinear_arith)
                    requires
                        x == xi * xj,
                        w == ai_n * xi,
                        y == bj_n * xj,
                ;
                assert(w * (vb + y) == w * vb + w * y) by (nonlinear_arith);
                assert(lo_n * x + ca_n * (base() * x) + w * vb == ol_n * x + c0_n * x + w * (vb
                    + y));
            }
            j += 1;
        }
        let ghost before = r@;
        r[i + m] = carry as u32;
        proof {
            lemma_value_update(before, (i + m) as int, carry as u32, (n + m) as nat);
            assert(before[(i + m) as int] == start[(i + m) as int]);
            assert(start[(i + m) as int] == 0);
            assert forall|k: int| i + 1 + m <= k < n + m implies #[trigger] r@[k] == 0 by {
                assert(before[k] == start[k]);
            }
            assert(0 * pow32((i + m) as nat) == 0) by (nonlinear_arith);
            assert(value(r@) == value(before) + (carry as nat) * pow32((i + m) as nat));
            assert(value_upto(b@, m as nat) == value(b@));
            let va = value_upto(a@, i as nat);
            let vb = value(b@);
            let xi = pow32(i as nat);
            assert(va * vb + (ai as nat) * xi * vb == (va + (ai as nat) * xi) * vb)
                by (nonlinear_arith);
        }
        i += 1;
    }
    r
}

} // verus!
