use vstd::prelude::*;

verus! {

/// How far each lane is rotated, by the lane's index `x + 5y`.
pub const RHO: [u32; 25] = [
    0, 1, 62, 28, 27,
    36, 44, 6, 55, 20,
    3, 10, 43, 25, 39,
    41, 45, 15, 21, 8,
    18, 2, 61, 56, 14,
];

/// The constant that each of the 24 rounds adds to the first lane.
pub const RC: [u64; 24] = [
    0x0000000000000001, 0x0000000000008082, 0x800000000000808a, 0x8000000080008000,
    0x000000000000808b, 0x0000000080000001, 0x8000000080008081, 0x8000000000008009,
    0x000000000000008a, 0x0000000000000088, 0x0000000080008009, 0x000000008000000a,
    0x000000008000808b, 0x800000000000008b, 0x8000000000008089, 0x8000000000008003,
    0x8000000000008002, 0x8000000000000080, 0x000000000000800a, 0x800000008000000a,
    0x8000000080008081, 0x8000000000008080, 0x0000000080000001, 0x8000000080008008,
];

/// A lane rotated to the left by `n` bits, `n` below 64.
pub open spec fn rotl64(x: u64, n: u32) -> u64 {
    if n == 0 {
        x
    } else {
        (x << n) | (x >> ((64 - n) as u32))
    }
}

/// The parity of column `x` of the state.
pub open spec fn column_parity(a: Seq<u64>, x: int) -> u64 {
    a[x] ^ a[x + 5] ^ a[x + 10] ^ a[x + 15] ^ a[x + 20]
}

/// What the first step adds to every lane of column `x`: the parity of the
/// column before it and the rotated parity of the column after it.
pub open spec fn theta_mask(a: Seq<u64>, x: int) -> u64 {
    column_parity(a, (x + 4) % 5) ^ rotl64(column_parity(a, (x + 1) % 5), 1)
}

/// The first step of a round: every lane combined with the mask of its column.
#[verifier::opaque]
pub open spec fn theta_spec(a: Seq<u64>) -> Seq<u64> {
    Seq::new(25, |i: int| a[i] ^ theta_mask(a, i % 5))
}

/// The lane that the second and third steps move to place `j`.
pub open spec fn pi_source(j: int) -> int {
    (j % 5 + 3 * (j / 5)) % 5 + 5 * (j % 5)
}

/// The second and third steps of a round: every lane rotated by its offset
/// and moved to its new place.
#[verifier::opaque]
pub open spec fn rho_pi_spec(a: Seq<u64>) -> Seq<u64> {
    Seq::new(25, |j: int| rotl64(a[pi_source(j)], RHO[pi_source(j)]))
}

/// The fourth step of a round: every lane combined with the two lanes that
/// follow it in its row.
#[verifier::opaque]
pub open spec fn chi_spec(b: Seq<u64>) -> Seq<u64> {
    Seq::new(
        25,
        |i: int| b[i] ^ (!b[(i % 5 + 1) % 5 + 5 * (i / 5)] & b[(i % 5 + 2) % 5 + 5 * (i / 5)]),
    )
}

/// The last step of a round: the round's constant added to the first lane.
pub open spec fn iota_spec(a: Seq<u64>, round: int) -> Seq<u64> {
    a.update(0, a[0] ^ RC[round])
}

/// One round of the permutation.
pub open spec fn round_spec(a: Seq<u64>, round: int) -> Seq<u64> {
    iota_spec(chi_spec(rho_pi_spec(theta_spec(a))), round)
}

/// The state after the first `n` rounds of the permutation.
pub open spec fn keccak_rounds(a: Seq<u64>, n: nat) -> Seq<u64>
    decreases n,
{
    if n == 0 {
        a
    } else {
        round_spec(keccak_rounds(a, (n - 1) as nat), n - 1)
    }
}

/// The permutation Keccak-f[1600] on a state of 25 lanes.
pub open spec fn keccak_f_spec(a: Seq<u64>) -> Seq<u64> {
    keccak_rounds(a, 24)
}

fn rotl(x: u64, n: u32) -> (r: u64)
    requires
        n < 64,
    ensures
        r == rotl64(x, n),
{
    if n == 0 {
        x
    } else {
        (x << n) | (x >> (64 - n))
    }
}

#[verifier::loop_isolation(false)]
fn theta(a: &[u64; 25]) -> (r: [u64; 25])
    ensures
        r@ == theta_spec(a@),
{
    reveal(theta_spec);
    let mut c = [0u64;5];
    let mut x: usize = 0;
    while x < 5
        invariant
            x <= 5,
            forall|t: int| 0 <= t < x ==> c@[t] == column_parity(a@, t),
        decreases 5 - x,
    {
        c[x] = a[x] ^ a[x + 5] ^ a[x + 10] ^ a[x + 15] ^ a[x + 20];
        x += 1;
    }
    let mut d = [0u64;5];
    x = 0;
    while x < 5
        invariant
            x <= 5,
            forall|t: int| 0 <= t < 5 ==> c@[t] == column_parity(a@, t),
            forall|t: int| 0 <= t < x ==> d@[t] == theta_mask(a@, t),
        decreases 5 - x,
    {
        d[x] = c[(x + 4) % 5] ^ rotl(c[(x + 1) % 5], 1);
        x += 1;
    }
    let mut r = [0u64;25];
    let mut i: usize = 0;
    while i < 25
        invariant
            i <= 25,
            forall|t: int| 0 <= t < 5 ==> d@[t] == theta_mask(a@, t),
            forall|t: int| 0 <= t < i ==> r@[t] == a@[t] ^ theta_mask(a@, t % 5),
        decreases 25 - i,
    {
        r[i] = a[i] ^ d[i % 5];
        i += 1;
    }
    assert(r@ =~= theta_spec(a@));
    r
}

#[verifier::loop_isolation(false)]
fn rho_pi(a: &[u64; 25]) -> (r: [u64; 25])
    ensures
        r@ == rho_pi_spec(a@),
{
    reveal(rho_pi_spec);
    let mut r = [0u64;25];
    let mut j: usize = 0;
    while j < 25
        invariant
            j <= 25,
            forall|t: int|
                0 <= t < j ==> r@[t] == rotl64(a@[pi_source(t)], RHO[pi_source(t)]),
        decreases 25 - j,
    {
        let src: usize = (j % 5 + 3 * (j / 5)) % 5 + 5 * (j % 5);
        r[j] = rotl(a[src], RHO[src]);
        j += 1;
    }
    assert(r@ =~= rho_pi_spec(a@));
    r
}

#[verifier::loop_isolation(false)]
fn chi(b: &[u64; 25]) -> (r: [u64; 25])
    ensures
        r@ == chi_spec(b@),
{
    reveal(chi_spec);
    let mut r = [0u64;25];
    let mut i: usize = 0;
    while i < 25
        invariant
            i <= 25,
            forall|t: int|
                0 <= t < i ==> r@[t] == b@[t] ^ (!b@[(t % 5 + 1) % 5 + 5 * (t / 5)] & b@[(t % 5
                    + 2) % 5 + 5 * (t / 5)]),
        decreases 25 - i,
    {
        let row: usize = 5 * (i / 5);
        r[i] = b[i] ^ (!b[(i % 5 + 1) % 5 + row] & b[(i % 5 + 2) % 5 + row]);
        i += 1;
    }
    assert(r@ =~= chi_spec(b@));
    r
}

/// Applies the permutation Keccak-f[1600] to a state of 25 lanes.
pub fn keccak_f(a: &mut [u64; 25])
    ensures
        final(a)@ == keccak_f_spec(old(a)@),
{
    let mut round: usize = 0;
    while round < 24
        invariant
            round <= 24,
            a@ == keccak_rounds(old(a)@, round as nat),
        decreases 24 - round,
    {
        let t = theta(a);
        let b = rho_pi(&t);
        let mut c = chi(&b);
        c[0] = c[0] ^ RC[round];
        *a = c;
        round += 1;
    }
}

} // verus!
