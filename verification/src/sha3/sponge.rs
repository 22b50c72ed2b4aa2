use crate::sha3::keccak::{keccak_f, keccak_f_spec};
use vstd::arithmetic::div_mod::{lemma_mod_add_multiples_vanish, lemma_small_mod};
use vstd::prelude::*;

verus! {

/// The lane that eight bytes spell, lowest byte first.
pub open spec fn lane_from_bytes(b: Seq<u8>) -> u64 {
    (b[0] as u64) | (b[1] as u64) << 8 | (b[2] as u64) << 16 | (b[3] as u64) << 24 | (b[4] as u64)
        << 32 | (b[5] as u64) << 40 | (b[6] as u64) << 48 | (b[7] as u64) << 56
}

/// Byte `j` of a lane, counted from the lowest.
pub open spec fn lane_byte(lane: u64, j: int) -> u8 {
    ((lane >> ((8 * j) as u64)) & 0xff) as u8
}

/// The 200 bytes of a state: lane after lane, each lowest byte first.
pub open spec fn state_bytes(a: Seq<u64>) -> Seq<u8> {
    Seq::new(200, |k: int| lane_byte(a[k / 8], k % 8))
}

/// The state of 25 lanes that are all zero.
pub open spec fn zero_state() -> Seq<u64> {
    Seq::new(25, |i: int| 0u64)
}

/// The state with a block added to its first lanes, eight bytes to a lane.
#[verifier::opaque]
pub open spec fn absorb_block(a: Seq<u64>, block: Seq<u8>) -> Seq<u64> {
    Seq::new(
        25,
        |i: int|
            if 8 * i + 8 <= block.len() {
                a[i] ^ lane_from_bytes(block.subrange(8 * i, 8 * i + 8))
            } else {
                a[i]
            },
    )
}

/// The state after all whole blocks of `m` were absorbed, each followed by
/// the permutation.
pub open spec fn absorb(a: Seq<u64>, m: Seq<u8>, rate: nat) -> Seq<u64>
    decreases m.len(),
{
    if rate == 0 || m.len() < rate {
        a
    } else {
        absorb(keccak_f_spec(absorb_block(a, m.take(rate as int))), m.skip(rate as int), rate)
    }
}

/// The padding that follows a message of `len` bytes: the suffix bits, then
/// zeros, then a last set bit, up to the end of a block.
pub open spec fn padding(len: nat, rate: nat, suffix: u8) -> Seq<u8> {
    let n = rate - len % rate;
    if n == 1 {
        seq![suffix | 0x80]
    } else {
        seq![suffix] + Seq::new((n - 2) as nat, |i: int| 0u8) + seq![0x80u8]
    }
}

/// The first `n` bytes that a state gives out, `rate` bytes between two
/// permutations.
pub open spec fn squeeze(a: Seq<u64>, rate: nat, n: nat) -> Seq<u8>
    decreases n,
{
    if rate == 0 || n <= rate {
        state_bytes(a).take(n as int)
    } else {
        state_bytes(a).take(rate as int) + squeeze(keccak_f_spec(a), rate, (n - rate) as nat)
    }
}

/// The sponge construction over Keccak-f[1600]: `n` bytes squeezed out after
/// the padded message was absorbed.
pub open spec fn sponge_spec(data: Seq<u8>, rate: nat, suffix: u8, n: nat) -> Seq<u8> {
    squeeze(absorb(zero_state(), data + padding(data.len(), rate, suffix), rate), rate, n)
}

/// Whether `rate` is a block size that the state can hold: a positive whole
/// number of lanes that leaves room for a capacity.
pub open spec fn valid_rate(rate: int) -> bool {
    0 < rate < 200 && rate % 8 == 0
}

/// Squeezing `n` bytes gives `n` bytes.
pub proof fn lemma_squeeze_len(a: Seq<u64>, rate: nat, n: nat)
    requires
        0 < rate <= 200,
    ensures
        squeeze(a, rate, n).len() == n,
    decreases n,
{
    if n > rate {
        lemma_squeeze_len(keccak_f_spec(a), rate, (n - rate) as nat);
    }
}

/// The sponge gives as many bytes as were asked for.
pub proof fn lemma_sponge_len(data: Seq<u8>, rate: nat, suffix: u8, n: nat)
    requires
        0 < rate <= 200,
    ensures
        sponge_spec(data, rate, suffix, n).len() == n,
{
    lemma_squeeze_len(
        absorb(zero_state(), data + padding(data.len(), rate, suffix), rate),
        rate,
        n,
    );
}

fn load_lane(data: &[u8], at: usize) -> (lane: u64)
    requires
        at + 8 <= data@.len(),
    ensures
        lane == lane_from_bytes(data@.subrange(at as int, at + 8)),
{
    let n: usize = data.len();
    (data[at] as u64) | (data[at + 1] as u64) << 8 | (data[at + 2] as u64) << 16 | (data[at
        + 3] as u64) << 24 | (data[at + 4] as u64) << 32 | (data[at + 5] as u64) << 40 | (data[at
        + 6] as u64) << 48 | (data[at + 7] as u64) << 56
}

fn byte_of_lane(lane: u64, j: usize) -> (b: u8)
    requires
        j < 8,
    ensures
        b == lane_byte(lane, j as int),
{
    let shift: u64 = 8 * (j as u64);
    let low: u64 = (lane >> shift) & 0xff;
    assert(low <= 0xff) by (bit_vector)
        requires
            low == (lane >> shift) & 0xff,
    ;
    low as u8
}

// Adds the block of `rate` bytes at `at` to the state, then permutes it.
#[verifier::loop_isolation(false)]
fn absorb_into(state: &mut [u64; 25], data: &[u8], at: usize, rate: usize)
    requires
        valid_rate(rate as int),
        at + rate <= data@.len(),
    ensures
        final(state)@ == keccak_f_spec(
            absorb_block(old(state)@, data@.subrange(at as int, at + rate)),
        ),
{
    reveal(absorb_block);
    let n: usize = data.len();
    let ghost block = data@.subrange(at as int, at + rate);
    let lanes: usize = rate / 8;
    let mut i: usize = 0;
    while i < lanes
        invariant
            i <= lanes,
            forall|t: int|
                0 <= t < i ==> state@[t] == old(state)@[t] ^ lane_from_bytes(
                    block.subrange(8 * t, 8 * t + 8),
                ),
            forall|t: int| i <= t < 25 ==> state@[t] == old(state)@[t],
        decreases lanes - i,
    {
        let lane = load_lane(data, at + 8 * i);
        assert(data@.subrange(at + 8 * i, at + 8 * i + 8) =~= block.subrange(8 * i, 8 * i + 8));
        state[i] = state[i] ^ lane;
        i += 1;
    }
    assert(state@ =~= absorb_block(old(state)@, block));
    keccak_f(state);
}

// Appends the first `k` bytes of the state to `out`.
#[verifier::loop_isolation(false)]
fn extract(state: &[u64; 25], k: usize, out: &mut Vec<u8>)
    requires
        k <= 200,
    ensures
        final(out)@ == old(out)@ + state_bytes(state@).take(k as int),
{
    let mut j: usize = 0;
    while j < k
        invariant
            j <= k,
            out@ == old(out)@ + state_bytes(state@).take(j as int),
        decreases k - j,
    {
        out.push(byte_of_lane(state[j / 8], j % 8));
        assert(out@ =~= old(out)@ + state_bytes(state@).take(j + 1));
        j += 1;
    }
}

// The last block of the padded message: what is left of `data` from `at` on,
// and the padding.
#[verifier::loop_isolation(false)]
fn last_block(data: &[u8], at: usize, rate: usize, suffix: u8) -> (block: Vec<u8>)
    requires
        valid_rate(rate as int),
        at <= data@.len(),
        data@.len() - at < rate,
        (data@.len() - at) % (rate as int) == (data@.len() as int) % (rate as int),
    ensures
        block@ == (data@ + padding(data@.len(), rate as nat, suffix)).skip(at as int),
        block@.len() == rate,
{
    let n: usize = data.len();
    let rest: usize = n - at;
    proof {
        lemma_small_mod(rest as nat, rate as nat);
    }
    let ghost pad = padding(n as nat, rate as nat, suffix);
    let mut block: Vec<u8> = Vec::new();
    let mut i: usize = 0;
    while i < rest
        invariant
            i <= rest,
            block@ == data@.subrange(at as int, at + i),
        decreases rest - i,
    {
        block.push(data[at + i]);
        assert(block@ =~= data@.subrange(at as int, at + i + 1));
        i += 1;
    }
    if rest + 1 == rate {
        block.push(suffix | 0x80);
        assert(block@ =~= (data@ + pad).skip(at as int));
    } else {
        block.push(suffix);
        let zeros: usize = rate - rest - 2;
        let mut z: usize = 0;
        while z < zeros
            invariant
                z <= zeros,
                block@ == data@.subrange(at as int, n as int) + seq![suffix] + Seq::new(
                    z as nat,
                    |i: int| 0u8,
                ),
            decreases zeros - z,
        {
            block.push(0u8);
            assert(block@ =~= data@.subrange(at as int, n as int) + seq![suffix] + Seq::new(
                (z + 1) as nat,
                |i: int| 0u8,
            ));
            z += 1;
        }
        block.push(0x80u8);
        assert(block@ =~= (data@ + pad).skip(at as int));
    }
    block
}

/// Absorbs `data`, padded with the suffix bits, in blocks of `rate` bytes and
/// squeezes `n` bytes out.
pub fn sponge(data: &[u8], rate: usize, suffix: u8, n: usize) -> (out: Vec<u8>)
    requires
        valid_rate(rate as int),
    ensures
        out@ == sponge_spec(data@, rate as nat, suffix, n as nat),
{
    let len: usize = data.len();
    let ghost padded = data@ + padding(len as nat, rate as nat, suffix);
    let mut state = [0u64;25];
    assert(state@ =~= zero_state());
    let mut at: usize = 0;
    assert(padded.skip(0) =~= padded);
    while len - at >= rate
        invariant
            valid_rate(rate as int),
            len == data@.len(),
            at <= len,
            (len - at) % (rate as int) == (len as int) % (rate as int),
            padded == data@ + padding(len as nat, rate as nat, suffix),
            absorb(zero_state(), padded, rate as nat) == absorb(
                state@,
                padded.skip(at as int),
                rate as nat,
            ),
        decreases len - at,
    {
        proof {
            let m = padded.skip(at as int);
            assert(m.take(rate as int) =~= data@.subrange(at as int, at + rate));
            assert(m.skip(rate as int) =~= padded.skip(at + rate));
            lemma_mod_add_multiples_vanish(len - at - rate, rate as int);
        }
        absorb_into(&mut state, data, at, rate);
        at += rate;
    }
    let block = last_block(data, at, rate, suffix);
    let ghost before_last = state@;
    absorb_into(&mut state, block.as_slice(), 0, rate);
    proof {
        let m = padded.skip(at as int);
        assert(m == block@);
        assert(m.take(rate as int) =~= block@.subrange(0, rate as int));
        assert(m.skip(rate as int).len() == 0);
        assert(absorb(state@, m.skip(rate as int), rate as nat) == state@);
        assert(absorb(before_last, m, rate as nat) == state@);
    }

    let ghost absorbed = state@;
    let mut out: Vec<u8> = Vec::new();
    let mut remaining: usize = n;
    assert(out@ + squeeze(state@, rate as nat, remaining as nat) =~= squeeze(
        absorbed,
        rate as nat,
        n as nat,
    ));
    while remaining > rate
        invariant
            valid_rate(rate as int),
            out@ + squeeze(state@, rate as nat, remaining as nat) == squeeze(
                absorbed,
                rate as nat,
                n as nat,
            ),
        decreases remaining,
    {
        let ghost before = out@;
        let ghost s = state@;
        extract(&state, rate, &mut out);
        keccak_f(&mut state);
        remaining -= rate;
        assert(out@ + squeeze(state@, rate as nat, remaining as nat) =~= before + squeeze(
            s,
            rate as nat,
            (remaining + rate) as nat,
        ));
    }
    extract(&state, remaining, &mut out);
    out
}

} // verus!
