use crate::aes::aes_constants::{CMDS, INV_CMDS, INV_SBOX, RCON, SBOX};
use vstd::prelude::*;
use vstd::slice::{slice_subrange, slice_to_vec};

verus! {

/// The image of a byte under the substitution table.
pub open spec fn sbox(x: u8) -> u8 {
    SBOX[x as int]
}

/// The image of a byte under the inverse substitution table.
pub open spec fn inv_sbox(x: u8) -> u8 {
    INV_SBOX[x as int]
}

/// Multiplication by `x` in GF(2^8) modulo `x^8 + x^4 + x^3 + x + 1`.
pub open spec fn xtime(b: u8) -> u8 {
    if b >= 0x80 {
        (b << 1) ^ 0x1b
    } else {
        b << 1
    }
}

/// The product of two bytes in GF(2^8): the sum, over the bits set in `a`, of
/// `b` times the matching power of `x`.
pub open spec fn gf_mul(a: u8, b: u8) -> u8
    decreases a,
{
    if a == 0 {
        0
    } else if a % 2 == 1 {
        b ^ gf_mul(a / 2, xtime(b))
    } else {
        gf_mul(a / 2, xtime(b))
    }
}

/// The sixteen bytes of a state, column after column: byte `r + 4c` is the
/// cell in row `r` and column `c`.
pub open spec fn state_bytes(s: [[u8; 4]; 4]) -> Seq<u8> {
    Seq::new(16, |k: int| s[k % 4][k / 4])
}

/// The sixteen bytes of round key number `round` within a key schedule.
pub open spec fn round_key_at(w: Seq<u8>, round: int) -> Seq<u8> {
    w.subrange(16 * round, 16 * round + 16)
}

/// A block combined with the first sixteen bytes of `k`, byte by byte.
#[verifier::opaque]
pub open spec fn xor_block(s: Seq<u8>, k: Seq<u8>) -> Seq<u8> {
    Seq::new(16, |i: int| s[i] ^ k[i])
}

/// Every byte of a block replaced by its image under the substitution table.
#[verifier::opaque]
pub open spec fn sub_bytes_spec(s: Seq<u8>) -> Seq<u8> {
    Seq::new(16, |i: int| sbox(s[i]))
}

/// Every byte of a block replaced by its image under the inverse table.
#[verifier::opaque]
pub open spec fn inv_sub_bytes_spec(s: Seq<u8>) -> Seq<u8> {
    Seq::new(16, |i: int| inv_sbox(s[i]))
}

/// Row `r` of the state moved `r` cells to the left, cyclically.
#[verifier::opaque]
pub open spec fn shift_rows_spec(s: Seq<u8>) -> Seq<u8> {
    Seq::new(16, |i: int| s[i % 4 + 4 * ((i / 4 + i % 4) % 4)])
}

/// Row `r` of the state moved `r` cells to the right, cyclically.
#[verifier::opaque]
pub open spec fn inv_shift_rows_spec(s: Seq<u8>) -> Seq<u8> {
    Seq::new(16, |i: int| s[i % 4 + 4 * ((i / 4 + 4 - i % 4) % 4)])
}

/// The cell in row `r` of column `c` after the column was multiplied by the
/// matrix `m` over GF(2^8).
pub open spec fn mixed_cell(m: [[u8; 4]; 4], s: Seq<u8>, r: int, c: int) -> u8 {
    gf_mul(m[r][0], s[4 * c]) ^ gf_mul(m[r][1], s[4 * c + 1]) ^ gf_mul(m[r][2], s[4 * c + 2])
        ^ gf_mul(m[r][3], s[4 * c + 3])
}

/// Every column of the state multiplied by the matrix `m` over GF(2^8).
#[verifier::opaque]
pub open spec fn mix_spec(m: [[u8; 4]; 4], s: Seq<u8>) -> Seq<u8> {
    Seq::new(16, |i: int| mixed_cell(m, s, i % 4, i / 4))
}

/// Every column of the state multiplied by the mixing matrix.
pub open spec fn mix_columns_spec(s: Seq<u8>) -> Seq<u8> {
    mix_spec(CMDS, s)
}

/// Every column of the state multiplied by the inverse mixing matrix.
pub open spec fn inv_mix_columns_spec(s: Seq<u8>) -> Seq<u8> {
    mix_spec(INV_CMDS, s)
}

/// The state after the initial key addition and `n` full rounds.
pub open spec fn cipher_rounds(block: Seq<u8>, w: Seq<u8>, n: nat) -> Seq<u8>
    decreases n,
{
    if n == 0 {
        xor_block(block, round_key_at(w, 0))
    } else {
        xor_block(
            mix_columns_spec(
                shift_rows_spec(sub_bytes_spec(cipher_rounds(block, w, (n - 1) as nat))),
            ),
            round_key_at(w, n as int),
        )
    }
}

/// The number of rounds that a key schedule of this length drives.
pub open spec fn rounds_of(w: Seq<u8>) -> int {
    w.len() / 16 - 1
}

/// The encryption of one sixteen-byte block under the key schedule `w`: the
/// initial key addition, all rounds but the last in full, and a last round
/// without column mixing.
pub open spec fn cipher(block: Seq<u8>, w: Seq<u8>) -> Seq<u8> {
    let nr = rounds_of(w);
    xor_block(
        shift_rows_spec(sub_bytes_spec(cipher_rounds(block, w, (nr - 1) as nat))),
        round_key_at(w, nr),
    )
}

/// The state of the inverse cipher once the rounds from the last one down to
/// `round` are undone.
pub open spec fn inv_cipher_rounds(block: Seq<u8>, w: Seq<u8>, round: int) -> Seq<u8>
    decreases rounds_of(w) - round,
{
    if round >= rounds_of(w) {
        xor_block(block, round_key_at(w, rounds_of(w)))
    } else {
        inv_mix_columns_spec(
            xor_block(
                inv_sub_bytes_spec(inv_shift_rows_spec(inv_cipher_rounds(block, w, round + 1))),
                round_key_at(w, round),
            ),
        )
    }
}

/// The decryption of one sixteen-byte block under the key schedule `w`.
pub open spec fn inv_cipher(block: Seq<u8>, w: Seq<u8>) -> Seq<u8> {
    xor_block(
        inv_sub_bytes_spec(inv_shift_rows_spec(inv_cipher_rounds(block, w, 1))),
        round_key_at(w, 0),
    )
}

/// `s` with the sixteen bytes from `at` on replaced by `block`.
pub open spec fn with_block(s: Seq<u8>, at: int, block: Seq<u8>) -> Seq<u8> {
    s.subrange(0, at) + block + s.subrange(at + 16, s.len() as int)
}

/// A word with its four bytes moved one place to the left, cyclically.
pub open spec fn rot_word_spec(t: Seq<u8>) -> Seq<u8> {
    seq![t[1], t[2], t[3], t[0]]
}

/// A word with each byte replaced by its image under the substitution table.
pub open spec fn sub_word_spec(t: Seq<u8>) -> Seq<u8> {
    seq![sbox(t[0]), sbox(t[1]), sbox(t[2]), sbox(t[3])]
}

/// A word with round constant number `round` added to its first byte.
pub open spec fn rcon_spec(t: Seq<u8>, round: int) -> Seq<u8> {
    seq![t[0] ^ RCON[round], t[1], t[2], t[3]]
}

/// The sum of two words, byte by byte.
pub open spec fn xor_word(a: Seq<u8>, b: Seq<u8>) -> Seq<u8> {
    seq![a[0] ^ b[0], a[1] ^ b[1], a[2] ^ b[2], a[3] ^ b[3]]
}

/// What the key schedule adds to word `i - nk` to obtain word `i`, given the
/// word `prev` that stands before word `i`.
pub open spec fn schedule_mask(prev: Seq<u8>, nk: int, i: int) -> Seq<u8> {
    if i % nk == 0 {
        rcon_spec(sub_word_spec(rot_word_spec(prev)), i / nk - 1)
    } else if nk > 6 && i % nk == 4 {
        sub_word_spec(prev)
    } else {
        prev
    }
}

/// Word `i` of the key schedule of a key of `nk` words.
pub open spec fn key_word(key: Seq<u8>, nk: int, i: int) -> Seq<u8>
    decreases i,
{
    if nk <= 0 || i < nk {
        key.subrange(4 * i, 4 * i + 4)
    } else {
        xor_word(key_word(key, nk, i - nk), schedule_mask(key_word(key, nk, i - 1), nk, i))
    }
}

/// The key schedule of a key of `nk` words for `nr` rounds: `4 (nr + 1)` words.
pub open spec fn expanded_key(key: Seq<u8>, nk: int, nr: int) -> Seq<u8> {
    Seq::new((16 * (nr + 1)) as nat, |b: int| key_word(key, nk, b / 4)[b % 4])
}

/// Whether a key of `len` bytes is one that the cipher supports.
pub open spec fn supported_key_len(len: int) -> bool {
    len == 16 || len == 24 || len == 32
}

/// The padding that brings a message of `len` bytes to a whole number of
/// blocks: between one and sixteen bytes, each holding their count.
pub open spec fn pkcs7_padding(len: int) -> Seq<u8> {
    let n = 16 - len % 16;
    Seq::new(n as nat, |i: int| n as u8)
}

/// `a` with each of its bytes that has a partner in `b` combined with it.
pub open spec fn xor_prefix(a: Seq<u8>, b: Seq<u8>) -> Seq<u8> {
    Seq::new(
        a.len(),
        |i: int|
            if i < b.len() {
                a[i] ^ b[i]
            } else {
                a[i]
            },
    )
}

/// Every word of the key schedule of a whole key has four bytes.
pub proof fn lemma_key_word_len(key: Seq<u8>, nk: int, i: int)
    requires
        nk > 0,
        key.len() == 4 * nk,
        0 <= i,
    ensures
        key_word(key, nk, i).len() == 4,
    decreases i,
{
    if i >= nk {
        lemma_key_word_len(key, nk, i - nk);
        lemma_key_word_len(key, nk, i - 1);
    }
}

fn xtime_byte(b: u8) -> (r: u8)
    ensures
        r == xtime(b),
{
    if b >= 0x80 {
        (b << 1) ^ 0x1b
    } else {
        b << 1
    }
}

fn gf_mul_bytes(a: u8, b: u8) -> (r: u8)
    ensures
        r == gf_mul(a, b),
{
    let mut acc: u8 = 0;
    let mut aa: u8 = a;
    let mut bb: u8 = b;
    assert(gf_mul(a, b) == 0u8 ^ gf_mul(a, b)) by {
        let g = gf_mul(a, b);
        assert(g == 0u8 ^ g) by (bit_vector);
    }
    while aa != 0
        invariant
            gf_mul(a, b) == acc ^ gf_mul(aa, bb),
        decreases aa,
    {
        proof {
            let rest = gf_mul(aa / 2, xtime(bb));
            assert(acc ^ (bb ^ rest) == (acc ^ bb) ^ rest) by (bit_vector);
        }
        if aa % 2 == 1 {
            acc = acc ^ bb;
        }
        bb = xtime_byte(bb);
        aa = aa / 2;
    }
    assert(acc ^ 0u8 == acc) by (bit_vector);
    acc
}

fn cell(state: &[[u8; 4]; 4], k: usize) -> (r: u8)
    requires
        k < 16,
    ensures
        r == state_bytes(*state)[k as int],
{
    state[k % 4][k / 4]
}

fn set_cell(state: &mut [[u8; 4]; 4], k: usize, v: u8)
    requires
        k < 16,
    ensures
        state_bytes(*final(state)) == state_bytes(*old(state)).update(k as int, v),
        state_bytes(*old(state)).len() == 16,
{
    state[k % 4][k / 4] = v;
    assert(state_bytes(*state) =~= state_bytes(*old(state)).update(k as int, v));
}

/// A key schedule, with the size of the key that it was expanded from.
pub struct AES {
    pub round_key: Vec<u8>,
    pub n_w: u32,  // Number of words in the key.
    pub n_r: u32,  // Number of rounds.
}

impl AES {
    /// Expands a key of 16, 24 or 32 bytes into its key schedule.
    pub fn new(key: &[u8]) -> (aes: Self)
        requires
            supported_key_len(key@.len() as int),
        ensures
            aes.n_w == key@.len() / 4,
            aes.n_r == aes.n_w + 6,
            aes.round_key@ == expanded_key(key@, aes.n_w as int, aes.n_r as int),
    {
        let (n_w, n_r): (u32, u32) = if key.len() == 16 {
            (4, 10)
        } else if key.len() == 24 {
            (6, 12)
        } else {
            (8, 14)
        };
        let mut round_key = slice_to_vec(key);
        Self::key_expansion(&mut round_key, n_w, n_r);
        AES { round_key, n_w, n_r }
    }

    /// Encrypts in place the sixteen bytes of `input` that start at
    /// `block_index`, under the key schedule `round_keys`.
    pub fn encrypt_block(input: &mut [u8], block_index: usize, round_keys: &[u8])
        requires
            block_index + 16 <= old(input)@.len(),
            round_keys@.len() >= 32,
        ensures
            final(input)@ == with_block(
                old(input)@,
                block_index as int,
                cipher(
                    old(input)@.subrange(block_index as int, block_index + 16),
                    round_keys@,
                ),
            ),
    {
        let ghost block = input@.subrange(block_index as int, block_index + 16);
        let mut state = [[0u8;4];4];
        Self::load_state(&mut state, input, block_index);

        let len: usize = round_keys.len();
        let nr: usize = len / 16 - 1;

        Self::add_round_key(&mut state, round_keys);
        assert(state_bytes(state) == cipher_rounds(block, round_keys@, 0));

        let mut round: usize = 1;
        while round < nr
            invariant
                1 <= round <= nr,
                len == round_keys@.len(),
                nr == len / 16 - 1,
                len >= 32,
                state_bytes(state) == cipher_rounds(block, round_keys@, (round - 1) as nat),
            decreases nr - round,
        {
            Self::sub_bytes(&mut state);
            Self::shift_rows(&mut state);
            Self::mix_columns(&mut state);
            let key = slice_subrange(round_keys, round * 16, (round + 1) * 16);
            assert(key@.subrange(0, 16) =~= round_key_at(round_keys@, round as int));
            Self::add_round_key(&mut state, key);
            round += 1;
        }

        Self::sub_bytes(&mut state);
        Self::shift_rows(&mut state);
        let key = slice_subrange(round_keys, nr * 16, (nr + 1) * 16);
        assert(key@.subrange(0, 16) =~= round_key_at(round_keys@, nr as int));
        Self::add_round_key(&mut state, key);
        assert(state_bytes(state) == cipher(block, round_keys@));

        Self::store_state(&state, input, block_index);
    }

    /// Decrypts in place the sixteen bytes of `input` that start at
    /// `block_index`, under the key schedule `round_keys`.
    pub fn decrypt_block(input: &mut [u8], block_index: usize, round_keys: &[u8])
        requires
            block_index + 16 <= old(input)@.len(),
            round_keys@.len() >= 32,
        ensures
            final(input)@ == with_block(
                old(input)@,
                block_index as int,
                inv_cipher(
                    old(input)@.subrange(block_index as int, block_index + 16),
                    round_keys@,
                ),
            ),
    {
        let ghost block = input@.subrange(block_index as int, block_index + 16);
        let mut state = [[0u8;4];4];
        Self::load_state(&mut state, input, block_index);

        let len: usize = round_keys.len();
        let nr: usize = len / 16 - 1;

        let key = slice_subrange(round_keys, nr * 16, (nr + 1) * 16);
        assert(key@.subrange(0, 16) =~= round_key_at(round_keys@, nr as int));
        Self::add_round_key(&mut state, key);
        assert(state_bytes(state) == inv_cipher_rounds(block, round_keys@, nr as int));

        let mut round: usize = nr - 1;
        while round >= 1
            invariant
                0 <= round < nr,
                len == round_keys@.len(),
                nr == len / 16 - 1,
                len >= 32,
                state_bytes(state) == inv_cipher_rounds(block, round_keys@, round + 1),
            decreases round,
        {
            Self::inv_shift_rows(&mut state);
            Self::inv_sub_bytes(&mut state);
            let key = slice_subrange(round_keys, round * 16, (round + 1) * 16);
            assert(key@.subrange(0, 16) =~= round_key_at(round_keys@, round as int));
            Self::add_round_key(&mut state, key);
            Self::inv_mix_columns(&mut state);
            round -= 1;
        }

        Self::inv_shift_rows(&mut state);
        Self::inv_sub_bytes(&mut state);
        Self::add_round_key(&mut state, round_keys);
        assert(state_bytes(state) == inv_cipher(block, round_keys@));

        Self::store_state(&state, input, block_index);
    }

    // Fills the state from the block at `block_index`, column after column.
    fn load_state(state: &mut [[u8; 4]; 4], input: &[u8], block_index: usize)
        requires
            block_index + 16 <= input@.len(),
        ensures
            state_bytes(*final(state)) == input@.subrange(block_index as int, block_index + 16),
    {
            let n: usize = input.len();
        let mut k: usize = 0;
        while k < 16
            invariant
                k <= 16,
                n == input@.len(),
                block_index + 16 <= n,
                forall|i: int| 0 <= i < k ==> state_bytes(*state)[i] == input@[block_index + i],
            decreases 16 - k,
        {
            set_cell(state, k, input[block_index + k]);
            k += 1;
        }
        assert(state_bytes(*state) =~= input@.subrange(block_index as int, block_index + 16));
    }

    // Writes the state over the block at `block_index`, column after column.
    fn store_state(state: &[[u8; 4]; 4], output: &mut [u8], block_index: usize)
        requires
            block_index + 16 <= old(output)@.len(),
        ensures
            final(output)@ == with_block(old(output)@, block_index as int, state_bytes(*state)),
    {
            let n: usize = output.len();
        let mut k: usize = 0;
        while k < 16
            invariant
                k <= 16,
                n == output@.len(),
                output@.len() == old(output)@.len(),
                block_index + 16 <= n,
                forall|i: int| 0 <= i < k ==> output@[block_index + i] == state_bytes(*state)[i],
                forall|i: int|
                    0 <= i < output@.len() && !(block_index <= i < block_index + k) ==> output@[i]
                        == old(output)@[i],
            decreases 16 - k,
        {
            output[block_index + k] = cell(state, k);
            k += 1;
        }
        assert(output@ =~= with_block(old(output)@, block_index as int, state_bytes(*state)));
    }

    // The transformation of the state in which a round key is combined
    // with the state. No inverse because XOR is its own inverse.
    #[verifier::loop_isolation(false)]
    fn add_round_key(state: &mut [[u8; 4]; 4], round_key: &[u8])
        requires
            round_key@.len() >= 16,
        ensures
            state_bytes(*final(state)) == xor_block(
                state_bytes(*old(state)),
                round_key@.subrange(0, 16),
            ),
    {
        reveal(xor_block);
        let mut k: usize = 0;
        while k < 16
            invariant
                k <= 16,
                round_key@.len() >= 16,
                forall|i: int|
                    0 <= i < k ==> state_bytes(*state)[i] == state_bytes(*old(state))[i]
                        ^ round_key@[i],
                forall|i: int| k <= i < 16 ==> state_bytes(*state)[i] == state_bytes(*old(state))[i],
            decreases 16 - k,
        {
            let v = cell(state, k);
            set_cell(state, k, v ^ round_key[k]);
            k += 1;
        }
        assert(state_bytes(*state) =~= xor_block(
            state_bytes(*old(state)),
            round_key@.subrange(0, 16),
        ));
    }

    // The transformation of the state that applies the S-box independently
    // to each byte of the state.
    #[verifier::loop_isolation(false)]
    fn sub_bytes(state: &mut [[u8; 4]; 4])
        ensures
            state_bytes(*final(state)) == sub_bytes_spec(state_bytes(*old(state))),
    {
        reveal(sub_bytes_spec);
        let mut k: usize = 0;
        while k < 16
            invariant
                k <= 16,
                forall|i: int|
                    0 <= i < k ==> state_bytes(*state)[i] == sbox(state_bytes(*old(state))[i]),
                forall|i: int| k <= i < 16 ==> state_bytes(*state)[i] == state_bytes(*old(state))[i],
            decreases 16 - k,
        {
            let v = cell(state, k);
            set_cell(state, k, SBOX[v as usize]);
            k += 1;
        }
        assert(state_bytes(*state) =~= sub_bytes_spec(state_bytes(*old(state))));
    }

    // The inverse of sub_bytes().
    #[verifier::loop_isolation(false)]
    fn inv_sub_bytes(state: &mut [[u8; 4]; 4])
        ensures
            state_bytes(*final(state)) == inv_sub_bytes_spec(state_bytes(*old(state))),
    {
        reveal(inv_sub_bytes_spec);
        let mut k: usize = 0;
        while k < 16
            invariant
                k <= 16,
                forall|i: int|
                    0 <= i < k ==> state_bytes(*state)[i] == inv_sbox(state_bytes(*old(state))[i]),
                forall|i: int| k <= i < 16 ==> state_bytes(*state)[i] == state_bytes(*old(state))[i],
            decreases 16 - k,
        {
            let v = cell(state, k);
            set_cell(state, k, INV_SBOX[v as usize]);
            k += 1;
        }
        assert(state_bytes(*state) =~= inv_sub_bytes_spec(state_bytes(*old(state))));
    }

    // The transformation of the state in which the last three rows are
    // cyclically shifted by different offsets.
    #[verifier::loop_isolation(false)]
    fn shift_rows(state: &mut [[u8; 4]; 4])
        ensures
            state_bytes(*final(state)) == shift_rows_spec(state_bytes(*old(state))),
    {
        reveal(shift_rows_spec);
        let before = *state;
        let mut k: usize = 0;
        while k < 16
            invariant
                k <= 16,
                before == *old(state),
                forall|i: int|
                    0 <= i < k ==> state_bytes(*state)[i] == shift_rows_spec(
                        state_bytes(before),
                    )[i],
            decreases 16 - k,
        {
            let row: usize = k % 4;
            let col: usize = (k / 4 + row) % 4;
            set_cell(state, k, cell(&before, row + 4 * col));
            k += 1;
        }
        assert(state_bytes(*state) =~= shift_rows_spec(state_bytes(*old(state))));
    }

    // The inverse of shift_rows().
    #[verifier::loop_isolation(false)]
    fn inv_shift_rows(state: &mut [[u8; 4]; 4])
        ensures
            state_bytes(*final(state)) == inv_shift_rows_spec(state_bytes(*old(state))),
    {
        reveal(inv_shift_rows_spec);
        let before = *state;
        let mut k: usize = 0;
        while k < 16
            invariant
                k <= 16,
                before == *old(state),
                forall|i: int|
                    0 <= i < k ==> state_bytes(*state)[i] == inv_shift_rows_spec(
                        state_bytes(before),
                    )[i],
            decreases 16 - k,
        {
            let row: usize = k % 4;
            let col: usize = (k / 4 + 4 - row) % 4;
            set_cell(state, k, cell(&before, row + 4 * col));
            k += 1;
        }
        assert(state_bytes(*state) =~= inv_shift_rows_spec(state_bytes(*old(state))));
    }

    // Multiplies every column of the state by the matrix `m`.
    #[verifier::loop_isolation(false)]
    fn mix_with(state: &mut [[u8; 4]; 4], m: &[[u8; 4]; 4])
        ensures
            state_bytes(*final(state)) == mix_spec(*m, state_bytes(*old(state))),
    {
        reveal(mix_spec);
        let before = *state;
        let mut k: usize = 0;
        while k < 16
            invariant
                k <= 16,
                before == *old(state),
                forall|i: int|
                    0 <= i < k ==> state_bytes(*state)[i] == mixed_cell(
                        *m,
                        state_bytes(before),
                        i % 4,
                        i / 4,
                    ),
            decreases 16 - k,
        {
            let row: usize = k % 4;
            let col: usize = k / 4;
            let t0 = gf_mul_bytes(m[row][0], cell(&before, 4 * col));
            let t1 = gf_mul_bytes(m[row][1], cell(&before, 4 * col + 1));
            let t2 = gf_mul_bytes(m[row][2], cell(&before, 4 * col + 2));
            let t3 = gf_mul_bytes(m[row][3], cell(&before, 4 * col + 3));
            set_cell(state, k, t0 ^ t1 ^ t2 ^ t3);
            k += 1;
        }
        assert(state_bytes(*state) =~= mix_spec(*m, state_bytes(*old(state))));
    }

    // The transformation of the state that takes all of the columns of the
    // state and mixes their data (independently of one another) to produce
    // new columns.
    fn mix_columns(state: &mut [[u8; 4]; 4])
        ensures
            state_bytes(*final(state)) == mix_columns_spec(state_bytes(*old(state))),
    {
        Self::mix_with(state, &CMDS);
    }

    // The inverse of mix_columns().
    fn inv_mix_columns(state: &mut [[u8; 4]; 4])
        ensures
            state_bytes(*final(state)) == inv_mix_columns_spec(state_bytes(*old(state))),
    {
        Self::mix_with(state, &INV_CMDS);
    }

    // The routine that generates the round keys from the key.
    fn key_expansion(key: &mut Vec<u8>, n_w: u32, n_r: u32)
        requires
            n_w == 4 || n_w == 6 || n_w == 8,
            n_r == n_w + 6,
            old(key)@.len() == 4 * n_w,
        ensures
            final(key)@ == expanded_key(old(key)@, n_w as int, n_r as int),
    {
        let total: usize = 16 * (n_r as usize + 1);
        let nk: usize = n_w as usize;
        key.resize(total, 0u8);
        assert forall|b: int| 0 <= b < 4 * nk implies key@[b] == key_word(
            old(key)@,
            nk as int,
            b / 4,
        )[b % 4] by {
            assert(key@.subrange(0, 4 * nk as int)[b] == key@[b]);
        }

        let mut i: usize = 4 * nk;
        while i < total
            invariant
                nk == 4 || nk == 6 || nk == 8,
                total == 16 * (nk + 7),
                key@.len() == total,
                old(key)@.len() == 4 * nk,
                4 * nk <= i <= total,
                i % 4 == 0,
                forall|b: int|
                    0 <= b < i ==> key@[b] == key_word(old(key)@, nk as int, b / 4)[b % 4],
            decreases total - i,
        {
            let ghost before = key@;
            let word = Self::next_word(key, Ghost(old(key)@), nk, i);
            key[i] = word[0];
            key[i + 1] = word[1];
            key[i + 2] = word[2];
            key[i + 3] = word[3];
            assert forall|b: int| 0 <= b < i + 4 implies key@[b] == key_word(
                old(key)@,
                nk as int,
                b / 4,
            )[b % 4] by {
                if b < i {
                    assert(key@[b] == before[b]);
                } else {
                    assert(b / 4 == i / 4);
                    assert(key@[b] == word@[b - i]);
                }
            }
            i += 4;
        }
        assert(key@ =~= expanded_key(old(key)@, n_w as int, n_r as int));
    }

    // Word `i / 4` of the key schedule, from the words that `key` already holds.
    fn next_word(key: &Vec<u8>, Ghost(seed): Ghost<Seq<u8>>, nk: usize, i: usize) -> (word: [u8; 4])
        requires
            nk == 4 || nk == 6 || nk == 8,
            seed.len() == 4 * nk,
            4 * nk <= i,
            i + 4 <= key@.len() <= 16 * (nk + 7),
            i % 4 == 0,
            forall|b: int| 0 <= b < i ==> key@[b] == key_word(seed, nk as int, b / 4)[b % 4],
        ensures
            word@ == key_word(seed, nk as int, i as int / 4),
    {
        let ghost wi = i as int / 4;
        let mut temp = [0u8;4];
        temp[0] = key[i - 4];
        temp[1] = key[i - 3];
        temp[2] = key[i - 2];
        temp[3] = key[i - 1];
        proof {
            lemma_key_word_len(seed, nk as int, wi - 1);
            lemma_key_word_len(seed, nk as int, wi - nk);
            assert((i - 4) / 4 == wi - 1 && (i - 3) / 4 == wi - 1 && (i - 2) / 4 == wi - 1 && (i
                - 1) / 4 == wi - 1);
            assert(temp@ =~= key_word(seed, nk as int, wi - 1));
        }

        proof {
            if nk == 4 {
                assert(i / 16 == wi / 4);
            } else if nk == 6 {
                assert(i / 24 == wi / 6);
            } else {
                assert(i / 32 == wi / 8);
            }
        }
        if i / 4 % nk == 0 {
            Self::rot_word(&mut temp);
            Self::sub_word(&mut temp);
            Self::rcon(&mut temp, i / (nk * 4) - 1);
        } else if nk > 6 && i / 4 % nk == 4 {
            Self::sub_word(&mut temp);
        }
        assert(temp@ == schedule_mask(key_word(seed, nk as int, wi - 1), nk as int, wi));

        let back: usize = i - 4 * nk;
        proof {
            assert(back as int / 4 == wi - nk && (back + 1) / 4 == wi - nk && (back + 2) / 4 == wi
                - nk && (back + 3) / 4 == wi - nk);
        }
        let word = [
            key[back] ^ temp[0],
            key[back + 1] ^ temp[1],
            key[back + 2] ^ temp[2],
            key[back + 3] ^ temp[3],
        ];
        assert(word@ =~= xor_word(key_word(seed, nk as int, wi - nk), temp@));
        word
    }

    // The transformation of words in which the four bytes of the word
    // are permuted cyclically
    fn rot_word(temp: &mut [u8; 4])
        ensures
            final(temp)@ == rot_word_spec(old(temp)@),
    {
        let first = temp[0];
        temp[0] = temp[1];
        temp[1] = temp[2];
        temp[2] = temp[3];
        temp[3] = first;
        assert(temp@ =~= rot_word_spec(old(temp)@));
    }

    // The transformation of words in which the S-box is applied to each
    // of the four bytes of the word.
    fn sub_word(temp: &mut [u8; 4])
        ensures
            final(temp)@ == sub_word_spec(old(temp)@),
    {
        temp[0] = SBOX[temp[0] as usize];
        temp[1] = SBOX[temp[1] as usize];
        temp[2] = SBOX[temp[2] as usize];
        temp[3] = SBOX[temp[3] as usize];
        assert(temp@ =~= sub_word_spec(old(temp)@));
    }

    // Word array for the round constant.
    fn rcon(temp: &mut [u8; 4], round: usize)
        requires
            round < 10,
        ensures
            final(temp)@ == rcon_spec(old(temp)@, round as int),
    {
        temp[0] = temp[0] ^ RCON[round];
        assert(temp@ =~= rcon_spec(old(temp)@, round as int));
    }
}

/// Appends to `input` the padding that fills its last block: between one and
/// sixteen bytes, each holding their count.
pub fn apply_pcks7_padding(input: &mut Vec<u8>)
    ensures
        final(input)@ == old(input)@ + pkcs7_padding(old(input)@.len() as int),
{
    let num_of_needed_padding: usize = 16 - (input.len() % 16);
    let padding_value: u8 = num_of_needed_padding as u8;

    let mut i: usize = 0;
    while i < num_of_needed_padding
        invariant
            i <= num_of_needed_padding,
            num_of_needed_padding == 16 - old(input)@.len() % 16,
            padding_value == num_of_needed_padding,
            input@.len() == old(input)@.len() + i,
            input@.subrange(0, old(input)@.len() as int) == old(input)@,
            forall|k: int| old(input)@.len() <= k < input@.len() ==> input@[k] == padding_value,
        decreases num_of_needed_padding - i,
    {
        input.push(padding_value);
        i += 1;
        assert(input@.subrange(0, old(input)@.len() as int) =~= old(input)@);
    }
    assert(input@ =~= old(input)@ + pkcs7_padding(old(input)@.len() as int));
}

/// Removes from the end of `input` as many bytes as its last byte says.
pub fn remove_pcks7_padding(input: &mut Vec<u8>)
    requires
        old(input)@.len() > 0,
        old(input)@.last() <= old(input)@.len(),
    ensures
        final(input)@ == old(input)@.take(old(input)@.len() - old(input)@.last()),
{
    let padding_value: usize = input[input.len() - 1] as usize;

    let amount_to_remove: usize = input.len() - padding_value;
    input.truncate(amount_to_remove)
}

/// Combines each byte of `a` with the byte of `b` at the same place, as far
/// as the shorter of the two reaches.
pub fn xor_blocks(a: &mut [u8], b: &[u8])
    ensures
        final(a)@ == xor_prefix(old(a)@, b@),
{
    // Determine the minimum length between the two blocks
    let len: usize = if a.len() < b.len() {
        a.len()
    } else {
        b.len()
    };

    // XOR each byte up to the minimum length
    let mut i: usize = 0;
    while i < len
        invariant
            i <= len,
            len <= a@.len(),
            len <= b@.len(),
            len == a@.len() || len == b@.len(),
            a@.len() == old(a)@.len(),
            forall|k: int| 0 <= k < i ==> a@[k] == old(a)@[k] ^ b@[k],
            forall|k: int| i <= k < a@.len() ==> a@[k] == old(a)@[k],
        decreases len - i,
    {
        a[i] = a[i] ^ b[i];
        i += 1;
    }
    assert(a@ =~= xor_prefix(old(a)@, b@));
}

} // verus!
