use rand::RngCore;
use vstd::prelude::*;

verus! {

/// `a` with each of its bytes that has a partner in `b` combined with it.
pub open spec fn xor_bytes_spec(a: Seq<u8>, b: Seq<u8>) -> Seq<u8> {
    Seq::new(
        a.len(),
        |i: int|
            if i < b.len() {
                a[i] ^ b[i]
            } else {
                a[i]
            },
    )
}

/// Combining twice with the same bytes, at least as many as `a` has, gives
/// `a` back.
pub proof fn lemma_xor_bytes_twice(a: Seq<u8>, b: Seq<u8>)
    requires
        a.len() <= b.len(),
    ensures
        xor_bytes_spec(xor_bytes_spec(a, b), b) == a,
{
    assert forall|i: int| 0 <= i < a.len() implies xor_bytes_spec(xor_bytes_spec(a, b), b)[i]
        == a[i] by {
        let x = a[i];
        let y = b[i];
        assert((x ^ y) ^ y == x) by (bit_vector);
    }
    assert(xor_bytes_spec(xor_bytes_spec(a, b), b) =~= a);
}

/// `size` bytes from the thread's random number generator
/// (`rand::thread_rng` and `RngCore::fill_bytes`). Nothing is claimed of the
/// bytes but their number.
#[verifier::external_body]
pub fn get_random_bytes(size: usize) -> (bytes: Vec<u8>)
    ensures
        bytes@.len() == size,
{
    let mut bytes = vec![0u8; size];
    rand::thread_rng().fill_bytes(&mut bytes);
    bytes
}

/// Combines each byte of `a` with the byte of `b` at the same place, as far
/// as the shorter of the two reaches.
pub fn xor_bytes(a: &mut Vec<u8>, b: &[u8])
    ensures
        final(a)@ == xor_bytes_spec(old(a)@, b@),
{
    let len: usize = if a.len() < b.len() {
        a.len()
    } else {
        b.len()
    };
    let mut i: usize = 0;
    while i < len
        invariant
            i <= len,
            len <= a@.len(),
            len <= b@.len(),
            len == a@.len() || len == b@.len(),
            a@.len() == old(a)@.len(),
            forall|k: int| 0 <= k < i ==> a@[k] == old(a)@[k] ^ b@[k],
            forall|k: int| i <= k < a@.len() ==> a@[k] == old(a)@[k],
        decreases len - i,
    {
        let v: u8 = a[i] ^ b[i];
        a[i] = v;
        i += 1;
    }
    assert(a@ =~= xor_bytes_spec(old(a)@, b@));
}

/// Whether two byte strings are the same.
pub fn bytes_equal(a: &[u8], b: &[u8]) -> (same: bool)
    ensures
        same == (a@ == b@),
{
    if a.len() != b.len() {
        return false;
    }
    let n: usize = a.len();
    let mut same = true;
    let mut i: usize = 0;
    assert(a@.take(0) =~= b@.take(0));
    while i < n
        invariant
            i <= n,
            n == a@.len(),
            n == b@.len(),
            same == (a@.take(i as int) == b@.take(i as int)),
        decreases n - i,
    {
        if a[i] != b[i] {
            same = false;
            assert(a@.take(i + 1)[i as int] != b@.take(i + 1)[i as int]);
        } else if same {
            assert(a@.take(i + 1) =~= a@.take(i as int).push(a@[i as int]));
            assert(b@.take(i + 1) =~= b@.take(i as int).push(b@[i as int]));
        } else {
            assert(a@.take(i as int) =~= a@.take(i + 1).take(i as int));
            assert(b@.take(i as int) =~= b@.take(i + 1).take(i as int));
        }
        i += 1;
    }
    assert(a@.take(n as int) =~= a@);
    assert(b@.take(n as int) =~= b@);
    same
}

} // verus!
