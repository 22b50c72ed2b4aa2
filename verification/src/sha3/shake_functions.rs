use crate::sha3::sponge::{sponge, sponge_spec};
use crate::{OperationError, SecParam};
use vstd::prelude::*;
use vstd::string::StringSliceAdditionalSpecFns;

verus! {

/// The digits of `x` in base 256, the highest first, without leading zeros;
/// zero has the one digit 0.
pub open spec fn be_bytes(x: nat) -> Seq<u8>
    decreases x,
{
    if x < 256 {
        seq![x as u8]
    } else {
        be_bytes(x / 256).push((x % 256) as u8)
    }
}

/// A number written as the count of its digits followed by the digits.
pub open spec fn left_encode(x: nat) -> Seq<u8> {
    seq![be_bytes(x).len() as u8] + be_bytes(x)
}

/// A number written as its digits followed by their count.
pub open spec fn right_encode(x: nat) -> Seq<u8> {
    be_bytes(x) + seq![be_bytes(x).len() as u8]
}

/// A byte string preceded by its length in bits.
pub open spec fn encode_string(s: Seq<u8>) -> Seq<u8> {
    left_encode(8 * s.len()) + s
}

/// `n` zero bytes.
pub open spec fn zeros(n: nat) -> Seq<u8> {
    Seq::new(n, |i: int| 0u8)
}

/// The number of zero bytes that bring `len` bytes to a multiple of `w`.
pub open spec fn pad_len(len: nat, w: nat) -> nat {
    ((w - len % w) % (w as int)) as nat
}

/// A byte string preceded by `w` and filled with zeros to a multiple of `w`
/// bytes.
pub open spec fn bytepad(x: Seq<u8>, w: nat) -> Seq<u8> {
    let z = left_encode(w) + x;
    z + zeros(pad_len(z.len(), w))
}

/// The function name under which KMAC calls cSHAKE: the four letters "KMAC".
pub open spec fn kmac_name() -> Seq<u8> {
    seq![0x4bu8, 0x4du8, 0x41u8, 0x43u8]
}

/// cSHAKE with a block of `rate` bytes: `n` bytes from the sponge that
/// absorbed the function name and the customization, padded to a block, and
/// then the input. With both strings empty it is SHAKE.
pub open spec fn cshake_spec(x: Seq<u8>, n: nat, name: Seq<u8>, custom: Seq<u8>, rate: nat) -> Seq<
    u8,
> {
    if name.len() == 0 && custom.len() == 0 {
        sponge_spec(x, rate, 0x1f, n)
    } else {
        sponge_spec(bytepad(encode_string(name) + encode_string(custom), rate) + x, rate, 0x04, n)
    }
}

/// KMACXOF with a block of `rate` bytes: `n` bytes of cSHAKE under the name
/// "KMAC", over the key padded to a block, the data, and the encoding of an
/// output length left open.
pub open spec fn kmac_xof_spec(k: Seq<u8>, x: Seq<u8>, n: nat, custom: Seq<u8>, rate: nat) -> Seq<
    u8,
> {
    cshake_spec(bytepad(encode_string(k), rate) + x + right_encode(0), n, kmac_name(), custom, rate)
}

/// 256 to the power `k`.
pub open spec fn pow256(k: nat) -> nat
    decreases k,
{
    if k == 0 {
        1
    } else {
        256 * pow256((k - 1) as nat)
    }
}

/// A number below 256 to the `k` has at most `k` digits in base 256.
pub proof fn lemma_be_bytes_len(x: nat, k: nat)
    requires
        k >= 1,
        x < pow256(k),
    ensures
        1 <= be_bytes(x).len() <= k,
    decreases x,
{
    if x >= 256 {
        reveal_with_fuel(pow256, 2);
        assert(k >= 2);
        lemma_be_bytes_len(x / 256, (k - 1) as nat);
    }
}

/// KMACXOF gives as many bytes as were asked for.
pub proof fn lemma_kmac_xof_len(k: Seq<u8>, x: Seq<u8>, n: nat, custom: Seq<u8>, rate: nat)
    requires
        0 < rate <= 200,
    ensures
        kmac_xof_spec(k, x, n, custom, rate).len() == n,
{
    let data = bytepad(encode_string(k), rate) + x + right_encode(0);
    crate::sha3::sponge::lemma_sponge_len(
        bytepad(encode_string(kmac_name()) + encode_string(custom), rate) + data,
        rate,
        0x04,
        n,
    );
}

// The digits of `x` in base 256, the highest first.
fn be_bytes_of(x: u128) -> (r: Vec<u8>)
    ensures
        r@ == be_bytes(x as nat),
        1 <= r@.len() <= 16,
    decreases x,
{
    proof {
        reveal_with_fuel(pow256, 17);
        lemma_be_bytes_len(x as nat, 16);
    }
    if x < 256 {
        let mut r: Vec<u8> = Vec::new();
        r.push(x as u8);
        r
    } else {
        let mut r = be_bytes_of(x / 256);
        r.push((x % 256) as u8);
        r
    }
}

/// Appends `src` to `out`.
pub fn append(out: &mut Vec<u8>, src: &[u8])
    ensures
        final(out)@ == old(out)@ + src@,
{
    let n: usize = src.len();
    let mut i: usize = 0;
    while i < n
        invariant
            i <= n,
            n == src@.len(),
            out@ == old(out)@ + src@.take(i as int),
        decreases n - i,
    {
        out.push(src[i]);
        assert(out@ =~= old(out)@ + src@.take(i + 1));
        i += 1;
    }
    assert(src@.take(n as int) =~= src@);
}

fn left_encode_into(out: &mut Vec<u8>, x: u128)
    ensures
        final(out)@ == old(out)@ + left_encode(x as nat),
{
    let digits = be_bytes_of(x);
    out.push(digits.len() as u8);
    append(out, digits.as_slice());
    assert(out@ =~= old(out)@ + left_encode(x as nat));
}

fn encode_string_into(out: &mut Vec<u8>, s: &[u8])
    ensures
        final(out)@ == old(out)@ + encode_string(s@),
{
    let bits: u128 = 8 * (s.len() as u128);
    left_encode_into(out, bits);
    append(out, s);
    assert(out@ =~= old(out)@ + encode_string(s@));
}

// Appends zeros to `out` until the part of it from `start` on is a multiple
// of `w` bytes long.
fn pad_to_multiple(out: &mut Vec<u8>, start: usize, w: usize)
    requires
        w > 0,
        start <= old(out)@.len(),
    ensures
        final(out)@ == old(out)@ + zeros(pad_len((old(out)@.len() - start) as nat, w as nat)),
{
    let len: usize = out.len() - start;
    let fill: usize = (w - len % w) % w;
    let mut i: usize = 0;
    while i < fill
        invariant
            i <= fill,
            out@ == old(out)@ + zeros(i as nat),
        decreases fill - i,
    {
        out.push(0u8);
        assert(out@ =~= old(out)@ + zeros((i + 1) as nat));
        i += 1;
    }
}

/// cSHAKE at the given strength: `n` bytes derived from the input `x`, the
/// function name `name` and the customization `custom`.
pub fn cshake(x: &[u8], n: usize, name: &[u8], custom: &[u8], d: &SecParam) -> (out: Vec<u8>)
    ensures
        out@ == cshake_spec(x@, n as nat, name@, custom@, d.spec_rate()),
{
    let rate = d.rate();
    if name.len() == 0 && custom.len() == 0 {
        return sponge(x, rate, 0x1f, n);
    }
    let mut data: Vec<u8> = Vec::new();
    left_encode_into(&mut data, rate as u128);
    encode_string_into(&mut data, name);
    encode_string_into(&mut data, custom);
    pad_to_multiple(&mut data, 0, rate);
    append(&mut data, x);
    assert(data@ =~= bytepad(encode_string(name@) + encode_string(custom@), rate as nat) + x@);
    sponge(data.as_slice(), rate, 0x04, n)
}

/// KMACXOF at the given strength, with the output length counted in bytes:
/// `n` bytes derived from the key `k`, the data `x` and the customization
/// `custom`.
pub fn kmac_xof_bytes(k: &[u8], x: &[u8], n: usize, custom: &[u8], d: &SecParam) -> (out: Vec<u8>)
    ensures
        out@ == kmac_xof_spec(k@, x@, n as nat, custom@, d.spec_rate()),
        out@.len() == n,
{
    let rate = d.rate();
    let mut data: Vec<u8> = Vec::new();
    left_encode_into(&mut data, rate as u128);
    encode_string_into(&mut data, k);
    pad_to_multiple(&mut data, 0, rate);
    assert(data@ =~= bytepad(encode_string(k@), rate as nat));
    append(&mut data, x);
    data.push(0x00u8);
    data.push(0x01u8);
    assert(right_encode(0) =~= seq![0x00u8, 0x01u8]);
    assert(data@ =~= bytepad(encode_string(k@), rate as nat) + x@ + right_encode(0));
    let name: [u8; 4] = [0x4b, 0x4d, 0x41, 0x43];
    assert(name@ =~= kmac_name());
    proof {
        lemma_kmac_xof_len(k@, x@, n as nat, custom@, rate as nat);
    }
    cshake(data.as_slice(), n, name.as_slice(), custom, d)
}

/// KMACXOF at the given strength: the first `l / 8` bytes of the stream
/// derived from the key `k`, the data `x` and the customization `s`. It
/// fails only where that many bytes are more than the machine can address.
pub fn kmac_xof(k: &[u8], x: &[u8], l: u64, s: &str, d: &SecParam) -> (r: Result<
    Vec<u8>,
    OperationError,
>)
    ensures
        l / 8 <= usize::MAX ==> r is Ok && r->Ok_0@ == kmac_xof_spec(
            k@,
            x@,
            (l / 8) as nat,
            s.spec_bytes(),
            d.spec_rate(),
        ),
        l / 8 > usize::MAX ==> r == Err::<Vec<u8>, OperationError>(
            OperationError::UnsupportedOutputLength,
        ),
{
    let n: u64 = l / 8;
    if n > usize::MAX as u64 {
        return Err(OperationError::UnsupportedOutputLength);
    }
    Ok(kmac_xof_bytes(k, x, n as usize, s.as_bytes(), d))
}

} // verus!
