use crate::curve::affine::extended_of;
use crate::curve::extended_edwards::{point_add, point_mul, ExtendedPoint, PointView};
use crate::curve::field::field_element::{finv, fmul, fsub};
use crate::curve::params::{Curve, EdCurves};
use crate::curve::scalar::{be_value, fixed_be, to_be_bytes, Scalar};
use crate::ops::{
    digest_of, lemma_seal_then_open, open, opened, opens, outcome, seal, streamed, Scheme,
    KEY_BYTES,
};
use crate::sha3::aux_functions::byte_utils::{bytes_equal, get_random_bytes};
use crate::sha3::shake_functions::{kmac_xof_bytes, kmac_xof_spec};
use crate::{Message, MessageView, OperationError, SecParam, Signature, SignatureView};
use vstd::prelude::*;
use vstd::string::StringSliceAdditionalSpecFns;

verus! {

/// The number of bytes that are drawn from the sponge for a scalar, before
/// they are reduced modulo the order.
pub const SCALAR_BYTES: usize = 128;

/// The generator of a curve in extended coordinates.
pub open spec fn generator_view(id: EdCurves) -> PointView {
    extended_of(id.spec_gx(), id.spec_gy(), id.spec_p())
}

/// The first coordinate of the point that an extended point stands for.
pub open spec fn affine_x(w: PointView, p: nat) -> nat {
    fmul(w.x, finv(w.z, p), p)
}

/// The bytes that stand for a point as a shared secret: its first
/// coordinate, the highest byte first, four bytes to a limb.
pub open spec fn secret_of(w: PointView, id: EdCurves) -> Seq<u8> {
    fixed_be(affine_x(w, id.spec_p()), 4 * id.spec_limbs())
}

/// The scalar that a byte string is hashed to: bytes drawn from the sponge
/// under the given key, data and customization, reduced modulo the order.
pub open spec fn hashed_scalar(
    key: Seq<u8>,
    data: Seq<u8>,
    label: Seq<u8>,
    id: EdCurves,
    d: SecParam,
) -> nat {
    be_value(kmac_xof_spec(key, data, SCALAR_BYTES as nat, label, d.spec_rate())) % id.spec_r()
}

/// The private scalar that a seed gives on a curve at a strength.
pub open spec fn private_scalar(seed: Seq<u8>, id: EdCurves, d: SecParam) -> nat {
    hashed_scalar(seed, Seq::<u8>::empty(), "SK".spec_bytes(), id, d)
}

/// The public point of a private scalar: its multiple of the generator.
pub open spec fn public_point(s: nat, id: EdCurves) -> PointView {
    point_mul(s, generator_view(id), id.spec_p(), id.spec_d())
}

/// A private scalar with its public point, the name of its owner and the
/// strength at which it was derived.
#[derive(Debug)]
pub struct KeyPair {
    pub owner: String,
    pub d: SecParam,
    pub curve: EdCurves,
    pub priv_key: Scalar,
    pub pub_key: ExtendedPoint,
}

// The scalar that a byte string is hashed to.
fn hash_to_scalar(key: &[u8], data: &[u8], label: &str, c: &Curve, d: &SecParam) -> (s: Scalar)
    requires
        c.wf(),
    ensures
        s.wf(c),
        s@ == hashed_scalar(key@, data@, label.spec_bytes(), c.id, *d),
{
    let drawn = kmac_xof_bytes(key, data, SCALAR_BYTES, label.as_bytes(), d);
    Scalar::from_be_bytes(drawn.as_slice(), c)
}

// The bytes that stand for a point as a shared secret, where the point can
// be normalized.
fn secret_bytes(w: &ExtendedPoint, c: &Curve) -> (r: Option<Vec<u8>>)
    requires
        c.wf(),
        w.wf(c),
    ensures
        w@.z == 0 ==> r is None,
        w@.z != 0 ==> r is Some && r->Some_0@ == secret_of(w@, c.id),
{
    if w.Z.is_zero() {
        None
    } else {
        let a = w.to_affine(c);
        Some(to_be_bytes(a.x.limbs.as_slice()))
    }
}

impl KeyPair {
    /// Whether the parts are a scalar and a point of the pair's curve.
    pub open spec fn wf(&self, c: &Curve) -> bool {
        self.curve == c.id && self.priv_key.wf(c) && self.pub_key.wf(c)
    }

    /// The key pair of a seed on a curve at a strength: the private scalar
    /// is derived from the seed, and the public point is its multiple of the
    /// generator. The same seed, curve and strength give the same pair.
    pub fn new(seed: &[u8], owner: String, c: &Curve, d: &SecParam) -> (k: KeyPair)
        requires
            c.wf(),
        ensures
            k.wf(c),
            k.owner == owner,
            k.d == *d,
            k.curve == c.id,
            k.priv_key@ == private_scalar(seed@, c.id, *d),
            k.pub_key@ == public_point(k.priv_key@, c.id),
    {
        let empty: [u8; 0] = [];
        assert(empty@ =~= Seq::<u8>::empty());
        let s = hash_to_scalar(seed, empty.as_slice(), "SK", c, d);
        let v = ExtendedPoint::generator(c).scalar_mul(&s, c);
        KeyPair { owner, d: *d, curve: c.id, priv_key: s, pub_key: v }
    }
}

/// The message after it was sealed for the public point `v` under the
/// ephemeral scalar `k`: the secret is the first coordinate of `k v`, and
/// the message carries `k` times the generator.
pub open spec fn key_sealed(m: MessageView, v: PointView, k: nat, id: EdCurves, d: SecParam) -> MessageView {
    let p = id.spec_p();
    let secret = secret_of(point_mul(k, v, p, id.spec_d()), id);
    MessageView {
        msg: streamed(secret, m.msg, Scheme::KeyPair, d),
        d: Some(d),
        asym_nonce: Some(public_point(k, id)),
        digest: Some(digest_of(secret, m.msg, Scheme::KeyPair, d)),
        ..m
    }
}

/// The message after an attempt to open it under the private scalar `s`,
/// where it carries a strength and an ephemeral point: the secret is the
/// first coordinate of `s` times that point.
pub open spec fn key_opened(m: MessageView, s: nat, id: EdCurves) -> MessageView {
    let p = id.spec_p();
    let d = m.d->Some_0;
    let secret = secret_of(point_mul(s, m.asym_nonce->Some_0, p, id.spec_d()), id);
    MessageView {
        msg: opened(secret, m.msg, m.digest, Scheme::KeyPair, d),
        op_result: outcome(opens(secret, m.msg, m.digest, Scheme::KeyPair, d)),
        ..m
    }
}

/// Where the recipient's multiple of the ephemeral point stands for the same
/// secret as the sender's multiple of the recipient's public point, sealing
/// for a key pair and then opening under its private scalar gives the payload
/// back and records success.
pub proof fn lemma_key_round_trip(
    m: MessageView,
    s: nat,
    k: nat,
    id: EdCurves,
    d: SecParam,
)
    requires
        secret_of(point_mul(s, public_point(k, id), id.spec_p(), id.spec_d()), id) == secret_of(
            point_mul(k, public_point(s, id), id.spec_p(), id.spec_d()),
            id,
        ),
    ensures
        key_opened(key_sealed(m, public_point(s, id), k, id, d), s, id).msg == m.msg,
        key_opened(key_sealed(m, public_point(s, id), k, id, d), s, id).op_result == Some(
            Ok::<(), OperationError>(()),
        ),
{
    let p = id.spec_p();
    let secret = secret_of(point_mul(k, public_point(s, id), p, id.spec_d()), id);
    lemma_seal_then_open(secret, m.msg, Scheme::KeyPair, d);
}

/// Sealing for a key pair and opening under its private scalar.
pub trait KeyEncryptable {
    /// Whether the ephemeral point that the value carries, if any, is a
    /// point of the curve's field.
    spec fn nonce_fits(&self, c: &Curve) -> bool;

    fn key_encrypt(&mut self, pub_key: &ExtendedPoint, d: &SecParam, c: &Curve) -> Result<
        (),
        OperationError,
    >
        requires
            c.wf(),
            pub_key.wf(c),
    ;

    fn key_decrypt(&mut self, priv_key: &Scalar, c: &Curve) -> Result<(), OperationError>
        requires
            c.wf(),
            old(self).nonce_fits(c),
    ;
}

impl Message {
    /// Seals the payload for a public point under the ephemeral scalar `k`.
    /// It fails with `InvalidKeyLength`, and leaves the message as it was,
    /// where `k` times the public point cannot be normalized. Otherwise the
    /// payload becomes its ciphertext, and the message keeps the strength,
    /// `k` times the generator and the digest of the plaintext.
    pub fn key_encrypt_with(
        &mut self,
        pub_key: &ExtendedPoint,
        d: &SecParam,
        k: &Scalar,
        c: &Curve,
    ) -> (r: Result<(), OperationError>)
        requires
            c.wf(),
            pub_key.wf(c),
        ensures
            point_mul(k@, pub_key@, c.spec_p(), c.spec_d()).z == 0 ==> r == Err::<
                (),
                OperationError,
            >(OperationError::InvalidKeyLength) && final(self)@ == old(self)@,
            point_mul(k@, pub_key@, c.spec_p(), c.spec_d()).z != 0 ==> r is Ok && final(self)@
                == key_sealed(old(self)@, pub_key@, k@, c.id, *d),
    {
        let w = pub_key.scalar_mul(k, c);
        let secret = match secret_bytes(&w, c) {
            Some(secret) => secret,
            None => {
                return Err(OperationError::InvalidKeyLength);
            },
        };
        let z = ExtendedPoint::generator(c).scalar_mul(k, c);
        let t = seal(&mut self.msg, secret.as_slice(), Scheme::KeyPair, d);
        self.d = Some(*d);
        self.asym_nonce = Some(z);
        self.digest = Some(t);
        Ok(())
    }
}

impl KeyEncryptable for Message {
    open spec fn nonce_fits(&self, c: &Curve) -> bool {
        self.asym_nonce matches Some(z) ==> z.wf(c)
    }

    /// Seals the payload for a public point under a fresh random scalar.
    /// It fails with `InvalidKeyLength`, and leaves the message as it was,
    /// only where the scalar drawn gives a shared point that cannot be
    /// normalized.
    fn key_encrypt(&mut self, pub_key: &ExtendedPoint, d: &SecParam, c: &Curve) -> (r: Result<
        (),
        OperationError,
    >)
        ensures
            r is Err ==> r == Err::<(), OperationError>(OperationError::InvalidKeyLength)
                && final(self)@ == old(self)@ && exists|k: nat|
                k < c.spec_r() && (#[trigger] point_mul(k, pub_key@, c.spec_p(), c.spec_d())).z
                    == 0,
            r is Ok ==> exists|k: nat|
                k < c.spec_r() && final(self)@ == #[trigger] key_sealed(
                    old(self)@,
                    pub_key@,
                    k,
                    c.id,
                    *d,
                ),
    {
        let drawn = get_random_bytes(SCALAR_BYTES);
        let k = Scalar::from_be_bytes(drawn.as_slice(), c);
        let r = self.key_encrypt_with(pub_key, d, &k, c);
        proof {
            if r is Ok {
                assert(self@ == key_sealed(old(self)@, pub_key@, k@, c.id, *d));
            } else {
                assert(point_mul(k@, pub_key@, c.spec_p(), c.spec_d()).z == 0);
            }
        }
        r
    }

    /// Opens the payload under a private scalar. It fails, and leaves the
    /// message as it was, where the message carries no strength
    /// (`SecurityParameterNotSet`) or no ephemeral point (`SymNonceNotSet`),
    /// or where the shared point cannot be normalized (`InvalidKeyLength`).
    /// Otherwise the outcome is recorded in the message: success with the
    /// plaintext in place, or a digest mismatch with the payload as it was.
    fn key_decrypt(&mut self, priv_key: &Scalar, c: &Curve) -> (r: Result<(), OperationError>)
        ensures
            r == key_decrypt_result(old(self)@, priv_key@, c.id),
            r is Err ==> final(self)@ == old(self)@,
            r is Ok ==> final(self)@ == key_opened(old(self)@, priv_key@, c.id),
    {
        let d = match self.d {
            Some(d) => d,
            None => {
                return Err(OperationError::SecurityParameterNotSet);
            },
        };
        let secret = match &self.asym_nonce {
            None => {
                return Err(OperationError::SymNonceNotSet);
            },
            Some(z) => {
                let w = z.scalar_mul(priv_key, c);
                match secret_bytes(&w, c) {
                    Some(secret) => secret,
                    None => {
                        return Err(OperationError::InvalidKeyLength);
                    },
                }
            },
        };
        let ok = open(&mut self.msg, secret.as_slice(), &self.digest, Scheme::KeyPair, &d);
        self.op_result = if ok {
            Some(Ok(()))
        } else {
            Some(Err(OperationError::SHA3DecryptionFailure))
        };
        Ok(())
    }
}

/// What opening under a private scalar returns: the first error of no
/// strength, no ephemeral point and a shared point that cannot be
/// normalized, or success.
pub open spec fn key_decrypt_result(m: MessageView, s: nat, id: EdCurves) -> Result<
    (),
    OperationError,
> {
    if m.d is None {
        Err(OperationError::SecurityParameterNotSet)
    } else if m.asym_nonce is None {
        Err(OperationError::SymNonceNotSet)
    } else if point_mul(s, m.asym_nonce->Some_0, id.spec_p(), id.spec_d()).z == 0 {
        Err(OperationError::InvalidKeyLength)
    } else {
        Ok(())
    }
}

/// The nonce scalar of a signature: derived from the private scalar and the
/// message.
pub open spec fn signing_nonce(msg: Seq<u8>, s: nat, id: EdCurves, d: SecParam) -> nat {
    hashed_scalar(fixed_be(s, 4 * id.spec_limbs()), msg, "N".spec_bytes(), id, d)
}

/// The challenge that belongs to a commitment point and a message.
pub open spec fn challenge(u: PointView, msg: Seq<u8>, id: EdCurves, d: SecParam) -> Seq<u8> {
    kmac_xof_spec(
        secret_of(u, id),
        msg,
        KEY_BYTES as nat,
        "T".spec_bytes(),
        d.spec_rate(),
    )
}

/// The commitment point of a signature: the nonce times the generator.
pub open spec fn commitment(msg: Seq<u8>, s: nat, id: EdCurves, d: SecParam) -> PointView {
    public_point(signing_nonce(msg, s, id, d), id)
}

/// The signature of a message under a private scalar: the challenge of the
/// commitment, and the nonce less the challenge times the private scalar.
pub open spec fn signature_of(msg: Seq<u8>, s: nat, id: EdCurves, d: SecParam) -> SignatureView {
    let h = challenge(commitment(msg, s, id, d), msg, id, d);
    SignatureView {
        h,
        z: fsub(
            signing_nonce(msg, s, id, d),
            fmul(be_value(h) % id.spec_r(), s, id.spec_r()),
            id.spec_r(),
        ),
    }
}

/// The commitment that a verifier recovers from a signature and a public
/// point: the response times the generator plus the challenge times the
/// public point.
pub open spec fn recovered_commitment(sig: SignatureView, v: PointView, id: EdCurves) -> PointView {
    point_add(
        public_point(sig.z, id),
        point_mul(be_value(sig.h) % id.spec_r(), v, id.spec_p(), id.spec_d()),
        id.spec_p(),
        id.spec_d(),
    )
}

/// Whether a signature belongs to a message under a public point: the
/// challenge of the recovered commitment is the challenge of the signature.
pub open spec fn verifies(
    msg: Seq<u8>,
    sig: SignatureView,
    v: PointView,
    id: EdCurves,
    d: SecParam,
) -> bool {
    challenge(recovered_commitment(sig, v, id), msg, id, d) == sig.h
}

/// Where the commitment that the verifier recovers stands for the same
/// secret as the commitment of the signer, the signature of a message under
/// a private scalar verifies against the public point of that scalar.
pub proof fn lemma_signature_round_trip(msg: Seq<u8>, s: nat, id: EdCurves, d: SecParam)
    requires
        secret_of(
            recovered_commitment(signature_of(msg, s, id, d), public_point(s, id), id),
            id,
        ) == secret_of(commitment(msg, s, id, d), id),
    ensures
        verifies(msg, signature_of(msg, s, id, d), public_point(s, id), id, d),
{
}

/// What a verification is recorded as.
pub open spec fn verdict(ok: bool) -> Option<Result<(), OperationError>> {
    if ok {
        Some(Ok(()))
    } else {
        Some(Err(OperationError::SignatureVerificationFailure))
    }
}

/// What verifying returns: the first error of no signature, no strength and
/// a commitment that cannot be normalized, or success.
pub open spec fn verify_result(m: MessageView, v: PointView, id: EdCurves) -> Result<
    (),
    OperationError,
> {
    if m.sig is None {
        Err(OperationError::SignatureNotSet)
    } else if m.d is None {
        Err(OperationError::SecurityParameterNotSet)
    } else if recovered_commitment(m.sig->Some_0, v, id).z == 0 {
        Err(OperationError::InvalidKeyLength)
    } else {
        Ok(())
    }
}

/// Signing with a key pair and verifying against a public point.
pub trait Signable {
    fn sign(&mut self, key: &KeyPair, d: &SecParam, c: &Curve) -> Result<(), OperationError>
        requires
            c.wf(),
            key.wf(c),
    ;

    fn verify(&mut self, pub_key: &ExtendedPoint, c: &Curve) -> Result<(), OperationError>
        requires
            c.wf(),
            pub_key.wf(c),
    ;
}

impl Signable for Message {
    /// Signs the payload with the private scalar of a key pair. It fails
    /// with `InvalidKeyLength`, and leaves the message as it was, where the
    /// commitment point cannot be normalized. Otherwise the message keeps
    /// the strength and the signature; the payload is not changed.
    fn sign(&mut self, key: &KeyPair, d: &SecParam, c: &Curve) -> (r: Result<(), OperationError>)
        ensures
            commitment(old(self)@.msg, key.priv_key@, c.id, *d).z == 0 ==> r == Err::<
                (),
                OperationError,
            >(OperationError::InvalidKeyLength) && final(self)@ == old(self)@,
            commitment(old(self)@.msg, key.priv_key@, c.id, *d).z != 0 ==> r is Ok && final(self)@
                == (MessageView {
                d: Some(*d),
                sig: Some(signature_of(old(self)@.msg, key.priv_key@, c.id, *d)),
                ..old(self)@
            }),
    {
        let s_bytes = to_be_bytes(key.priv_key.limbs.as_slice());
        let k = hash_to_scalar(s_bytes.as_slice(), self.msg.as_slice(), "N", c, d);
        let u = ExtendedPoint::generator(c).scalar_mul(&k, c);
        let ux = match secret_bytes(&u, c) {
            Some(ux) => ux,
            None => {
                return Err(OperationError::InvalidKeyLength);
            },
        };
        let h = kmac_xof_bytes(ux.as_slice(), self.msg.as_slice(), KEY_BYTES, "T".as_bytes(), d);
        let hs = Scalar::from_be_bytes(h.as_slice(), c);
        let z = k.sub(&hs.mul(&key.priv_key, c), c);
        self.sig = Some(Signature { h, z });
        self.d = Some(*d);
        Ok(())
    }

    /// Verifies the signature of the payload against a public point. It
    /// fails, and leaves the message as it was, where the message carries no
    /// signature (`SignatureNotSet`) or no strength
    /// (`SecurityParameterNotSet`), or where the recovered commitment cannot
    /// be normalized (`InvalidKeyLength`). Otherwise the outcome is recorded
    /// in the message: success, or `SignatureVerificationFailure`.
    fn verify(&mut self, pub_key: &ExtendedPoint, c: &Curve) -> (r: Result<(), OperationError>)
        ensures
            r == verify_result(old(self)@, pub_key@, c.id),
            r is Err ==> final(self)@ == old(self)@,
            r is Ok ==> final(self)@ == (MessageView {
                op_result: verdict(
                    verifies(
                        old(self)@.msg,
                        old(self)@.sig->Some_0,
                        pub_key@,
                        c.id,
                        old(self)@.d->Some_0,
                    ),
                ),
                ..old(self)@
            }),
    {
        let ok = match &self.sig {
            None => {
                return Err(OperationError::SignatureNotSet);
            },
            Some(sig) => {
                let d = match self.d {
                    Some(d) => d,
                    None => {
                        return Err(OperationError::SecurityParameterNotSet);
                    },
                };
                let hs = Scalar::from_be_bytes(sig.h.as_slice(), c);
                let zg = ExtendedPoint::generator(c).scalar_mul(&sig.z, c);
                let hv = pub_key.scalar_mul(&hs, c);
                let u = zg.add(&hv, c);
                let ux = match secret_bytes(&u, c) {
                    Some(ux) => ux,
                    None => {
                        return Err(OperationError::InvalidKeyLength);
                    },
                };
                let h = kmac_xof_bytes(
                    ux.as_slice(),
                    self.msg.as_slice(),
                    KEY_BYTES,
                    "T".as_bytes(),
                    &d,
                );
                bytes_equal(h.as_slice(), sig.h.as_slice())
            },
        };
        self.op_result = if ok {
            Some(Ok(()))
        } else {
            Some(Err(OperationError::SignatureVerificationFailure))
        };
        Ok(())
    }
}

} // verus!
