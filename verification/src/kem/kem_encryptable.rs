use crate::ops::{
    digest_of, lemma_seal_then_open, nonce_then, open, opened, opens, outcome, seal, streamed,
    Scheme, NONCE_BYTES,
};
use crate::sha3::aux_functions::byte_utils::get_random_bytes;
use crate::{Message, MessageView, OperationError, SecParam};
use capy_kem::constants::parameter_sets::KEM_768;
use capy_kem::fips203::decrypt::mlkem_decaps;
use capy_kem::fips203::encrypt::mlkem_encaps;
use capy_kem::fips203::keygen::ml_kem_keygen;
use vstd::prelude::*;

verus! {

/// The number of bytes of an encapsulation key.
pub const EK_BYTES: usize = 1184;

/// The number of bytes of a decapsulation key.
pub const DK_BYTES: usize = 2400;

/// The number of bytes of an encapsulated secret.
pub const CT_BYTES: usize = 1088;

/// The number of bytes of a secret that the KEM transports.
pub const SECRET_BYTES: usize = 32;

/// The number of bytes of an encapsulated secret that hold its first part,
/// the least that decapsulation reads.
pub const CT_HEAD_BYTES: usize = 960;

/// The modulus of the coefficients that a key encodes.
pub const Q: u16 = 3329;

/// Coefficient `i` of the first polynomial that an encapsulation key
/// encodes: twelve bits, two coefficients to three bytes.
pub open spec fn coefficient(ek: Seq<u8>, i: int) -> int {
    let b = 3 * (i / 2);
    if i % 2 == 0 {
        ek[b] + 256 * (ek[b + 1] % 16)
    } else {
        ek[b + 1] / 16 + 16 * ek[b + 2]
    }
}

/// Whether a byte string can be an encapsulation key: it has the length of
/// one, and the 256 coefficients of its first polynomial are below the
/// modulus.
pub open spec fn valid_encapsulation_key(ek: Seq<u8>) -> bool {
    ek.len() == EK_BYTES && forall|i: int| 0 <= i < 256 ==> #[trigger] coefficient(ek, i) < Q
}

/// Whether decapsulation can read a key and an encapsulated secret of these
/// lengths.
pub open spec fn decapsulation_sizes(dk: Seq<u8>, c: Seq<u8>) -> bool {
    dk.len() >= DK_BYTES && c.len() >= CT_HEAD_BYTES
}

/// The secret that decapsulation recovers from an encapsulated secret `c`
/// under the decapsulation key `dk`.
pub uninterp spec fn decapsulated(c: Seq<u8>, dk: Seq<u8>) -> Seq<u8>;

/// A fresh ML-KEM-768 key pair (`capy_kem::fips203::keygen::ml_kem_keygen`),
/// the encapsulation key first. The keys are random; what is claimed is that
/// the encapsulation key is a valid one and that the decapsulation key, which
/// packs the secret key, the encapsulation key, its hash and a seed, has 2400
/// bytes.
#[verifier::external_body]
fn generate_keys() -> (keys: (Vec<u8>, Vec<u8>))
    ensures
        valid_encapsulation_key(keys.0@),
        keys.1@.len() == DK_BYTES,
{
    let (public, private) = ml_kem_keygen::<KEM_768>();
    (public.ek, private.dk)
}

/// A fresh random secret and its encapsulation under `ek`
/// (`capy_kem::fips203::encrypt::mlkem_encaps`), the secret first. The
/// outside function stops the process on a key whose first polynomial has a
/// coefficient that is not below the modulus, and gives an error on a key of
/// another length, so such keys are not admitted. On a key that is admitted
/// it gives a result: past those two tests it can fail only where a
/// polynomial of the key is decoded, and that decoding reduces every
/// coefficient before it tests it. The secret has 32 bytes and the
/// encapsulation 1088.
#[verifier::external_body]
fn encapsulate(ek: &[u8]) -> (r: Option<(Vec<u8>, Vec<u8>)>)
    requires
        valid_encapsulation_key(ek@),
    ensures
        r is Some,
        r matches Some((secret, c)) ==> secret@.len() == SECRET_BYTES && c@.len() == CT_BYTES,
{
    match mlkem_encaps::<KEM_768>(ek) {
        Ok((secret, c)) => Some((secret, c)),
        Err(_) => None,
    }
}

/// The secret that `c` encapsulates under `dk`
/// (`capy_kem::fips203::decrypt::mlkem_decaps`). The outside function reads
/// the first 2400 bytes of the key and at least 960 bytes of `c` without a
/// test, so shorter inputs are not admitted. On inputs that are admitted it
/// gives a result: it can fail only where a polynomial of the key is
/// decoded from 384 bytes, and that decoding reduces every coefficient
/// before it tests it. The result depends on the two byte strings alone and
/// has 32 bytes.
#[verifier::external_body]
fn decapsulate(c: &[u8], dk: &[u8]) -> (r: Option<Vec<u8>>)
    requires
        decapsulation_sizes(dk@, c@),
    ensures
        r is Some,
        r matches Some(secret) ==> secret@ == decapsulated(c@, dk@) && secret@.len()
            == SECRET_BYTES,
{
    match mlkem_decaps::<KEM_768>(c, dk) {
        Ok(secret) => Some(secret),
        Err(_) => None,
    }
}

/// Whether a byte string can be an encapsulation key.
pub fn is_valid_encapsulation_key(ek: &[u8]) -> (ok: bool)
    ensures
        ok == valid_encapsulation_key(ek@),
{
    if ek.len() != EK_BYTES {
        return false;
    }
    let mut j: usize = 0;
    while j < 128
        invariant
            j <= 128,
            ek@.len() == EK_BYTES,
            forall|i: int| 0 <= i < 2 * j ==> #[trigger] coefficient(ek@, i) < Q,
        decreases 128 - j,
    {
        let b0: u16 = ek[3 * j] as u16;
        let b1: u16 = ek[3 * j + 1] as u16;
        let b2: u16 = ek[3 * j + 2] as u16;
        let low: u16 = b0 + 256 * (b1 % 16);
        let high: u16 = b1 / 16 + 16 * b2;
        assert(low == coefficient(ek@, 2 * j as int));
        assert(high == coefficient(ek@, 2 * j + 1));
        if low >= Q || high >= Q {
            return false;
        }
        assert forall|i: int| 0 <= i < 2 * (j + 1) implies #[trigger] coefficient(ek@, i) < Q by {
            if i == 2 * j {
            } else if i == 2 * j + 1 {
            }
        }
        j += 1;
    }
    true
}

/// Sealing and opening for the holder of a KEM key.
pub trait KEMEncryptable {
    fn kem_encrypt(&mut self, key: &KEMKey, d: &SecParam) -> Result<(), OperationError>;

    fn kem_decrypt(&mut self, key: &KEMKey) -> Result<(), OperationError>;
}

/// A KEM key pair with random bytes that were drawn beside it. The bytes
/// are kept with the keys; the keys and the encapsulations do not depend on
/// them.
#[derive(Debug, Clone)]
pub struct KEMKey {
    pub ek: Vec<u8>,
    pub dk: Vec<u8>,
    pub rand_bytes: [u8; 32],
}

impl KEMKey {
    /// A fresh key pair. The keys are random: the encapsulation key is a
    /// valid one, and the decapsulation key has the length of one.
    pub fn kem_keygen() -> (key: KEMKey)
        ensures
            valid_encapsulation_key(key.ek@),
            key.dk@.len() == DK_BYTES,
    {
        let drawn = get_random_bytes(32);
        let mut rand_bytes = [0u8;32];
        let mut i: usize = 0;
        while i < 32
            invariant
                i <= 32,
                drawn@.len() == 32,
            decreases 32 - i,
        {
            rand_bytes[i] = drawn[i];
            i += 1;
        }
        let (ek, dk) = generate_keys();
        KEMKey { ek, dk, rand_bytes }
    }
}

/// The message after it was sealed under the secret that `c` encapsulates
/// and the nonce `z`.
pub open spec fn kem_sealed(
    m: MessageView,
    secret: Seq<u8>,
    c: Seq<u8>,
    d: SecParam,
    z: Seq<u8>,
) -> MessageView {
    MessageView {
        msg: streamed(z + secret, m.msg, Scheme::Kem, d),
        d: Some(d),
        sym_nonce: Some(z),
        kem_ciphertext: Some(c),
        digest: Some(digest_of(z + secret, m.msg, Scheme::Kem, d)),
        ..m
    }
}

/// The message after an attempt to open it under a transported secret,
/// where it carries a strength and a nonce.
pub open spec fn kem_opened(m: MessageView, secret: Seq<u8>) -> MessageView {
    let d = m.d->Some_0;
    let key = m.sym_nonce->Some_0 + secret;
    MessageView {
        msg: opened(key, m.msg, m.digest, Scheme::Kem, d),
        op_result: outcome(opens(key, m.msg, m.digest, Scheme::Kem, d)),
        ..m
    }
}

/// The error that opening under a KEM key ends with before it touches the
/// payload, if any: the first of no encapsulated secret, a key or an
/// encapsulated secret too short to read, no strength, no nonce.
pub open spec fn kem_decrypt_refusal(m: MessageView, dk: Seq<u8>) -> Option<OperationError> {
    if m.kem_ciphertext is None {
        Some(OperationError::EmptyDecryptionError)
    } else if !decapsulation_sizes(dk, m.kem_ciphertext->Some_0) {
        Some(OperationError::InvalidKeyLength)
    } else if m.d is None {
        Some(OperationError::SecurityParameterNotSet)
    } else if m.sym_nonce is None {
        Some(OperationError::SymNonceNotSet)
    } else {
        None
    }
}

/// Where decapsulation recovers the secret that was encapsulated, sealing
/// and then opening gives the payload back and records success.
pub proof fn lemma_kem_round_trip(
    m: MessageView,
    secret: Seq<u8>,
    c: Seq<u8>,
    d: SecParam,
    z: Seq<u8>,
)
    ensures
        kem_opened(kem_sealed(m, secret, c, d, z), secret).msg == m.msg,
        kem_opened(kem_sealed(m, secret, c, d, z), secret).op_result == Some(
            Ok::<(), OperationError>(()),
        ),
{
    lemma_seal_then_open(z + secret, m.msg, Scheme::Kem, d);
}

impl Message {
    /// Seals the payload under a transported secret, its encapsulation `c`
    /// and the nonce `z`: the payload becomes its ciphertext, and the message
    /// keeps the strength, the nonce, the encapsulation and the digest of the
    /// plaintext.
    pub fn kem_encrypt_with(&mut self, secret: &[u8], c: Vec<u8>, d: &SecParam, z: Vec<u8>)
        ensures
            final(self)@ == kem_sealed(old(self)@, secret@, c@, *d, z@),
    {
        let key = nonce_then(&z, secret);
        let t = seal(&mut self.msg, key.as_slice(), Scheme::Kem, d);
        self.d = Some(*d);
        self.kem_ciphertext = Some(c);
        self.digest = Some(t);
        self.sym_nonce = Some(z);
    }

    /// Opens the payload under a transported secret. It fails, and leaves
    /// the message as it was, where the message carries no strength or no
    /// nonce. Otherwise the outcome is recorded in the message: success with
    /// the plaintext in place, or a digest mismatch with the payload as it
    /// was.
    pub fn kem_decrypt_with(&mut self, secret: &[u8]) -> (r: Result<(), OperationError>)
        ensures
            old(self).d is None ==> r == Err::<(), OperationError>(
                OperationError::SecurityParameterNotSet,
            ) && final(self)@ == old(self)@,
            old(self).d is Some && old(self).sym_nonce is None ==> r == Err::<
                (),
                OperationError,
            >(OperationError::SymNonceNotSet) && final(self)@ == old(self)@,
            old(self).d is Some && old(self).sym_nonce is Some ==> r is Ok && final(self)@
                == kem_opened(old(self)@, secret@),
    {
        let d = match self.d {
            Some(d) => d,
            None => {
                return Err(OperationError::SecurityParameterNotSet);
            },
        };
        let key = match &self.sym_nonce {
            Some(z) => nonce_then(z, secret),
            None => {
                return Err(OperationError::SymNonceNotSet);
            },
        };
        let ok = open(&mut self.msg, key.as_slice(), &self.digest, Scheme::Kem, &d);
        self.op_result = if ok {
            Some(Ok(()))
        } else {
            Some(Err(OperationError::SHA3DecryptionFailure))
        };
        Ok(())
    }
}

impl KEMEncryptable for Message {
    /// Seals the payload under a fresh secret that is encapsulated for the
    /// key, and a fresh nonce. It succeeds on every valid encapsulation key.
    /// On any other key it fails with `InvalidKeyLength` and leaves the
    /// message as it was.
    fn kem_encrypt(&mut self, key: &KEMKey, d: &SecParam) -> (r: Result<(), OperationError>)
        ensures
            !valid_encapsulation_key(key.ek@) ==> r == Err::<(), OperationError>(
                OperationError::InvalidKeyLength,
            ) && final(self)@ == old(self)@,
            valid_encapsulation_key(key.ek@) ==> r is Ok && exists|
                secret: Seq<u8>,
                c: Seq<u8>,
                z: Seq<u8>,
            |
                secret.len() == SECRET_BYTES && c.len() == CT_BYTES && z.len() == NONCE_BYTES
                    && final(self)@ == #[trigger] kem_sealed(old(self)@, secret, c, *d, z),
    {
        if !is_valid_encapsulation_key(key.ek.as_slice()) {
            return Err(OperationError::InvalidKeyLength);
        }
        match encapsulate(key.ek.as_slice()) {
            Some((secret, c)) => {
                let z = get_random_bytes(NONCE_BYTES);
                let ghost cv = c@;
                let ghost zv = z@;
                self.kem_encrypt_with(secret.as_slice(), c, d, z);
                assert(self@ == kem_sealed(old(self)@, secret@, cv, *d, zv));
                Ok(())
            },
            None => Err(OperationError::InvalidKeyLength),
        }
    }

    /// Opens the payload under the secret that the message's encapsulation
    /// holds for the key. It fails, and leaves the message as it was, with
    /// the first error of `kem_decrypt_refusal`, and on those inputs alone.
    /// Otherwise it succeeds, and the outcome is recorded in the message:
    /// success with the plaintext in place, or a digest mismatch with the
    /// payload as it was.
    fn kem_decrypt(&mut self, key: &KEMKey) -> (r: Result<(), OperationError>)
        ensures
            kem_decrypt_refusal(old(self)@, key.dk@) matches Some(e) ==> r == Err::<
                (),
                OperationError,
            >(e) && final(self)@ == old(self)@,
            kem_decrypt_refusal(old(self)@, key.dk@) is None ==> r is Ok && final(self)@
                == kem_opened(
                old(self)@,
                decapsulated(old(self)@.kem_ciphertext->Some_0, key.dk@),
            ),
    {
        let secret = match &self.kem_ciphertext {
            None => {
                return Err(OperationError::EmptyDecryptionError);
            },
            Some(c) => {
                if key.dk.len() < DK_BYTES || c.len() < CT_HEAD_BYTES {
                    return Err(OperationError::InvalidKeyLength);
                }
                decapsulate(c.as_slice(), key.dk.as_slice())
            },
        };
        match secret {
            Some(secret) => self.kem_decrypt_with(secret.as_slice()),
            None => Err(OperationError::InvalidKeyLength),
        }
    }
}

} // verus!
