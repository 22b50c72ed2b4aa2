use crate::sha3::aux_functions::byte_utils::{
    bytes_equal, get_random_bytes, lemma_xor_bytes_twice, xor_bytes, xor_bytes_spec,
};
use crate::sha3::shake_functions::{kmac_xof_bytes, kmac_xof_spec};
use crate::{Message, MessageView, OperationError, SecParam};
use vstd::prelude::*;
use vstd::slice::slice_subrange;
use vstd::string::StringSliceAdditionalSpecFns;

verus! {

/// The number of bytes of the encryption key, of the authentication key and
/// of a digest.
pub const KEY_BYTES: usize = 64;

/// The number of bytes of the nonce that is mixed into a password or a
/// KEM secret.
pub const NONCE_BYTES: usize = 512;

/// The use that a shared secret is put to. Each use derives its keys, its
/// key stream and its digests under customization strings of its own.
#[derive(Clone, Copy, Debug, PartialEq, Eq, Structural)]
pub enum Scheme {
    /// The secret is a nonce followed by a password.
    Password,
    /// The secret is a coordinate of a point shared by two key pairs.
    KeyPair,
    /// The secret is a nonce followed by a secret that a KEM transported.
    Kem,
}

impl Scheme {
    /// The customization under which the two keys are derived.
    pub open spec fn spec_derive_label(&self) -> Seq<u8> {
        match self {
            Scheme::Password => "S".spec_bytes(),
            Scheme::KeyPair => "PK".spec_bytes(),
            Scheme::Kem => "S".spec_bytes(),
        }
    }

    /// The customization under which the key stream is made.
    pub open spec fn spec_stream_label(&self) -> Seq<u8> {
        match self {
            Scheme::Password => "SKE".spec_bytes(),
            Scheme::KeyPair => "PKE".spec_bytes(),
            Scheme::Kem => "KEMKE".spec_bytes(),
        }
    }

    /// The customization under which digests are made.
    pub open spec fn spec_digest_label(&self) -> Seq<u8> {
        match self {
            Scheme::Password => "SKA".spec_bytes(),
            Scheme::KeyPair => "PKA".spec_bytes(),
            Scheme::Kem => "KEMKA".spec_bytes(),
        }
    }

    /// The customization under which the two keys are derived.
    pub fn derive_label(&self) -> (s: &'static str)
        ensures
            s.spec_bytes() == self.spec_derive_label(),
    {
        match self {
            Scheme::Password => "S",
            Scheme::KeyPair => "PK",
            Scheme::Kem => "S",
        }
    }

    /// The customization under which the key stream is made.
    pub fn stream_label(&self) -> (s: &'static str)
        ensures
            s.spec_bytes() == self.spec_stream_label(),
    {
        match self {
            Scheme::Password => "SKE",
            Scheme::KeyPair => "PKE",
            Scheme::Kem => "KEMKE",
        }
    }

    /// The customization under which digests are made.
    pub fn digest_label(&self) -> (s: &'static str)
        ensures
            s.spec_bytes() == self.spec_digest_label(),
    {
        match self {
            Scheme::Password => "SKA",
            Scheme::KeyPair => "PKA",
            Scheme::Kem => "KEMKA",
        }
    }
}

/// The two keys that a shared secret expands to, the encryption key first.
pub open spec fn sub_keys(secret: Seq<u8>, scheme: Scheme, d: SecParam) -> Seq<u8> {
    kmac_xof_spec(
        secret,
        Seq::<u8>::empty(),
        (2 * KEY_BYTES) as nat,
        scheme.spec_derive_label(),
        d.spec_rate(),
    )
}

/// The key under which the key stream is made.
pub open spec fn encryption_key(secret: Seq<u8>, scheme: Scheme, d: SecParam) -> Seq<u8> {
    sub_keys(secret, scheme, d).subrange(0, KEY_BYTES as int)
}

/// The key under which digests are made.
pub open spec fn authentication_key(secret: Seq<u8>, scheme: Scheme, d: SecParam) -> Seq<u8> {
    sub_keys(secret, scheme, d).subrange(KEY_BYTES as int, 2 * KEY_BYTES)
}

/// The `n` bytes that a payload of `n` bytes is combined with.
pub open spec fn key_stream(secret: Seq<u8>, n: nat, scheme: Scheme, d: SecParam) -> Seq<u8> {
    kmac_xof_spec(
        encryption_key(secret, scheme, d),
        Seq::<u8>::empty(),
        n,
        scheme.spec_stream_label(),
        d.spec_rate(),
    )
}

/// The digest of a plaintext under the authentication key.
pub open spec fn digest_of(secret: Seq<u8>, plain: Seq<u8>, scheme: Scheme, d: SecParam) -> Seq<
    u8,
> {
    kmac_xof_spec(
        authentication_key(secret, scheme, d),
        plain,
        KEY_BYTES as nat,
        scheme.spec_digest_label(),
        d.spec_rate(),
    )
}

/// A payload combined with the key stream of its length: the ciphertext of a
/// plaintext, and the plaintext of a ciphertext.
pub open spec fn streamed(secret: Seq<u8>, payload: Seq<u8>, scheme: Scheme, d: SecParam) -> Seq<
    u8,
> {
    xor_bytes_spec(payload, key_stream(secret, payload.len(), scheme, d))
}

/// Whether a ciphertext opens under a secret: the digest that comes with it
/// is the digest of the plaintext that the secret recovers.
pub open spec fn opens(
    secret: Seq<u8>,
    cipher: Seq<u8>,
    digest: Option<Seq<u8>>,
    scheme: Scheme,
    d: SecParam,
) -> bool {
    digest == Some(digest_of(secret, streamed(secret, cipher, scheme, d), scheme, d))
}

/// What opening leaves of a ciphertext: the plaintext where it opens, and
/// the ciphertext as it was where it does not.
pub open spec fn opened(
    secret: Seq<u8>,
    cipher: Seq<u8>,
    digest: Option<Seq<u8>>,
    scheme: Scheme,
    d: SecParam,
) -> Seq<u8> {
    if opens(secret, cipher, digest, scheme, d) {
        streamed(secret, cipher, scheme, d)
    } else {
        cipher
    }
}

/// What the outcome of an opening is recorded as.
pub open spec fn outcome(ok: bool) -> Option<Result<(), OperationError>> {
    if ok {
        Some(Ok(()))
    } else {
        Some(Err(OperationError::SHA3DecryptionFailure))
    }
}

/// The key stream of a payload has the payload's length.
pub proof fn lemma_key_stream_len(secret: Seq<u8>, n: nat, scheme: Scheme, d: SecParam)
    ensures
        key_stream(secret, n, scheme, d).len() == n,
{
    crate::sha3::shake_functions::lemma_kmac_xof_len(
        encryption_key(secret, scheme, d),
        Seq::<u8>::empty(),
        n,
        scheme.spec_stream_label(),
        d.spec_rate(),
    );
}

/// Sealing and then opening under the same secret, scheme and strength
/// recovers the plaintext and reports success: a ciphertext with the digest
/// of its plaintext opens, and opening it gives the plaintext back.
pub proof fn lemma_seal_then_open(secret: Seq<u8>, plain: Seq<u8>, scheme: Scheme, d: SecParam)
    ensures
        streamed(secret, streamed(secret, plain, scheme, d), scheme, d) == plain,
        opens(
            secret,
            streamed(secret, plain, scheme, d),
            Some(digest_of(secret, plain, scheme, d)),
            scheme,
            d,
        ),
        opened(
            secret,
            streamed(secret, plain, scheme, d),
            Some(digest_of(secret, plain, scheme, d)),
            scheme,
            d,
        ) == plain,
{
    lemma_key_stream_len(secret, plain.len(), scheme, d);
    lemma_xor_bytes_twice(plain, key_stream(secret, plain.len(), scheme, d));
}

/// Opening reports success only where the digest that came with the
/// ciphertext is the digest of what the secret recovers: under any other
/// secret whose digest of its own recovered bytes differs, it fails and
/// leaves the ciphertext as it was.
pub proof fn lemma_open_rejects(
    secret: Seq<u8>,
    cipher: Seq<u8>,
    digest: Option<Seq<u8>>,
    scheme: Scheme,
    d: SecParam,
)
    requires
        digest != Some(digest_of(secret, streamed(secret, cipher, scheme, d), scheme, d)),
    ensures
        !opens(secret, cipher, digest, scheme, d),
        opened(secret, cipher, digest, scheme, d) == cipher,
{
}

// The two keys that a shared secret expands to.
fn derive_keys(secret: &[u8], scheme: Scheme, d: &SecParam) -> (keys: Vec<u8>)
    ensures
        keys@ == sub_keys(secret@, scheme, *d),
        keys@.len() == 2 * KEY_BYTES,
{
    let empty: [u8; 0] = [];
    assert(empty@ =~= Seq::<u8>::empty());
    kmac_xof_bytes(secret, empty.as_slice(), 2 * KEY_BYTES, scheme.derive_label().as_bytes(), d)
}

// Combines the payload with the key stream of its length under the secret.
fn apply_stream(msg: &mut Vec<u8>, keys: &[u8], Ghost(secret): Ghost<Seq<u8>>, scheme: Scheme, d: &SecParam)
    requires
        keys@ == sub_keys(secret, scheme, *d),
        keys@.len() == 2 * KEY_BYTES,
    ensures
        final(msg)@ == streamed(secret, old(msg)@, scheme, *d),
{
    let empty: [u8; 0] = [];
    assert(empty@ =~= Seq::<u8>::empty());
    let ke = slice_subrange(keys, 0, KEY_BYTES);
    let stream = kmac_xof_bytes(ke, empty.as_slice(), msg.len(), scheme.stream_label().as_bytes(), d);
    xor_bytes(msg, stream.as_slice());
}

// The digest of the payload under the authentication key of the secret.
fn digest(msg: &Vec<u8>, keys: &[u8], Ghost(secret): Ghost<Seq<u8>>, scheme: Scheme, d: &SecParam) -> (t: Vec<u8>)
    requires
        keys@ == sub_keys(secret, scheme, *d),
        keys@.len() == 2 * KEY_BYTES,
    ensures
        t@ == digest_of(secret, msg@, scheme, *d),
{
    let ka = slice_subrange(keys, KEY_BYTES, 2 * KEY_BYTES);
    kmac_xof_bytes(ka, msg.as_slice(), KEY_BYTES, scheme.digest_label().as_bytes(), d)
}

/// Seals a payload in place under a shared secret: the payload becomes its
/// ciphertext, and the digest of the plaintext is returned.
pub fn seal(msg: &mut Vec<u8>, secret: &[u8], scheme: Scheme, d: &SecParam) -> (t: Vec<u8>)
    ensures
        t@ == digest_of(secret@, old(msg)@, scheme, *d),
        final(msg)@ == streamed(secret@, old(msg)@, scheme, *d),
{
    let keys = derive_keys(secret, scheme, d);
    let t = digest(msg, keys.as_slice(), Ghost(secret@), scheme, d);
    apply_stream(msg, keys.as_slice(), Ghost(secret@), scheme, d);
    t
}

/// Opens a payload in place under a shared secret. Where the digest given
/// is the digest of the recovered plaintext, the payload becomes that
/// plaintext; where it is not, or none is given, the payload is left as it
/// was.
pub fn open(
    msg: &mut Vec<u8>,
    secret: &[u8],
    expected: &Option<Vec<u8>>,
    scheme: Scheme,
    d: &SecParam,
) -> (ok: bool)
    ensures
        ok == opens(secret@, old(msg)@, crate::bytes_view(*expected), scheme, *d),
        final(msg)@ == opened(secret@, old(msg)@, crate::bytes_view(*expected), scheme, *d),
{
    let keys = derive_keys(secret, scheme, d);
    apply_stream(msg, keys.as_slice(), Ghost(secret@), scheme, d);
    let t = digest(msg, keys.as_slice(), Ghost(secret@), scheme, d);
    let ok = match expected {
        Some(e) => bytes_equal(e.as_slice(), t.as_slice()),
        None => false,
    };
    if !ok {
        proof {
            lemma_key_stream_len(secret@, old(msg)@.len(), scheme, *d);
            lemma_xor_bytes_twice(old(msg)@, key_stream(secret@, old(msg)@.len(), scheme, *d));
        }
        apply_stream(msg, keys.as_slice(), Ghost(secret@), scheme, d);
    }
    ok
}

/// The message after it was sealed under a password and the nonce `z`.
pub open spec fn pw_sealed(m: MessageView, pw: Seq<u8>, d: SecParam, z: Seq<u8>) -> MessageView {
    MessageView {
        msg: streamed(z + pw, m.msg, Scheme::Password, d),
        d: Some(d),
        sym_nonce: Some(z),
        digest: Some(digest_of(z + pw, m.msg, Scheme::Password, d)),
        ..m
    }
}

/// The message after an attempt to open it under a password, where it
/// carries a strength and a nonce.
pub open spec fn pw_opened(m: MessageView, pw: Seq<u8>) -> MessageView {
    let d = m.d->Some_0;
    let secret = m.sym_nonce->Some_0 + pw;
    MessageView {
        msg: opened(secret, m.msg, m.digest, Scheme::Password, d),
        op_result: outcome(opens(secret, m.msg, m.digest, Scheme::Password, d)),
        ..m
    }
}

/// Sealing under a password and a nonce and then opening under the same
/// password gives the payload back and records success, whatever the
/// payload, the password, the strength and the nonce.
pub proof fn lemma_pw_round_trip(m: MessageView, pw: Seq<u8>, d: SecParam, z: Seq<u8>)
    ensures
        pw_opened(pw_sealed(m, pw, d, z), pw).msg == m.msg,
        pw_opened(pw_sealed(m, pw, d, z), pw).op_result == Some(Ok::<(), OperationError>(())),
{
    lemma_seal_then_open(z + pw, m.msg, Scheme::Password, d);
}

/// A nonce followed by a secret.
pub fn nonce_then(z: &Vec<u8>, secret: &[u8]) -> (r: Vec<u8>)
    ensures
        r@ == z@ + secret@,
{
    let mut r: Vec<u8> = Vec::new();
    crate::sha3::shake_functions::append(&mut r, z.as_slice());
    crate::sha3::shake_functions::append(&mut r, secret);
    r
}

/// Sealing and opening under a password.
pub trait PwEncryptable {
    fn pw_encrypt(&mut self, pw: &[u8], d: &SecParam) -> Result<(), OperationError>;

    fn pw_decrypt(&mut self, pw: &[u8]) -> Result<(), OperationError>;
}

impl Message {
    /// Seals the payload under a password and the nonce `z`: the payload
    /// becomes its ciphertext, and the message keeps the strength, the nonce
    /// and the digest of the plaintext.
    pub fn pw_encrypt_with(&mut self, pw: &[u8], d: &SecParam, z: Vec<u8>)
        ensures
            final(self)@ == pw_sealed(old(self)@, pw@, *d, z@),
    {
        let secret = nonce_then(&z, pw);
        let t = seal(&mut self.msg, secret.as_slice(), Scheme::Password, d);
        self.d = Some(*d);
        self.digest = Some(t);
        self.sym_nonce = Some(z);
    }
}

impl PwEncryptable for Message {
    /// Seals the payload under a password and a fresh random nonce. It
    /// always succeeds.
    fn pw_encrypt(&mut self, pw: &[u8], d: &SecParam) -> (r: Result<(), OperationError>)
        ensures
            r is Ok,
            exists|z: Seq<u8>|
                z.len() == NONCE_BYTES && final(self)@ == #[trigger] pw_sealed(
                    old(self)@,
                    pw@,
                    *d,
                    z,
                ),
    {
        let z = get_random_bytes(NONCE_BYTES);
        self.pw_encrypt_with(pw, d, z);
        Ok(())
    }

    /// Opens the payload under a password. It fails, and leaves the message
    /// as it was, where the message carries no strength or no nonce.
    /// Otherwise the outcome is recorded in the message: success with the
    /// plaintext in place, or a digest mismatch with the payload as it was.
    fn pw_decrypt(&mut self, pw: &[u8]) -> (r: Result<(), OperationError>)
        ensures
            old(self).d is None ==> r == Err::<(), OperationError>(
                OperationError::SecurityParameterNotSet,
            ) && final(self)@ == old(self)@,
            old(self).d is Some && old(self).sym_nonce is None ==> r == Err::<
                (),
                OperationError,
            >(OperationError::SymNonceNotSet) && final(self)@ == old(self)@,
            old(self).d is Some && old(self).sym_nonce is Some ==> r is Ok && final(self)@
                == pw_opened(old(self)@, pw@),
    {
        let d = match self.d {
            Some(d) => d,
            None => {
                return Err(OperationError::SecurityParameterNotSet);
            },
        };
        let secret = match &self.sym_nonce {
            Some(z) => nonce_then(z, pw),
            None => {
                return Err(OperationError::SymNonceNotSet);
            },
        };
        let ok = open(&mut self.msg, secret.as_slice(), &self.digest, Scheme::Password, &d);
        self.op_result = if ok {
            Some(Ok(()))
        } else {
            Some(Err(OperationError::SHA3DecryptionFailure))
        };
        Ok(())
    }
}

} // verus!
