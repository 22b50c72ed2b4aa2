pub mod aes;
pub mod curve;
pub mod kem;
pub mod keys;
pub mod ops;
pub mod sha3;

use crate::curve::extended_edwards::{ExtendedPoint, PointView};
use crate::curve::scalar::Scalar;
use vstd::prelude::*;

verus! {

/// The strength at which the sponge is run: the capacity is twice the number
/// of bits that the level names.
#[derive(Clone, Copy, Debug, PartialEq, Eq, Structural)]
pub enum SecParam {
    D256,
    D512,
}

impl SecParam {
    /// The number of bits that the level names.
    pub open spec fn spec_bits(&self) -> nat {
        match self {
            SecParam::D256 => 256,
            SecParam::D512 => 512,
        }
    }

    /// The block size of the sponge at this level, in bytes: the 200 bytes of
    /// the state less the capacity.
    pub open spec fn spec_rate(&self) -> nat {
        match self {
            SecParam::D256 => 136,
            SecParam::D512 => 72,
        }
    }

    /// The number of bits that the level names.
    pub fn bits(&self) -> (n: u64)
        ensures
            n == self.spec_bits(),
    {
        match self {
            SecParam::D256 => 256,
            SecParam::D512 => 512,
        }
    }

    /// The block size of the sponge at this level, in bytes.
    pub fn rate(&self) -> (r: usize)
        ensures
            r == self.spec_rate(),
            r == 200 - self.spec_bits() / 4,
    {
        match self {
            SecParam::D256 => 136,
            SecParam::D512 => 72,
        }
    }
}

/// Why an operation gave no result.
#[derive(Clone, Copy, Debug, PartialEq, Eq, Structural)]
pub enum OperationError {
    /// A key, or a ciphertext made for a key, has a length or a content that
    /// no key of the scheme has.
    InvalidKeyLength,
    /// The message does not say at which strength it was made.
    SecurityParameterNotSet,
    /// The message carries no nonce.
    SymNonceNotSet,
    /// The message carries no ciphertext.
    EmptyDecryptionError,
    /// The digest found does not match the digest that the message carries.
    SHA3DecryptionFailure,
    /// The signature does not belong to the message under the given key.
    SignatureVerificationFailure,
    /// The message carries no signature.
    SignatureNotSet,
    /// The requested output is longer than the machine can hold.
    UnsupportedOutputLength,
}

/// What a byte string that may be absent holds.
pub open spec fn bytes_view(o: Option<Vec<u8>>) -> Option<Seq<u8>> {
    match o {
        Some(v) => Some(v@),
        None => None,
    }
}

/// A signature: a challenge and the response to it.
#[derive(Debug)]
pub struct Signature {
    /// The challenge: a digest of the commitment and the message.
    pub h: Vec<u8>,
    /// The response: the nonce less the challenge times the private scalar,
    /// modulo the order of the curve.
    pub z: Scalar,
}

/// The mathematical content of a [`Signature`].
pub struct SignatureView {
    pub h: Seq<u8>,
    pub z: nat,
}

impl View for Signature {
    type V = SignatureView;

    open spec fn view(&self) -> SignatureView {
        SignatureView { h: self.h@, z: self.z@ }
    }
}

/// What a point that may be absent holds.
pub open spec fn point_view(o: Option<ExtendedPoint>) -> Option<PointView> {
    match o {
        Some(v) => Some(v@),
        None => None,
    }
}

/// What a signature that may be absent holds.
pub open spec fn signature_view(o: Option<Signature>) -> Option<SignatureView> {
    match o {
        Some(v) => Some(v@),
        None => None,
    }
}

/// A payload and what the operations on it have left beside it.
pub struct Message {
    /// The payload: plaintext or ciphertext, changed in place.
    pub msg: Vec<u8>,
    /// The strength at which the payload was last sealed or signed.
    pub d: Option<SecParam>,
    /// The nonce under which the payload was sealed.
    pub sym_nonce: Option<Vec<u8>>,
    /// The ephemeral public point, where the payload was sealed for a key
    /// pair.
    pub asym_nonce: Option<ExtendedPoint>,
    /// The signature of the payload.
    pub sig: Option<Signature>,
    /// The encapsulated secret, where the payload was sealed for a KEM key.
    pub kem_ciphertext: Option<Vec<u8>>,
    /// The digest of the plaintext under the authentication key.
    pub digest: Option<Vec<u8>>,
    /// How the last opening or verification ended.
    pub op_result: Option<Result<(), OperationError>>,
}

/// The mathematical content of a [`Message`].
pub struct MessageView {
    pub msg: Seq<u8>,
    pub d: Option<SecParam>,
    pub sym_nonce: Option<Seq<u8>>,
    pub asym_nonce: Option<PointView>,
    pub sig: Option<SignatureView>,
    pub kem_ciphertext: Option<Seq<u8>>,
    pub digest: Option<Seq<u8>>,
    pub op_result: Option<Result<(), OperationError>>,
}

impl View for Message {
    type V = MessageView;

    open spec fn view(&self) -> MessageView {
        MessageView {
            msg: self.msg@,
            d: self.d,
            sym_nonce: bytes_view(self.sym_nonce),
            asym_nonce: point_view(self.asym_nonce),
            sig: signature_view(self.sig),
            kem_ciphertext: bytes_view(self.kem_ciphertext),
            digest: bytes_view(self.digest),
            op_result: self.op_result,
        }
    }
}

impl MessageView {
    /// A fresh message around a payload: nothing beside it is set.
    pub open spec fn fresh(data: Seq<u8>) -> MessageView {
        MessageView {
            msg: data,
            d: None,
            sym_nonce: None,
            asym_nonce: None,
            sig: None,
            kem_ciphertext: None,
            digest: None,
            op_result: None,
        }
    }
}

impl Message {
    /// A fresh message around a payload.
    pub fn new(data: Vec<u8>) -> (m: Message)
        ensures
            m@ == MessageView::fresh(data@),
    {
        Message {
            msg: data,
            d: None,
            sym_nonce: None,
            asym_nonce: None,
            sig: None,
            kem_ciphertext: None,
            digest: None,
            op_result: None,
        }
    }
}

} // verus!
