use capycrypt::kem::kem_encryptable::{is_valid_encapsulation_key, KEMEncryptable, KEMKey};
use capycrypt::sha3::aux_functions::byte_utils::get_random_bytes;
use capycrypt::{Message, OperationError, SecParam};

const KEM_TEXT: &[u8] = b"The quick brown fox jumps over the lazy dog";

fn kem_hex(s: &str) -> Vec<u8> {
    (0..s.len() / 2).map(|i| u8::from_str_radix(&s[2 * i..2 * i + 2], 16).unwrap()).collect()
}

#[test]
fn kem_keys_have_their_sizes() {
    let key = KEMKey::kem_keygen();
    assert_eq!(key.ek.len(), 1184);
    assert_eq!(key.dk.len(), 2400);
    assert!(is_valid_encapsulation_key(&key.ek));
    let other = KEMKey::kem_keygen();
    assert_ne!(key.ek, other.ek);
    assert_ne!(key.dk, other.dk);
    let copy = key.clone();
    assert_eq!(copy.ek, key.ek);
    assert_eq!(copy.rand_bytes, key.rand_bytes);
}

#[test]
fn encapsulation_keys_are_checked() {
    assert!(!is_valid_encapsulation_key(&[]));
    assert!(!is_valid_encapsulation_key(&[0u8; 1183]));
    assert!(!is_valid_encapsulation_key(&[0u8; 1185]));
    assert!(is_valid_encapsulation_key(&[0u8; 1184]));
    // the largest coefficient below the modulus, in the even and in the odd place
    let mut ek = vec![0u8; 1184];
    ek[0] = 0x00;
    ek[1] = 0x0d;
    assert!(is_valid_encapsulation_key(&ek));
    ek[1] = 0x0d;
    ek[0] = 0x01;
    assert!(!is_valid_encapsulation_key(&ek));
    let mut ek = vec![0u8; 1184];
    ek[1] = 0x00;
    ek[2] = 0xd0;
    assert!(is_valid_encapsulation_key(&ek));
    ek[1] = 0x10;
    assert!(!is_valid_encapsulation_key(&ek));
    // only the first polynomial is read
    let mut ek = vec![0u8; 1184];
    ek[384] = 0xff;
    ek[385] = 0xff;
    assert!(is_valid_encapsulation_key(&ek));
    ek[383] = 0xff;
    assert!(!is_valid_encapsulation_key(&ek));
}

#[test]
fn kem_sealing_known_answers() {
    let secret: Vec<u8> = (0u8..32).collect();
    let mut m = Message::new(KEM_TEXT.to_vec());
    m.kem_encrypt_with(&secret, vec![9u8; 1088], &SecParam::D256, vec![7u8; 512]);
    assert_eq!(m.msg, kem_hex(KEM_256_CT));
    assert_eq!(m.digest, Some(kem_hex(KEM_256_DIGEST)));
    assert_eq!(m.d, Some(SecParam::D256));
    assert_eq!(m.kem_ciphertext, Some(vec![9u8; 1088]));
    assert_eq!(m.sym_nonce, Some(vec![7u8; 512]));
    let sealed = m.msg.clone();
    // another secret does not open it
    assert_eq!(m.kem_decrypt_with(&[0u8; 32]), Ok(()));
    assert_eq!(m.op_result, Some(Err(OperationError::SHA3DecryptionFailure)));
    assert_eq!(m.msg, sealed);
    assert_eq!(m.kem_decrypt_with(&secret), Ok(()));
    assert_eq!(m.op_result, Some(Ok(())));
    assert_eq!(m.msg, KEM_TEXT.to_vec());
}

#[test]
fn kem_round_trip() {
    for d in [SecParam::D256, SecParam::D512] {
        let key = KEMKey::kem_keygen();
        let data = get_random_bytes(1000);
        let mut m = Message::new(data.clone());
        m.kem_encrypt(&key, &d).unwrap();
        assert_eq!(m.kem_ciphertext.as_ref().unwrap().len(), 1088);
        assert_eq!(m.sym_nonce.as_ref().unwrap().len(), 512);
        assert_eq!(m.digest.as_ref().unwrap().len(), 64);
        assert_eq!(m.d, Some(d));
        assert_ne!(m.msg, data);
        m.kem_decrypt(&key).unwrap();
        assert_eq!(m.op_result, Some(Ok(())));
        assert_eq!(m.msg, data);
    }
}

#[test]
fn kem_wrong_key_is_reported() {
    let key = KEMKey::kem_keygen();
    let other = KEMKey::kem_keygen();
    let mut m = Message::new(KEM_TEXT.to_vec());
    m.kem_encrypt(&key, &SecParam::D512).unwrap();
    let sealed = m.msg.clone();
    assert_eq!(m.kem_decrypt(&other), Ok(()));
    assert_eq!(m.op_result, Some(Err(OperationError::SHA3DecryptionFailure)));
    assert_eq!(m.msg, sealed);
    m.kem_decrypt(&key).unwrap();
    assert_eq!(m.op_result, Some(Ok(())));
    assert_eq!(m.msg, KEM_TEXT.to_vec());
}

#[test]
fn kem_sealing_refuses_a_bad_key() {
    let mut key = KEMKey::kem_keygen();
    key.ek.pop();
    let mut m = Message::new(KEM_TEXT.to_vec());
    assert_eq!(m.kem_encrypt(&key, &SecParam::D256), Err(OperationError::InvalidKeyLength));
    assert_eq!(m.msg, KEM_TEXT.to_vec());
    assert!(m.d.is_none() && m.kem_ciphertext.is_none() && m.digest.is_none());

    let mut key = KEMKey::kem_keygen();
    key.ek[0] = 0xff;
    key.ek[1] |= 0x0f;
    assert_eq!(m.kem_encrypt(&key, &SecParam::D256), Err(OperationError::InvalidKeyLength));
    assert_eq!(m.msg, KEM_TEXT.to_vec());
}

#[test]
fn kem_opening_errors_in_order() {
    let key = KEMKey::kem_keygen();
    let mut m = Message::new(KEM_TEXT.to_vec());
    assert_eq!(m.kem_decrypt(&key), Err(OperationError::EmptyDecryptionError));

    m.kem_ciphertext = Some(vec![0u8; 959]);
    assert_eq!(m.kem_decrypt(&key), Err(OperationError::InvalidKeyLength));
    m.kem_ciphertext = Some(vec![0u8; 1088]);
    let mut short = key.clone();
    short.dk.truncate(2399);
    assert_eq!(m.kem_decrypt(&short), Err(OperationError::InvalidKeyLength));

    assert_eq!(m.kem_decrypt(&key), Err(OperationError::SecurityParameterNotSet));
    m.d = Some(SecParam::D256);
    assert_eq!(m.kem_decrypt(&key), Err(OperationError::SymNonceNotSet));
    assert_eq!(m.msg, KEM_TEXT.to_vec());
    assert!(m.op_result.is_none());

    assert_eq!(m.kem_decrypt_with(&[0u8; 32]), Err(OperationError::SymNonceNotSet));
    m.d = None;
    assert_eq!(m.kem_decrypt_with(&[0u8; 32]), Err(OperationError::SecurityParameterNotSet));
}

#[test]
fn kem_tampering_is_reported() {
    let key = KEMKey::kem_keygen();
    let mut m = Message::new(KEM_TEXT.to_vec());
    m.kem_encrypt(&key, &SecParam::D256).unwrap();
    m.kem_ciphertext.as_mut().unwrap()[5] ^= 1;
    let sealed = m.msg.clone();
    m.kem_decrypt(&key).unwrap();
    assert_eq!(m.op_result, Some(Err(OperationError::SHA3DecryptionFailure)));
    assert_eq!(m.msg, sealed);
}

const KEM_256_CT: &str =
    "53d2d3e9bcc51cc061516ceddf16ef541b3da3b9569bf1d9908d91f50bc3d45459c39d02e1c631bebacd76";

const KEM_256_DIGEST: &str =
    "a1646e22928d3785e0e7d82e1c76f63f28da22121912292faeb47312c3889a30a1563248b70a0f0fbe0a2913aa690d7af2c513cdd6f55ca04137f773f16f6341";
