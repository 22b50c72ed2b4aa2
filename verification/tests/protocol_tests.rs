use capycrypt::curve::affine::AffinePoint;
use capycrypt::curve::extended_edwards::ExtendedPoint;
use capycrypt::curve::field::field_element::FieldElement;
use capycrypt::curve::params::{Curve, EdCurves};
use capycrypt::curve::scalar::Scalar;
use capycrypt::keys::{KeyEncryptable, KeyPair, Signable};
use capycrypt::ops::{open, seal, PwEncryptable, Scheme};
use capycrypt::sha3::aux_functions::byte_utils::{bytes_equal, get_random_bytes, xor_bytes};
use capycrypt::{Message, OperationError, SecParam, Signature};

const TEXT: &[u8] = b"The quick brown fox jumps over the lazy dog";

fn proto_hex(s: &str) -> Vec<u8> {
    (0..s.len() / 2).map(|i| u8::from_str_radix(&s[2 * i..2 * i + 2], 16).unwrap()).collect()
}

#[test]
fn fresh_message_carries_nothing() {
    let m = Message::new(TEXT.to_vec());
    assert_eq!(m.msg, TEXT.to_vec());
    assert!(m.d.is_none() && m.sym_nonce.is_none() && m.asym_nonce.is_none());
    assert!(m.sig.is_none() && m.kem_ciphertext.is_none());
    assert!(m.digest.is_none() && m.op_result.is_none());
}

#[test]
fn byte_utilities() {
    assert_eq!(get_random_bytes(0).len(), 0);
    assert_eq!(get_random_bytes(512).len(), 512);
    assert_ne!(get_random_bytes(64), get_random_bytes(64));
    let mut a = vec![0xffu8, 0x0f, 0xf0];
    xor_bytes(&mut a, &[0x0f, 0x0f]);
    assert_eq!(a, vec![0xf0, 0x00, 0xf0]);
    let mut b = vec![1u8];
    xor_bytes(&mut b, &[3, 4, 5]);
    assert_eq!(b, vec![2]);
    assert!(bytes_equal(b"", b""));
    assert!(bytes_equal(b"abc", b"abc"));
    assert!(!bytes_equal(b"abc", b"abd"));
    assert!(!bytes_equal(b"abc", b"ab"));
    assert!(!bytes_equal(b"bbc", b"abc"));
}

#[test]
fn password_sealing_known_answers() {
    let mut m = Message::new(TEXT.to_vec());
    m.pw_encrypt_with(b"correct horse", &SecParam::D256, vec![7u8; 512]);
    assert_eq!(m.msg, proto_hex(PW_256_CT));
    assert_eq!(m.digest, Some(proto_hex(PW_256_DIGEST)));
    assert_eq!(m.d, Some(SecParam::D256));
    assert_eq!(m.sym_nonce, Some(vec![7u8; 512]));
    assert!(m.op_result.is_none());

    let mut m = Message::new(TEXT.to_vec());
    m.pw_encrypt_with(b"correct horse", &SecParam::D512, vec![7u8; 512]);
    assert_eq!(m.msg, proto_hex(PW_512_CT));
    assert_eq!(m.digest, Some(proto_hex(PW_512_DIGEST)));

    m.pw_decrypt(b"correct horse").unwrap();
    assert_eq!(m.op_result, Some(Ok(())));
    assert_eq!(m.msg, TEXT.to_vec());
}

#[test]
fn shared_routine_seals_and_opens() {
    for scheme in [Scheme::Password, Scheme::KeyPair, Scheme::Kem] {
        for d in [SecParam::D256, SecParam::D512] {
            let mut data = TEXT.to_vec();
            let t = seal(&mut data, b"secret", scheme, &d);
            assert_eq!(t.len(), 64);
            assert_ne!(data, TEXT.to_vec());
            let sealed = data.clone();
            // a wrong secret, a wrong digest and no digest leave the payload as it was
            assert!(!open(&mut data, b"Secret", &Some(t.clone()), scheme, &d));
            assert_eq!(data, sealed);
            let mut bad = t.clone();
            bad[0] ^= 1;
            assert!(!open(&mut data, b"secret", &Some(bad), scheme, &d));
            assert_eq!(data, sealed);
            assert!(!open(&mut data, b"secret", &None, scheme, &d));
            assert_eq!(data, sealed);
            assert!(open(&mut data, b"secret", &Some(t), scheme, &d));
            assert_eq!(data, TEXT.to_vec());
        }
    }
    // the three uses do not share their streams
    let mut a = TEXT.to_vec();
    let mut b = TEXT.to_vec();
    seal(&mut a, b"secret", Scheme::Password, &SecParam::D256);
    seal(&mut b, b"secret", Scheme::Kem, &SecParam::D256);
    assert_ne!(a, b);
    assert_eq!(Scheme::Password.derive_label(), "S");
    assert_eq!(Scheme::Password.stream_label(), "SKE");
    assert_eq!(Scheme::Password.digest_label(), "SKA");
    assert_eq!(Scheme::KeyPair.derive_label(), "PK");
    assert_eq!(Scheme::KeyPair.stream_label(), "PKE");
    assert_eq!(Scheme::KeyPair.digest_label(), "PKA");
    assert_eq!(Scheme::Kem.derive_label(), "S");
    assert_eq!(Scheme::Kem.stream_label(), "KEMKE");
    assert_eq!(Scheme::Kem.digest_label(), "KEMKA");
}

#[test]
fn password_round_trip_small_and_empty() {
    for d in [SecParam::D256, SecParam::D512] {
        for len in [0usize, 1, 71, 72, 73, 135, 136, 137, 1000] {
            let data = get_random_bytes(len);
            let mut m = Message::new(data.clone());
            m.pw_encrypt(b"pw", &d).unwrap();
            assert_eq!(m.sym_nonce.as_ref().unwrap().len(), 512);
            assert_eq!(m.digest.as_ref().unwrap().len(), 64);
            if len >= 16 {
                assert_ne!(m.msg, data);
            }
            m.pw_decrypt(b"pw").unwrap();
            assert_eq!(m.op_result, Some(Ok(())));
            assert_eq!(m.msg, data);
        }
    }
}

#[test]
fn password_encryptions_differ_by_their_nonce() {
    let mut a = Message::new(TEXT.to_vec());
    let mut b = Message::new(TEXT.to_vec());
    a.pw_encrypt(b"pw", &SecParam::D256).unwrap();
    b.pw_encrypt(b"pw", &SecParam::D256).unwrap();
    assert_ne!(a.sym_nonce, b.sym_nonce);
    assert_ne!(a.msg, b.msg);
}

#[test]
fn wrong_password_is_reported_and_leaves_the_ciphertext() {
    let mut m = Message::new(TEXT.to_vec());
    m.pw_encrypt(b"right", &SecParam::D512).unwrap();
    let sealed = m.msg.clone();
    assert_eq!(m.pw_decrypt(b"wrong"), Ok(()));
    assert_eq!(m.op_result, Some(Err(OperationError::SHA3DecryptionFailure)));
    assert_eq!(m.msg, sealed);
    // the right password still opens it
    m.pw_decrypt(b"right").unwrap();
    assert_eq!(m.op_result, Some(Ok(())));
    assert_eq!(m.msg, TEXT.to_vec());
}

#[test]
fn tampering_is_reported() {
    let mut m = Message::new(TEXT.to_vec());
    m.pw_encrypt(b"pw", &SecParam::D256).unwrap();
    m.msg[3] ^= 0x40;
    let tampered = m.msg.clone();
    m.pw_decrypt(b"pw").unwrap();
    assert_eq!(m.op_result, Some(Err(OperationError::SHA3DecryptionFailure)));
    assert_eq!(m.msg, tampered);

    let mut m = Message::new(TEXT.to_vec());
    m.pw_encrypt(b"pw", &SecParam::D256).unwrap();
    m.digest = None;
    m.pw_decrypt(b"pw").unwrap();
    assert_eq!(m.op_result, Some(Err(OperationError::SHA3DecryptionFailure)));
}

#[test]
fn password_opening_needs_strength_and_nonce() {
    let mut m = Message::new(TEXT.to_vec());
    assert_eq!(m.pw_decrypt(b"pw"), Err(OperationError::SecurityParameterNotSet));
    assert_eq!(m.msg, TEXT.to_vec());
    assert!(m.op_result.is_none());
    m.d = Some(SecParam::D256);
    assert_eq!(m.pw_decrypt(b"pw"), Err(OperationError::SymNonceNotSet));
    assert_eq!(m.msg, TEXT.to_vec());
    assert!(m.op_result.is_none());
}

#[test]
fn key_pairs_are_reproducible() {
    for (id, d, s, vx, vy) in [
        (EdCurves::E448, SecParam::D256, E448_D256_S, E448_D256_VX, E448_D256_VY),
        (EdCurves::E448, SecParam::D512, E448_D512_S, E448_D512_VX, E448_D512_VY),
        (EdCurves::E521, SecParam::D256, E521_D256_S, E521_D256_VX, E521_D256_VY),
        (EdCurves::E521, SecParam::D512, E521_D512_S, E521_D512_VX, E521_D512_VY),
    ] {
        let c = Curve::new(id);
        let k = KeyPair::new(b"test seed", "test key".to_string(), &c, &d);
        assert_eq!(k.owner, "test key");
        assert_eq!(k.d, d);
        assert_eq!(k.curve, id);
        assert_eq!(k.priv_key.to_be_bytes(), proto_hex(s));
        let v = k.pub_key.to_affine(&c);
        assert_eq!(v.x.to_be_bytes(), proto_hex(vx));
        assert_eq!(v.y.to_be_bytes(), proto_hex(vy));
        let again = KeyPair::new(b"test seed", "other".to_string(), &c, &d);
        assert!(again.priv_key.equals(&k.priv_key));
        assert!(again.pub_key.equals(&k.pub_key, &c));
        let other = KeyPair::new(b"test seed.", "test key".to_string(), &c, &d);
        assert!(!other.priv_key.equals(&k.priv_key));
        assert!(!other.pub_key.equals(&k.pub_key, &c));
    }
}

#[test]
fn key_sealing_known_answers() {
    for (id, ct, digest, zx, zy) in [
        (EdCurves::E448, E448_KEY_CT, E448_KEY_DIGEST, E448_KEY_ZX, E448_KEY_ZY),
        (EdCurves::E521, E521_KEY_CT, E521_KEY_DIGEST, E521_KEY_ZX, E521_KEY_ZY),
    ] {
        let c = Curve::new(id);
        let key = KeyPair::new(b"test seed", "test key".to_string(), &c, &SecParam::D512);
        let k = Scalar::from_u64(0x1234567890abcdef, &c);
        let mut m = Message::new(TEXT.to_vec());
        m.key_encrypt_with(&key.pub_key, &SecParam::D512, &k, &c).unwrap();
        assert_eq!(m.msg, proto_hex(ct));
        assert_eq!(m.digest, Some(proto_hex(digest)));
        assert_eq!(m.d, Some(SecParam::D512));
        let z = m.asym_nonce.as_ref().unwrap().to_affine(&c);
        assert_eq!(z.x.to_be_bytes(), proto_hex(zx));
        assert_eq!(z.y.to_be_bytes(), proto_hex(zy));
        m.key_decrypt(&key.priv_key, &c).unwrap();
        assert_eq!(m.op_result, Some(Ok(())));
        assert_eq!(m.msg, TEXT.to_vec());
    }
}

#[test]
fn key_round_trip_on_both_curves_and_strengths() {
    for id in [EdCurves::E448, EdCurves::E521] {
        for d in [SecParam::D256, SecParam::D512] {
            let c = Curve::new(id);
            let key = KeyPair::new(&get_random_bytes(32), "k".to_string(), &c, &d);
            let data = get_random_bytes(300);
            let mut m = Message::new(data.clone());
            m.key_encrypt(&key.pub_key, &d, &c).unwrap();
            assert_ne!(m.msg, data);
            m.key_decrypt(&key.priv_key, &c).unwrap();
            assert_eq!(m.op_result, Some(Ok(())));
            assert_eq!(m.msg, data);
        }
    }
}

#[test]
fn wrong_private_key_is_reported() {
    let c = Curve::new(EdCurves::E448);
    let key = KeyPair::new(b"one", "k".to_string(), &c, &SecParam::D256);
    let other = KeyPair::new(b"two", "k".to_string(), &c, &SecParam::D256);
    let mut m = Message::new(TEXT.to_vec());
    m.key_encrypt(&key.pub_key, &SecParam::D256, &c).unwrap();
    let sealed = m.msg.clone();
    assert_eq!(m.key_decrypt(&other.priv_key, &c), Ok(()));
    assert_eq!(m.op_result, Some(Err(OperationError::SHA3DecryptionFailure)));
    assert_eq!(m.msg, sealed);
}

#[test]
fn key_opening_needs_strength_and_point() {
    let c = Curve::new(EdCurves::E448);
    let key = KeyPair::new(b"one", "k".to_string(), &c, &SecParam::D256);
    let mut m = Message::new(TEXT.to_vec());
    assert_eq!(m.key_decrypt(&key.priv_key, &c), Err(OperationError::SecurityParameterNotSet));
    m.d = Some(SecParam::D256);
    assert_eq!(m.key_decrypt(&key.priv_key, &c), Err(OperationError::SymNonceNotSet));
    assert_eq!(m.msg, TEXT.to_vec());
    assert!(m.op_result.is_none());
}

#[test]
fn a_point_that_cannot_be_normalized_is_refused() {
    let c = Curve::new(EdCurves::E448);
    let n = c.limbs();
    // X Y = Z T holds, but Z is zero
    let broken = ExtendedPoint {
        X: FieldElement::zero(n),
        Y: FieldElement::one(n),
        Z: FieldElement::zero(n),
        T: FieldElement::one(n),
    };
    let k = Scalar::from_u64(1, &c);
    let mut m = Message::new(TEXT.to_vec());
    assert_eq!(
        m.key_encrypt_with(&broken, &SecParam::D256, &k, &c),
        Err(OperationError::InvalidKeyLength)
    );
    assert_eq!(m.msg, TEXT.to_vec());
    assert!(m.d.is_none() && m.asym_nonce.is_none() && m.digest.is_none());

    m.d = Some(SecParam::D256);
    m.asym_nonce = Some(broken.copy());
    assert_eq!(m.key_decrypt(&k, &c), Err(OperationError::InvalidKeyLength));
    assert_eq!(m.msg, TEXT.to_vec());

    let mut m = Message::new(TEXT.to_vec());
    m.d = Some(SecParam::D256);
    // the challenge is one, the response zero: the commitment is the
    // neutral element plus the broken point
    let mut h = vec![0u8; 64];
    h[63] = 1;
    m.sig = Some(Signature { h, z: Scalar::from_u64(0, &c) });
    assert_eq!(m.verify(&broken, &c), Err(OperationError::InvalidKeyLength));
    assert!(m.op_result.is_none());
}

#[test]
fn signature_known_answers() {
    for (id, h, z) in
        [(EdCurves::E448, E448_SIG_H, E448_SIG_Z), (EdCurves::E521, E521_SIG_H, E521_SIG_Z)]
    {
        let c = Curve::new(id);
        let key = KeyPair::new(b"test seed", "test key".to_string(), &c, &SecParam::D512);
        let mut m = Message::new(TEXT.to_vec());
        m.sign(&key, &SecParam::D512, &c).unwrap();
        assert_eq!(m.msg, TEXT.to_vec());
        assert_eq!(m.d, Some(SecParam::D512));
        let sig = m.sig.as_ref().unwrap();
        assert_eq!(sig.h, proto_hex(h));
        assert_eq!(sig.z.to_be_bytes(), proto_hex(z));
        assert!(m.op_result.is_none());
        m.verify(&key.pub_key, &c).unwrap();
        assert_eq!(m.op_result, Some(Ok(())));
        // signing again gives the same signature
        let mut again = Message::new(TEXT.to_vec());
        again.sign(&key, &SecParam::D512, &c).unwrap();
        assert_eq!(again.sig.as_ref().unwrap().h, proto_hex(h));
    }
}

#[test]
fn signature_round_trip_on_both_curves_and_strengths() {
    for id in [EdCurves::E448, EdCurves::E521] {
        for d in [SecParam::D256, SecParam::D512] {
            let c = Curve::new(id);
            let key = KeyPair::new(&get_random_bytes(32), "k".to_string(), &c, &d);
            let mut m = Message::new(get_random_bytes(200));
            m.sign(&key, &d, &c).unwrap();
            m.verify(&key.pub_key, &c).unwrap();
            assert_eq!(m.op_result, Some(Ok(())));
        }
    }
}

#[test]
fn wrong_public_key_and_changed_message_fail_verification() {
    let c = Curve::new(EdCurves::E448);
    let key = KeyPair::new(b"one", "k".to_string(), &c, &SecParam::D512);
    let other = KeyPair::new(b"two", "k".to_string(), &c, &SecParam::D512);
    let mut m = Message::new(TEXT.to_vec());
    m.sign(&key, &SecParam::D512, &c).unwrap();
    assert_eq!(m.verify(&other.pub_key, &c), Ok(()));
    assert_eq!(m.op_result, Some(Err(OperationError::SignatureVerificationFailure)));
    assert_eq!(m.msg, TEXT.to_vec());
    m.verify(&key.pub_key, &c).unwrap();
    assert_eq!(m.op_result, Some(Ok(())));
    m.msg[0] ^= 1;
    m.verify(&key.pub_key, &c).unwrap();
    assert_eq!(m.op_result, Some(Err(OperationError::SignatureVerificationFailure)));
}

#[test]
fn verification_needs_signature_and_strength() {
    let c = Curve::new(EdCurves::E448);
    let key = KeyPair::new(b"one", "k".to_string(), &c, &SecParam::D512);
    let mut m = Message::new(TEXT.to_vec());
    assert_eq!(m.verify(&key.pub_key, &c), Err(OperationError::SignatureNotSet));
    m.sign(&key, &SecParam::D512, &c).unwrap();
    m.d = None;
    assert_eq!(m.verify(&key.pub_key, &c), Err(OperationError::SecurityParameterNotSet));
    assert!(m.op_result.is_none());
    let _ = AffinePoint::identity(&c);
}

const PW_256_CT: &str =
    "6c57f103992a97880b6e12eff99af4ebe764a58ae983c3dfa3589ddb7e2e7d3227dded8705153057c631bf";

const PW_256_DIGEST: &str =
    "15ad347826235ba09b2e3f5b987caab8bc62e9b5d5c21e3a19b3c0921c678f3bb454aa468f3740f0e03088d926827128f04a049ddd2ae86e5d18b3c8fe119193";

const PW_512_CT: &str =
    "947b8ce977a9b23366764fe5c0341d6dc4f027af33e485c145a6af7c8447c6894acf5f6beaf2b5dfea3660";

const PW_512_DIGEST: &str =
    "0acd09174053a5fecf83f600a2fadbee7cc4ff3bbbf297978448a623aef30d760c93e92999f789b1ee86be0983489ab50db61732a7f2c1df5ed30b76b4b7e7f3";

const E448_D256_S: &str =
    "0adadd03443a3fd03d23365088bb9ad213eeb9b628d404f9820f7c804c905c306fe16d0edc42a799e352ff0b5d0c8a67372b861a0d7ef023";

const E448_D256_VX: &str =
    "a42d8b7e7cf15fa36edf68fddb15c4cbfbe504b43204fd24b62c213148e7efc5ad7ae1b4d165cdcee62248654d9bed92876d167608ee129e";

const E448_D256_VY: &str =
    "ae8f1c1d35656cc8278f5cc975447f2857b25bf2af9ec8ec96db9cb3c80389392c71d87e5f66e99d71ceba6a03f4fd44a45c75847b5fc848";

const E448_D512_S: &str =
    "1435c5132bd56a73bad1adc35b101dabd64c1bb89b2c3648845d2b4b27a83899ff5c12c5ec57bcf712a17e8a7e8cfdb8f3cbf054f5dd5dde";

const E448_D512_VX: &str =
    "0b883eb6b554039672c923ec970a8831b63a0712a868c081730cc18136ca588ac10d9a9962c45db345039a8663d9ddfe91ee363530ca083b";

const E448_D512_VY: &str =
    "c330241cc505d0faafeb2b6d8745ce7ec7e3fb5511b2f8dc674497ef8f55628ce46cf5108e6a02b88686829e42881df13138b6bbab4d82f0";

const E521_D256_S: &str =
    "00000015bf0ed3ed015a97b1a2294cd2a7ff85aeaa4db5f45ef72a0ba72468b5d332e1fd5634817fca93cba488325e87dc990aa79f6495395d4cf1464d7c76b81a745714";

const E521_D256_VX: &str =
    "0000010781d615d62610451d990eda2c27ed5378b763c9d19e83dea4b0719f02d441a32c1d76c6d3810c8dac14a20bd7520e91fb7611639f59a9da693c54ac6cd131319d";

const E521_D256_VY: &str =
    "000000f112373091abfbf313d6361b892b7a248fca4b9b7d504cba1db2ff689fd8b8b0b5fc2cea43d37220fb2067eb2b49690ceee5333ebd3d812e675b1053a7590131d9";

const E521_D512_S: &str =
    "000000390d9c75fad5524ad0d5e3ec9865d9d2ef5a254a94b3550c61993186bf920d5a27f234aeb75c1ce748fb39f4c0c05c1046e6c3c07a90b37337adf95913a6a07fa7";

const E521_D512_VX: &str =
    "0000006d3e10a237d651846bc128d5f6036da13e6224f9be7d326818f1eb2f64344dc11124cbfb91ac37c509d79a34262770b72878419ef1a998c0bd1f19f73f00f83a55";

const E521_D512_VY: &str =
    "00000012ac0056b843e5a64a3f627deb28092e43fdacdceb06ca0ed88177b691cbc663e3ab1d951e990a9b4f3a24e23bcc1e5f651dc5c37275897b6417ff36cacdd00e8b";

const E448_KEY_CT: &str =
    "5f091ff85f204bb65dba30ad06a6d6ee7e98042cf3ad2c87503847139360bd630c7adb365364b5983ed8fe";

const E448_KEY_DIGEST: &str =
    "c0eca20b9c9c1ab329cabe1b92a49f94b85de7a943d32584a91b7e267d27dd43b0fd112b282f1cf32cc94fbb48bb5f744672e3f5af8b0251713aac9073769806";

const E448_KEY_ZX: &str =
    "e7c43f0a309fbac48a1256794f4d23a5cf1b0c35d0cd4a072ce08ad2f51f27d82c6100764dc242cb7147d12e1ce645ba7e5dee9442d17a7e";

const E448_KEY_ZY: &str =
    "2bba6a1cd04318b439749cfa3e71aee258e084aa8e34c88542827c051ee88024d20a4de98064ab03ae897585183f9cb449cd719d8b303a7b";

const E448_SIG_H: &str =
    "8cb5854fcde89ff2f5affcdb2c44b41666d5b07e7cae4a8b9f39fc0670545bf781b179b61c01ba82996ea02613850463495f4423a8866aedbaea1d7323879119";

const E448_SIG_Z: &str =
    "27e4f3f807c07d0b4173180571d6f9402092ab1eec2866297d0233f54099f98b83e75bf04296252c73fd677d0cb11b4341f0f7c9ecfbea6c";

const E521_KEY_CT: &str =
    "7f75a0340d062107a1ee54e281311fb93f29b7c8e7e5c1b5838db0c1afe2c02aef2305faec68a9ba0b0eca";

const E521_KEY_DIGEST: &str =
    "cb3436ab749f07617a458c1add483717ae0d4786ab473834db3d7bee28099d5f6d51815d707029c9798de993747444cc62408dd4965cb075ab5a0ffec35cd75d";

const E521_KEY_ZX: &str =
    "000001afc042b227f6931c5801b409c8e4d6365cdfa7199ac07b72c7b08aa9a7e1854c007b6b3602017e2c848bd7bef0042d52c008a10a17ffcdf2b74e53c41603087cfe";

const E521_KEY_ZY: &str =
    "000000acb05cfc2ce095eebd92becbb3bf09cb579ad640c68d586c8055e02785af569aab741486296a387b3652806f63f835a87dd93e1e3458f9563b1a08ee40dd03bfe0";

const E521_SIG_H: &str =
    "49eaad49a1a7dffaf18d23670a42b040f366f84ba0b564f640edf4fde0175332087ea62087c769333b0b15addc6e0db7c5a44c19b6d421d903d891ec50848e67";

const E521_SIG_Z: &str =
    "00000074540c0247dbb0853af837951fed1ab2e1fdee3ee32be67e42861c8027d972c2d5641774c4b91a28f95578ad81003089b1b55a8878309390fbdb0021a0f9278336";
