use capycrypt::curve::params::{Curve, EdCurves};
use capycrypt::keys::{KeyEncryptable, KeyPair, Signable};
use capycrypt::ops::PwEncryptable;
use capycrypt::sha3::aux_functions::byte_utils::get_random_bytes;
use capycrypt::{Message, SecParam};
use std::time::Instant;

#[test]
pub fn test_sym_enc_512() {
    let pw = get_random_bytes(64);
    let mut msg = Message::new(get_random_bytes(5242880));

    msg.pw_encrypt(&pw.clone(), &SecParam::D512).unwrap();
    msg.pw_decrypt(&pw.clone()).unwrap();

    let res = msg.op_result.unwrap();
    assert!(res.is_ok());
}

#[test]
pub fn test_sym_enc_256() {
    let pw = get_random_bytes(64);
    let mut msg = Message::new(get_random_bytes(5242880));

    msg.pw_encrypt(&pw.clone(), &SecParam::D256).unwrap();
    msg.pw_decrypt(&pw.clone()).unwrap();

    let res = msg.op_result.unwrap();
    assert!(res.is_ok());
}

#[test]
fn test_key_gen_enc_dec_256() {
    //check conversion to and from bytes.
    let c = Curve::new(EdCurves::E448);
    let mut msg = Message::new(get_random_bytes(5242880));
    let key_pair = KeyPair::new(&get_random_bytes(32), "test key".to_string(), &c, &SecParam::D256);

    msg.key_encrypt(&key_pair.pub_key, &SecParam::D256, &c).unwrap();
    msg.key_decrypt(&key_pair.priv_key, &c).unwrap();

    let res = msg.op_result.unwrap();
    assert!(res.is_ok());
}

#[test]
fn test_key_gen_enc_dec_512() {
    //check conversion to and from bytes.
    let c = Curve::new(EdCurves::E448);
    let mut msg = Message::new(get_random_bytes(5242880));
    let key_pair = KeyPair::new(&get_random_bytes(32), "test key".to_string(), &c, &SecParam::D512);

    msg.key_encrypt(&key_pair.pub_key, &SecParam::D512, &c).unwrap();
    msg.key_decrypt(&key_pair.priv_key, &c).unwrap();

    let res = msg.op_result.unwrap();
    assert!(res.is_ok());
}

#[test]
pub fn test_signature_512() {
    let c = Curve::new(EdCurves::E448);
    let mut msg = Message::new(get_random_bytes(5242880));
    let pw = get_random_bytes(64);
    let key_pair = KeyPair::new(&pw, "test key".to_string(), &c, &SecParam::D512);

    msg.sign(&key_pair, &SecParam::D512, &c).unwrap();
    msg.verify(&key_pair.pub_key, &c).unwrap();

    assert!(msg.op_result.unwrap().is_ok());
}

#[test]
fn test_sig_timing_side_channel() {
    let c = Curve::new(EdCurves::E448);
    for i in 0..32 {
        let mut msg = Message::new(get_random_bytes(16));
        let pw = get_random_bytes(2 ^ i);
        let key_pair = KeyPair::new(&pw, "test key".to_string(), &c, &SecParam::D512);

        let now = Instant::now();
        msg.sign(&key_pair, &SecParam::D512, &c).unwrap();
        println!("{} needed {} microseconds", i, now.elapsed().as_micros());
        msg.verify(&key_pair.pub_key, &c).unwrap();
        assert!(msg.op_result.unwrap().is_ok());
    }
}
