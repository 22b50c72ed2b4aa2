use capycrypt::aes::aes_functions::{apply_pcks7_padding, remove_pcks7_padding, xor_blocks, AES};

fn aes_hex(s: &str) -> Vec<u8> {
    (0..s.len() / 2).map(|i| u8::from_str_radix(&s[2 * i..2 * i + 2], 16).unwrap()).collect()
}

fn aes_check(key: &str, plain: &str, cipher: &str) {
    let aes = AES::new(&aes_hex(key));
    let mut block = aes_hex(plain);
    AES::encrypt_block(&mut block, 0, &aes.round_key);
    assert_eq!(block, aes_hex(cipher));
    AES::decrypt_block(&mut block, 0, &aes.round_key);
    assert_eq!(block, aes_hex(plain));
}

#[test]
fn aes_128_known_block() {
    aes_check(
        "000102030405060708090a0b0c0d0e0f",
        "00112233445566778899aabbccddeeff",
        "69c4e0d86a7b0430d8cdb78070b4c55a",
    );
}

#[test]
fn aes_192_known_block() {
    aes_check(
        "000102030405060708090a0b0c0d0e0f1011121314151617",
        "00112233445566778899aabbccddeeff",
        "dda97ca4864cdfe06eaf70a0ec0d7191",
    );
}

#[test]
fn aes_256_known_block() {
    aes_check(
        "000102030405060708090a0b0c0d0e0f101112131415161718191a1b1c1d1e1f",
        "00112233445566778899aabbccddeeff",
        "8ea2b7ca516745bfeafc49904b496089",
    );
}

#[test]
fn aes_128_second_known_block() {
    aes_check(
        "2b7e151628aed2a6abf7158809cf4f3c",
        "3243f6a8885a308d313198a2e0370734",
        "3925841d02dc09fbdc118597196a0b32",
    );
}

#[test]
fn aes_key_schedule_sizes_and_words() {
    let aes = AES::new(&aes_hex("2b7e151628aed2a6abf7158809cf4f3c"));
    assert_eq!(aes.n_w, 4);
    assert_eq!(aes.n_r, 10);
    assert_eq!(aes.round_key.len(), 176);
    assert_eq!(aes.round_key[..16].to_vec(), aes_hex("2b7e151628aed2a6abf7158809cf4f3c"));
    assert_eq!(aes.round_key[16..20].to_vec(), aes_hex("a0fafe17"));
    assert_eq!(aes.round_key[160..].to_vec(), aes_hex("d014f9a8c9ee2589e13f0cc8b6630ca6"));
    let aes = AES::new(&aes_hex("8e73b0f7da0e6452c810f32b809079e562f8ead2522c6b7b"));
    assert_eq!((aes.n_w, aes.n_r, aes.round_key.len()), (6, 12, 208));
    assert_eq!(aes.round_key[24..28].to_vec(), aes_hex("fe0c91f7"));
    assert_eq!(aes.round_key[204..].to_vec(), aes_hex("01002202"));
    let aes = AES::new(&aes_hex(
        "603deb1015ca71be2b73aef0857d77811f352c073b6108d72d9810a30914dff4",
    ));
    assert_eq!((aes.n_w, aes.n_r, aes.round_key.len()), (8, 14, 240));
    assert_eq!(aes.round_key[32..36].to_vec(), aes_hex("9ba35411"));
    assert_eq!(aes.round_key[236..].to_vec(), aes_hex("706c631e"));
}

#[test]
fn aes_block_in_the_middle_leaves_the_rest() {
    let aes = AES::new(&aes_hex("000102030405060708090a0b0c0d0e0f"));
    let mut data = vec![0xa5u8; 48];
    data[16..32].copy_from_slice(&aes_hex("00112233445566778899aabbccddeeff"));
    AES::encrypt_block(&mut data, 16, &aes.round_key);
    assert_eq!(data[..16].to_vec(), vec![0xa5u8; 16]);
    assert_eq!(data[16..32].to_vec(), aes_hex("69c4e0d86a7b0430d8cdb78070b4c55a"));
    assert_eq!(data[32..].to_vec(), vec![0xa5u8; 16]);
    AES::decrypt_block(&mut data, 16, &aes.round_key);
    assert_eq!(data[16..32].to_vec(), aes_hex("00112233445566778899aabbccddeeff"));
}

#[test]
fn aes_decrypt_undoes_encrypt_for_every_key_size() {
    for len in [16usize, 24, 32] {
        let key: Vec<u8> = (0..len).map(|i| (i * 7 + 3) as u8).collect();
        let aes = AES::new(&key);
        let plain: Vec<u8> = (0..32).map(|i| (i * 13 + 1) as u8).collect();
        let mut data = plain.clone();
        AES::encrypt_block(&mut data, 0, &aes.round_key);
        AES::encrypt_block(&mut data, 16, &aes.round_key);
        assert_ne!(data, plain);
        AES::decrypt_block(&mut data, 16, &aes.round_key);
        AES::decrypt_block(&mut data, 0, &aes.round_key);
        assert_eq!(data, plain);
    }
}

#[test]
fn padding_fills_the_last_block() {
    let mut empty: Vec<u8> = vec![];
    apply_pcks7_padding(&mut empty);
    assert_eq!(empty, vec![16u8; 16]);

    let mut five = vec![1u8, 2, 3, 4, 5];
    apply_pcks7_padding(&mut five);
    assert_eq!(five, vec![1, 2, 3, 4, 5, 11, 11, 11, 11, 11, 11, 11, 11, 11, 11, 11]);

    let mut full = vec![9u8; 16];
    apply_pcks7_padding(&mut full);
    assert_eq!(full.len(), 32);
    assert_eq!(full[16..].to_vec(), vec![16u8; 16]);

    let mut fifteen = vec![9u8; 15];
    apply_pcks7_padding(&mut fifteen);
    assert_eq!(fifteen.len(), 16);
    assert_eq!(fifteen[15], 1);
}

#[test]
fn padding_is_removed_by_its_last_byte() {
    for len in [0usize, 1, 5, 15, 16, 17, 31, 32] {
        let data: Vec<u8> = (0..len).map(|i| i as u8).collect();
        let mut padded = data.clone();
        apply_pcks7_padding(&mut padded);
        assert_eq!(padded.len() % 16, 0);
        remove_pcks7_padding(&mut padded);
        assert_eq!(padded, data);
    }
    let mut raw = vec![7u8, 7, 7, 2];
    remove_pcks7_padding(&mut raw);
    assert_eq!(raw, vec![7, 7]);
}

#[test]
fn xor_blocks_reaches_as_far_as_the_shorter() {
    let mut a = vec![0xffu8, 0x0f, 0xf0, 0x55];
    xor_blocks(&mut a, &[0x0f, 0x0f]);
    assert_eq!(a, vec![0xf0, 0x00, 0xf0, 0x55]);

    let mut b = vec![0x01u8, 0x02];
    xor_blocks(&mut b, &[0xff, 0xff, 0xff, 0xff]);
    assert_eq!(b, vec![0xfe, 0xfd]);

    let mut c = vec![1u8, 2, 3];
    xor_blocks(&mut c, &[]);
    assert_eq!(c, vec![1, 2, 3]);
}
