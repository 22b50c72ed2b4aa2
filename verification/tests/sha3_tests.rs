use capycrypt::sha3::keccak::keccak_f;
use capycrypt::sha3::shake_functions::{cshake, kmac_xof, kmac_xof_bytes};
use capycrypt::sha3::sponge::sponge;
use capycrypt::SecParam;

fn sha_hex(s: &str) -> Vec<u8> {
    (0..s.len() / 2).map(|i| u8::from_str_radix(&s[2 * i..2 * i + 2], 16).unwrap()).collect()
}

#[test]
fn keccak_f_of_the_zero_state() {
    let mut state = [0u64; 25];
    keccak_f(&mut state);
    assert_eq!(state[0], 0xf1258f7940e1dde7);
    assert_eq!(state[24], 0xeaf1ff7b5ceca249);
}

#[test]
fn sponge_is_shake256_and_sha3() {
    assert_eq!(sponge(b"abc", 136, 0x1f, 32), sha_hex(SHAKE_ABC));
    assert_eq!(sponge(b"", 136, 0x06, 32), sha_hex(SHA3_256_EMPTY));
    assert_eq!(sponge(&[0x78u8; 71], 72, 0x06, 64), sha_hex(SHA3_512_71));
    assert_eq!(sponge(&[0x78u8; 72], 72, 0x06, 64), sha_hex(SHA3_512_72));
    assert_eq!(sponge(&[0x78u8; 135], 136, 0x1f, 300), sha_hex(SHAKE_135));
    assert_eq!(sponge(&[0x78u8; 136], 136, 0x1f, 0), Vec::<u8>::new());
}

#[test]
fn cshake_256_known_answer() {
    let out = cshake(&[0, 1, 2, 3], 64, b"", b"Email Signature", &SecParam::D256);
    assert_eq!(out, sha_hex(CSHAKE_EMAIL));
    // without a name and a customization it is SHAKE256
    assert_eq!(cshake(b"abc", 32, b"", b"", &SecParam::D256), sha_hex(SHAKE_ABC));
}

#[test]
fn kmac_xof_256_known_answers() {
    let key: Vec<u8> = (0x40u8..0x60).collect();
    let out = kmac_xof(&key, &[0, 1, 2, 3], 512, "My Tagged Application", &SecParam::D256);
    assert_eq!(out.unwrap(), sha_hex(KMAC_4));
    let data: Vec<u8> = (0u8..200).collect();
    let out = kmac_xof(&key, &data, 512, "My Tagged Application", &SecParam::D256);
    assert_eq!(out.unwrap(), sha_hex(KMAC_6));
    let out = kmac_xof(&key, &data, 512, "", &SecParam::D256);
    assert_eq!(out.unwrap(), sha_hex(KMAC_5));
}

#[test]
fn kmac_xof_512_known_answer() {
    let key: Vec<u8> = (0x40u8..0x60).collect();
    let out = kmac_xof(&key, &[0, 1, 2, 3], 512, "My Tagged Application", &SecParam::D512);
    assert_eq!(out.unwrap(), sha_hex(KMAC_512));
}

#[test]
fn kmac_xof_counts_whole_bytes_and_extends() {
    let d = SecParam::D256;
    assert_eq!(kmac_xof(b"k", b"x", 0, "S", &d).unwrap().len(), 0);
    assert_eq!(kmac_xof(b"k", b"x", 7, "S", &d).unwrap().len(), 0);
    assert_eq!(kmac_xof(b"k", b"x", 20, "S", &d).unwrap().len(), 2);
    let long = kmac_xof(b"k", b"x", 8 * 1000, "S", &d).unwrap();
    let short = kmac_xof(b"k", b"x", 8 * 137, "S", &d).unwrap();
    assert_eq!(long.len(), 1000);
    assert_eq!(long[..137].to_vec(), short);
    assert_eq!(kmac_xof_bytes(b"k", b"x", 137, b"S", &d), short);
    // key, data, customization and strength all matter
    assert_ne!(kmac_xof_bytes(b"j", b"x", 32, b"S", &d), kmac_xof_bytes(b"k", b"x", 32, b"S", &d));
    assert_ne!(kmac_xof_bytes(b"k", b"y", 32, b"S", &d), kmac_xof_bytes(b"k", b"x", 32, b"S", &d));
    assert_ne!(kmac_xof_bytes(b"k", b"x", 32, b"T", &d), kmac_xof_bytes(b"k", b"x", 32, b"S", &d));
    assert_ne!(
        kmac_xof_bytes(b"k", b"x", 32, b"S", &SecParam::D512),
        kmac_xof_bytes(b"k", b"x", 32, b"S", &d)
    );
}

#[test]
fn kmac_xof_long_input() {
    let data: Vec<u8> = (0..768).map(|i| (i % 256) as u8).collect();
    assert_eq!(kmac_xof_bytes(b"", &data, 200, b"", &SecParam::D256), sha_hex(KMAC_LONG));
}

#[test]
fn security_parameter_sizes() {
    assert_eq!(SecParam::D256.bits(), 256);
    assert_eq!(SecParam::D512.bits(), 512);
    assert_eq!(SecParam::D256.rate(), 136);
    assert_eq!(SecParam::D512.rate(), 72);
}

const SHAKE_ABC: &str =
    "483366601360a8771c6863080cc4114d8db44530f8f1e1ee4f94ea37e78b5739";

const SHA3_256_EMPTY: &str =
    "a7ffc6f8bf1ed76651c14756a061d662f580ff4de43b49fa82d80a4b80f8434a";

const SHA3_512_71: &str =
    "a7ddbe8f2b733937fab54ac03ebe7ecbe8459df3ed95c0e5a41d32b87d75b6b22d8b981d503b7e7d15dfe36eeab1236c53c1f009570ffd8b7c09b0a743e20402";

const SHA3_512_72: &str =
    "d2a27ee3688f1a0976b3efcd13c762cb34242b63907a9707c1236a7e539851565a66836838aab6b870fa88841229db500da23d647aecc991ef59bfa43f3e0b44";

const SHAKE_135: &str =
    "1afe5445228966d3b51f8e3236681fc56ffb20decbbf505196baec59e9e7e6ca2e07135c11d584cdfb766d9d2f3f5733ccfc267b6f5b7c3b4f791a48c100d6c14ebd9548d43b2529c6c2a3161432742efff3eaeb49427cd91e35378fd51fde779bee8cc74c717cd14b5f67d99e3b447f4c66a640fa8c943beaad5c0912fde4130ece64c4da6012186494bf829b079da0b8477cc69851672a4c3de3dc0c5d2281ec40a1584c80876a37a42a0789a56e7f9766ca62e33cd60700995af7ba48d31c1e266248321eff384363d358d59140299c3d7c718c9d8873af382da0b72ba123e48b9564d6e36b2f59bd9e22fe442c04cc15f803773e8a8360fdc31221eb3a631b70e4303f5697b678c7538b18ff7efbc9c798138175a1a0f8f908efc6fd0d61b246378e8a2f8e57edc944fb";

const CSHAKE_EMAIL: &str =
    "d008828e2b80ac9d2218ffee1d070c48b8e4c87bff32c9699d5b6896eee0edd164020e2be0560858d9c00c037e34a96937c561a74c412bb4c746469527281c8c";

const KMAC_4: &str =
    "1755133f1534752aad0748f2c706fb5c784512cab835cd15676b16c0c6647fa96faa7af634a0bf8ff6df39374fa00fad9a39e322a7c92065a64eb1fb0801eb2b";

const KMAC_5: &str =
    "ff7b171f1e8a2b24683eed37830ee797538ba8dc563f6da1e667391a75edc02ca633079f81ce12a25f45615ec89972031d18337331d24ceb8f8ca8e6a19fd98b";

const KMAC_6: &str =
    "d5be731c954ed7732846bb59dbe3a8e30f83e77a4bff4459f2f1c2b4ecebb8ce67ba01c62e8ab8578d2d499bd1bb276768781190020a306a97de281dcc30305d";

const KMAC_512: &str =
    "3cca41d63d5e7a023a67d9f36ed76f46ea9c75ca88146305bcec49842033e1ec9eb46792598b1e711b0ae6540559c7c239e0b4ed18f790b9d59862383675da7d";

const KMAC_LONG: &str =
    "93fb6854852c4e5c2af5754805372cc10e5a5c3cf48594c828ff5df499fcdeff32aa4592deaf441be136f5e5ac39d7c0c38bafa8f9862aa2f599d84329c078618cdbe1b2c9c46da35ecfe12b7197b4d6789e9051f55f4dc0ea27f60b759b03aa1899fb3a678de0606aae7f88b6af382658751ef8ccb581f669f4a26d24e4bb3e93bc9f2a54da05d5f6f053cd271e429ead9273d9a4935315aa0cfee876884a5b10411045a473047d87a8295b3200f6d9f7ce072f30f8a4f9e312325d24ee22d7930f4461e4315ed6";
