pub mod kem_encryptable;
