pub mod aux_functions;
pub mod keccak;
pub mod shake_functions;
pub mod sponge;
