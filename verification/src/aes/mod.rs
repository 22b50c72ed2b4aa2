pub mod aes_constants;
pub mod aes_functions;
pub mod aes_laws;
