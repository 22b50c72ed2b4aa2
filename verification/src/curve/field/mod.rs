pub mod bits;
pub mod field_element;
pub mod limbs;
pub mod modulus;
