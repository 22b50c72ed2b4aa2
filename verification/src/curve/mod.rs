pub mod affine;
pub mod constants;
pub mod extended_edwards;
pub mod field;
pub mod four_times;
pub mod laws;
pub mod params;
pub mod scalar;
