pub mod cr;
pub mod dot;
pub mod emit;
