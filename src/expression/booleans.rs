pub mod and;
pub mod eq;
pub mod gt;
pub mod lt;
pub mod not;
pub mod or;
