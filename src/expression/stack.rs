pub mod drop;
pub mod dup;
pub mod over;
pub mod rot;
pub mod swap;
