pub mod i64;
pub mod i8;
