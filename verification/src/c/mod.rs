pub mod c_type;
pub mod types;
