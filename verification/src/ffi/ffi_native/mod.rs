pub mod bytes;
pub mod convert;
pub mod data;

pub use self::convert::NativeConvert;
pub use self::data::NativeData;
