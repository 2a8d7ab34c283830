pub mod bit_mask;
pub mod ffi_association;
pub mod ffi_box;
pub mod ffi_lib;
pub mod ffi_native;
pub mod ffi_ref;
