//! A foreign-function marshaling layer: native type descriptors, owned
//! memory boxes, capability-gated references into them, the registry that
//! keeps an owner alive for its references, and call signatures.

pub mod c;
pub mod cfn;
pub mod error;
pub mod ffi;
pub mod value;
