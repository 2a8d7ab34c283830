use vstd::prelude::*;

use super::bytes::splice;
use crate::error::FfiError;
use crate::value::DynamicValue;

verus! {

/// Conversion between dynamic values and the bytes of one native type.
///
/// Neither method checks a window or a flag: the caller has found the place
/// and made sure that the bytes of one value lie inside `data` from `offset`
/// on.
pub trait NativeConvert {
    /// The number of bytes that a value of the type takes.
    spec fn width(&self) -> nat;

    /// The bytes that stand for a dynamic value, or why it has none.
    spec fn encode(&self, value: DynamicValue) -> Result<Seq<u8>, FfiError>;

    /// The dynamic value that bytes of the type stand for.
    spec fn decode(&self, bytes: Seq<u8>) -> DynamicValue;

    fn get_size(&self) -> (size: usize)
        ensures
            size == self.width(),
    ;

    /// Converts `value` and writes its bytes into `data` from `offset` on.
    /// A value that does not convert leaves `data` as it was.
    fn luavalue_into(&self, offset: usize, data: &mut Vec<u8>, value: &DynamicValue) -> (done:
        Result<(), FfiError>)
        requires
            offset + self.width() <= old(data)@.len(),
        ensures
            self.encode(*value) matches Ok(bytes) ==> done is Ok && final(data)@ == splice(
                old(data)@,
                offset as int,
                bytes,
            ),
            self.encode(*value) matches Err(e) ==> done == Err::<(), FfiError>(e) && final(data)@
                == old(data)@,
    ;

    /// Reads the bytes of one value from `offset` on and converts them.
    fn luavalue_from(&self, offset: usize, data: &Vec<u8>) -> (value: Result<
        DynamicValue,
        FfiError,
    >)
        requires
            offset + self.width() <= data@.len(),
        ensures
            value == Ok::<DynamicValue, FfiError>(
                self.decode(data@.subrange(offset as int, offset + self.width())),
            ),
    ;
}

} // verus!
