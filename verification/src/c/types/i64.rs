use num::cast::AsPrimitive;
use vstd::prelude::*;

use super::super::c_type::{CType, CTypeKind, CTypeSignedness};
use crate::error::{ConversionFailure, FfiError};
use crate::ffi::ffi_native::bytes::{
    int_bytes, int_value, lemma_range_limit_values, lemma_signed_round_trip, lemma_splice_read,
    read_int, splice, write_int,
};
use crate::ffi::ffi_native::NativeConvert;
use crate::value::{parse_i64, spec_parse_i64, DynamicValue};

verus! {

/// `num::cast::AsPrimitive::as_` from `i64` to `i64`, which is the `as`
/// cast: the same integer.
#[verifier::external_body]
fn i64_as_i64(t: i64) -> (native: i64)
    ensures
        native == t,
{
    AsPrimitive::<i64>::as_(t)
}

/// The 64-bit integer that a dynamic value converts to. An integer and a
/// number give what they carry. A text gives the decimal integer that it
/// writes, if it writes one that fits. No other kind converts.
pub open spec fn i64_from_value(value: DynamicValue) -> Result<i64, FfiError> {
    match value {
        DynamicValue::Integer(t) => Ok(t),
        DynamicValue::Number(t) => Ok(t),
        DynamicValue::Text(t) => match spec_parse_i64(t@) {
            Some(parsed) => Ok(parsed),
            None => Err(FfiError::ConversionError(ConversionFailure::Parse)),
        },
        _ => Err(FfiError::ConversionError(ConversionFailure::UnsupportedKind(value.spec_kind()))),
    }
}

impl CTypeSignedness for CType<i64> {
    open spec fn signedness(&self) -> bool {
        true
    }

    fn get_signedness(&self) -> (signed: bool) {
        true
    }
}

impl CType<i64> {
    /// What a call signature holds of this type.
    pub fn kind(&self) -> (kind: CTypeKind)
        ensures
            kind == CTypeKind::I64,
    {
        CTypeKind::I64
    }

    /// Converts `value` and writes its eight bytes into `data` from `ptr`
    /// on. A value that does not convert leaves `data` as it was.
    pub fn luavalue_into_ptr(&self, value: &DynamicValue, data: &mut Vec<u8>, ptr: usize) -> (done:
        Result<(), FfiError>)
        requires
            ptr + 8 <= old(data)@.len(),
        ensures
            i64_from_value(*value) matches Ok(native) ==> done is Ok && final(data)@ == splice(
                old(data)@,
                ptr as int,
                int_bytes(native as int, 8, self.spec_order()),
            ),
            i64_from_value(*value) matches Err(e) ==> done == Err::<(), FfiError>(e)
                && final(data)@ == old(data)@,
    {
        let native: i64 = match value {
            DynamicValue::Integer(t) => i64_as_i64(*t),
            DynamicValue::Number(t) => i64_as_i64(*t),
            DynamicValue::Text(t) => match parse_i64(t) {
                Some(parsed) => parsed,
                None => {
                    return Err(FfiError::ConversionError(ConversionFailure::Parse));
                },
            },
            _ => {
                return Err(
                    FfiError::ConversionError(ConversionFailure::UnsupportedKind(value.kind())),
                );
            },
        };
        proof {
            lemma_range_limit_values();
        }
        write_int(data, ptr, 8, native, self.order());
        Ok(())
    }

    /// Reads the eight bytes of `data` from `ptr` on as an integer.
    pub fn ptr_into_luavalue(&self, data: &Vec<u8>, ptr: usize) -> (value: Result<
        DynamicValue,
        FfiError,
    >)
        requires
            ptr + 8 <= data@.len(),
        ensures
            value == Ok::<DynamicValue, FfiError>(
                DynamicValue::Integer(
                    int_value(data@.subrange(ptr as int, ptr + 8), self.spec_order()) as i64,
                ),
            ),
    {
        Ok(DynamicValue::Integer(read_int(data, ptr, 8, self.order())))
    }
}

impl NativeConvert for CType<i64> {
    open spec fn width(&self) -> nat {
        8
    }

    open spec fn encode(&self, value: DynamicValue) -> Result<Seq<u8>, FfiError> {
        match i64_from_value(value) {
            Ok(native) => Ok(int_bytes(native as int, 8, self.spec_order())),
            Err(e) => Err(e),
        }
    }

    open spec fn decode(&self, bytes: Seq<u8>) -> DynamicValue {
        DynamicValue::Integer(int_value(bytes, self.spec_order()) as i64)
    }

    fn get_size(&self) -> (size: usize) {
        broadcast use vstd::layout::layout_of_primitives;

        self.size()
    }

    fn luavalue_into(&self, offset: usize, data: &mut Vec<u8>, value: &DynamicValue) -> (done:
        Result<(), FfiError>) {
        self.luavalue_into_ptr(value, data, offset)
    }

    fn luavalue_from(&self, offset: usize, data: &Vec<u8>) -> (value: Result<
        DynamicValue,
        FfiError,
    >) {
        self.ptr_into_luavalue(data, offset)
    }
}

/// The descriptor of the 64-bit signed integer, under its name.
pub fn create_type() -> (named: (&'static str, CType<i64>))
    ensures
        named.0@ == "i64"@,
        named.1.spec_name() == Some("i64"),
{
    ("i64", CType::<i64>::new(Some("i64")))
}

/// An integer, written and read at the same place, comes back as it was.
pub proof fn lemma_i64_round_trip(ctype: CType<i64>, t: i64, memory: Seq<u8>, at: int)
    requires
        0 <= at,
        at + 8 <= memory.len(),
    ensures
        ctype.encode(DynamicValue::Integer(t)) matches Ok(bytes) && ctype.decode(
            splice(memory, at, bytes).subrange(at, at + ctype.width()),
        ) == DynamicValue::Integer(t),
{
    lemma_range_limit_values();
    lemma_signed_round_trip(t as int, 8, ctype.spec_order());
    lemma_splice_read(memory, at, int_bytes(t as int, 8, ctype.spec_order()));
}

} // verus!
