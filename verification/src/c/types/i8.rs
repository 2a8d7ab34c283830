use num::cast::AsPrimitive;
use vstd::prelude::*;

use super::super::c_type::{CType, CTypeKind, CTypeSignedness};
use crate::error::{ConversionFailure, FfiError};
use crate::ffi::ffi_native::bytes::{
    int_bytes, int_value, lemma_range_limit_values, lemma_signed_round_trip, lemma_splice_read,
    read_int, splice, write_int,
};
use crate::ffi::ffi_native::NativeConvert;
use crate::value::DynamicValue;

verus! {

/// `num::cast::AsPrimitive::as_` from `i64` to `i8`, which is the `as` cast:
/// it keeps the low eight bits.
#[verifier::external_body]
fn i64_as_i8(t: i64) -> (native: i8)
    ensures
        native == t as i8,
{
    AsPrimitive::<i8>::as_(t)
}

/// `num::cast::AsPrimitive::as_` from `u8` to `i8`, which is the `as` cast:
/// the same eight bits, read with a sign.
#[verifier::external_body]
fn u8_as_i8(t: u8) -> (native: i8)
    ensures
        native == t as i8,
{
    AsPrimitive::<i8>::as_(t)
}

/// The first byte of a text, and zero for the empty text.
pub open spec fn first_byte(text: Seq<u8>) -> u8 {
    if text.len() > 0 {
        text[0]
    } else {
        0
    }
}

/// The 8-bit integer that a dynamic value converts to. An integer keeps its
/// low eight bits. A text gives its first byte as it is, not a number that
/// it may write, and zero where it is empty. No other kind converts.
pub open spec fn i8_from_value(value: DynamicValue) -> Result<i8, FfiError> {
    match value {
        DynamicValue::Integer(t) => Ok(t as i8),
        DynamicValue::Text(t) => Ok(first_byte(t@) as i8),
        _ => Err(FfiError::ConversionError(ConversionFailure::UnsupportedKind(value.spec_kind()))),
    }
}

impl CType<i8> {
    /// What a call signature holds of this type.
    pub fn kind(&self) -> (kind: CTypeKind)
        ensures
            kind == CTypeKind::I8,
    {
        CTypeKind::I8
    }
}

impl CTypeSignedness for CType<i8> {
    open spec fn signedness(&self) -> bool {
        true
    }

    fn get_signedness(&self) -> (signed: bool) {
        true
    }
}

impl NativeConvert for CType<i8> {
    open spec fn width(&self) -> nat {
        1
    }

    open spec fn encode(&self, value: DynamicValue) -> Result<Seq<u8>, FfiError> {
        match i8_from_value(value) {
            Ok(native) => Ok(int_bytes(native as int, 1, self.spec_order())),
            Err(e) => Err(e),
        }
    }

    open spec fn decode(&self, bytes: Seq<u8>) -> DynamicValue {
        DynamicValue::Integer(int_value(bytes, self.spec_order()) as i64)
    }

    fn get_size(&self) -> (size: usize) {
        broadcast use vstd::layout::layout_of_primitives;

        self.size()
    }

    fn luavalue_into(&self, offset: usize, data: &mut Vec<u8>, value: &DynamicValue) -> (done:
        Result<(), FfiError>) {
        let native: i8 = match value {
            DynamicValue::Integer(t) => i64_as_i8(*t),
            DynamicValue::Text(t) => u8_as_i8(
                if t.len() > 0 {
                    t[0]
                } else {
                    0
                },
            ),
            _ => {
                return Err(
                    FfiError::ConversionError(ConversionFailure::UnsupportedKind(value.kind())),
                );
            },
        };
        proof {
            lemma_range_limit_values();
        }
        write_int(data, offset, 1, native as i64, self.order());
        Ok(())
    }

    fn luavalue_from(&self, offset: usize, data: &Vec<u8>) -> (value: Result<
        DynamicValue,
        FfiError,
    >) {
        Ok(DynamicValue::Integer(read_int(data, offset, 1, self.order())))
    }
}

/// An integer in the range of the type, written and read at the same place,
/// comes back as it was.
pub proof fn lemma_i8_round_trip(ctype: CType<i8>, t: i64, memory: Seq<u8>, at: int)
    requires
        -128 <= t <= 127,
        0 <= at,
        at + 1 <= memory.len(),
    ensures
        ctype.encode(DynamicValue::Integer(t)) matches Ok(bytes) && ctype.decode(
            splice(memory, at, bytes).subrange(at, at + ctype.width()),
        ) == DynamicValue::Integer(t),
{
    assert(-128 <= t <= 127 ==> (t as i8) as i64 == t) by (bit_vector);
    lemma_range_limit_values();
    lemma_signed_round_trip(t as int, 1, ctype.spec_order());
    lemma_splice_read(memory, at, int_bytes(t as int, 1, ctype.spec_order()));
}

} // verus!
