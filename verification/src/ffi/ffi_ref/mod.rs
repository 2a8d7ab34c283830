use vstd::prelude::*;

pub mod bounds;
pub mod flag;

pub use self::bounds::FfiRefBounds;
pub use self::flag::{FfiRefFlag, FfiRefFlagList};

use super::ffi_box::FfiBox;
use super::ffi_native::bytes::{
    arrange, le_value, lemma_arrange_twice, lemma_le_value_bound, lemma_range_limit_values,
    ByteOrder,
};
use super::ffi_native::data::{
    locate, move_address, spec_locate, spec_read_data, spec_write_data, wrap_address,
};
use super::ffi_native::{NativeConvert, NativeData};
use crate::error::FfiError;
use crate::value::DynamicValue;

verus! {

/// A reference: an address, the window round it, and the flags that say
/// what may be done through it. It owns no memory, and none of the three
/// changes after its creation.
#[derive(Clone, Copy, Debug, PartialEq, Eq)]
pub struct FfiRef {
    pub ptr: usize,
    pub flags: FfiRefFlagList,
    pub boundary: FfiRefBounds,
}

/// The number of bytes that an address takes.
pub open spec fn pointer_width() -> usize {
    (usize::BITS / 8) as usize
}

impl FfiRef {
    pub fn new(ptr: usize, flags: FfiRefFlagList, boundary: FfiRefBounds) -> (made: Self)
        ensures
            made == (FfiRef { ptr, flags, boundary }),
    {
        FfiRef { ptr, flags, boundary }
    }

    /// The reference that `offset` leads to. The reference must be
    /// offsetable, and the move must stay in its window, if that is known;
    /// where it is not known, every move is taken.
    pub open spec fn spec_offset(&self, offset: isize) -> Result<FfiRef, FfiError> {
        if !self.flags.spec_has(FfiRefFlag::Offsetable) {
            Err(FfiError::CapabilityError { missing: FfiRefFlag::Offsetable })
        } else if !self.boundary.spec_check_boundary(offset as int) {
            Err(FfiError::BoundsError { offset, size: 0 })
        } else {
            Ok(
                FfiRef {
                    ptr: wrap_address(self.ptr + offset),
                    flags: self.flags,
                    boundary: self.boundary.spec_offset(offset as int),
                },
            )
        }
    }

    pub fn offset(&self, offset: isize) -> (moved: Result<FfiRef, FfiError>)
        ensures
            moved == self.spec_offset(offset),
            moved matches Ok(at) ==> at.boundary.spec_is_unsized()
                == self.boundary.spec_is_unsized() && (!at.boundary.spec_is_unsized()
                ==> at.boundary.spec_above() == self.boundary.spec_above() + offset
                && at.boundary.spec_below() == self.boundary.spec_below() - offset),
    {
        if !self.flags.is_offsetable() {
            return Err(FfiError::CapabilityError { missing: FfiRefFlag::Offsetable });
        }
        if !self.boundary.check_boundary(offset) {
            return Err(FfiError::BoundsError { offset, size: 0 });
        }
        Ok(FfiRef::new(move_address(self.ptr, offset), self.flags, self.boundary.offset(offset)))
    }

    /// The reference that the address stored at this one leads to. The
    /// reference must be dereferenceable, and the bytes of an address, which
    /// stand in `order`, must lie in its window and in the memory. Nothing
    /// is known of the window of what comes out.
    pub open spec fn spec_deref(&self, memory: Seq<u8>, order: ByteOrder) -> Result<
        FfiRef,
        FfiError,
    > {
        if !self.flags.spec_has(FfiRefFlag::Dereferenceable) {
            Err(FfiError::CapabilityError { missing: FfiRefFlag::Dereferenceable })
        } else {
            match spec_locate(self, 0, pointer_width(), memory.len()) {
                None => Err(FfiError::BoundsError { offset: 0, size: pointer_width() }),
                Some(at) => Ok(
                    FfiRef {
                        ptr: le_value(
                            arrange(memory.subrange(at as int, at + pointer_width()), order),
                        ) as usize,
                        flags: self.flags,
                        boundary: FfiRefBounds::spec_unsized(),
                    },
                ),
            }
        }
    }

    pub fn deref(&self, target: &FfiBox, order: ByteOrder) -> (pointee: Result<FfiRef, FfiError>)
        ensures
            pointee == self.spec_deref(target@, order),
            pointee matches Ok(found) ==> found.boundary.spec_is_unsized(),
    {
        if !self.flags.is_dereferenceable() {
            return Err(FfiError::CapabilityError { missing: FfiRefFlag::Dereferenceable });
        }
        let width: usize = (usize::BITS / 8) as usize;
        match locate(self, 0, width, target.size()) {
            None => Err(FfiError::BoundsError { offset: 0, size: width }),
            Some(at) => {
                let address = target.number_at(at, width, order);
                proof {
                    lemma_arrange_twice(target@.subrange(at as int, at + width), order);
                    lemma_le_value_bound(arrange(target@.subrange(at as int, at + width), order));
                    lemma_range_limit_values();
                }
                Ok(FfiRef::new(address as usize, self.flags, FfiRefBounds::unsized_bounds()))
            },
        }
    }

    /// Reads one value of `ctype` from the box, `offset` bytes from the
    /// address of the reference.
    pub fn read<C: NativeConvert>(&self, target: &FfiBox, ctype: &C, offset: isize) -> (value:
        Result<DynamicValue, FfiError>)
        ensures
            value == spec_read_data(self, target@, ctype, offset),
    {
        target.read_through(self, ctype, offset)
    }

    /// Writes one value of `ctype` into the box, `offset` bytes from the
    /// address of the reference. A failure leaves the box as it was.
    pub fn write<C: NativeConvert>(
        &self,
        target: &mut FfiBox,
        ctype: &C,
        offset: isize,
        value: &DynamicValue,
    ) -> (done: Result<(), FfiError>)
        ensures
            final(target).spec_is_leaked() == old(target).spec_is_leaked(),
            final(target)@.len() == old(target)@.len(),
            match spec_write_data(self, old(target)@, ctype, offset, *value) {
                Ok(after) => done is Ok && final(target)@ == after,
                Err(e) => done == Err::<(), FfiError>(e) && final(target)@ == old(target)@,
            },
    {
        target.write_through(self, ctype, offset, value)
    }

    /// Two moves in a row, each of them taken, lead where one move by their
    /// sum leads, and that move is taken too.
    pub proof fn lemma_offset_composes(self, first: isize, second: isize)
        requires
            self.boundary.wf(),
            isize::MIN <= first + second <= isize::MAX,
            self.spec_offset(first) is Ok,
            self.spec_offset(first)->Ok_0.spec_offset(second) is Ok,
        ensures
            self.spec_offset((first + second) as isize) == self.spec_offset(
                first,
            )->Ok_0.spec_offset(second),
    {
        self.boundary.lemma_offset_composes(first as int, second as int);
    }
}

impl NativeData for FfiRef {
    open spec fn base(&self) -> usize {
        self.ptr
    }

    open spec fn in_window(&self, offset: int, size: nat) -> bool {
        self.boundary.spec_check_sized(offset, size)
    }

    open spec fn readable(&self) -> bool {
        self.flags.spec_has(FfiRefFlag::Readable)
    }

    open spec fn writable(&self) -> bool {
        self.flags.spec_has(FfiRefFlag::Writable)
    }

    fn check_boundary(&self, offset: isize, size: usize) -> (inside: bool) {
        self.boundary.check_sized(offset, size)
    }

    fn get_pointer(&self, offset: isize) -> (address: usize) {
        move_address(self.ptr, offset)
    }

    fn is_readable(&self) -> (readable: bool) {
        self.flags.is_readable()
    }

    fn is_writable(&self) -> (writable: bool) {
        self.flags.is_writable()
    }
}

} // verus!
