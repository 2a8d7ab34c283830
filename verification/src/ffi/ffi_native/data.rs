use vstd::prelude::*;

use super::bytes::splice;
use super::convert::NativeConvert;
use crate::error::FfiError;
use crate::ffi::ffi_ref::bounds::magnitude;
use crate::ffi::ffi_ref::flag::FfiRefFlag;
use crate::value::DynamicValue;

verus! {

/// An address that has left the range of addresses at one end comes back
/// in at the other.
pub open spec fn wrap_address(address: int) -> usize {
    if address < 0 {
        (address + usize::MAX + 1) as usize
    } else if address > usize::MAX {
        (address - usize::MAX - 1) as usize
    } else {
        address as usize
    }
}

/// The address `offset` bytes from `ptr`.
pub fn move_address(ptr: usize, offset: isize) -> (moved: usize)
    ensures
        moved == wrap_address(ptr + offset),
{
    let size = magnitude(offset);
    if offset >= 0 {
        if size <= usize::MAX - ptr {
            ptr + size
        } else {
            size - (usize::MAX - ptr) - 1
        }
    } else {
        if size <= ptr {
            ptr - size
        } else {
            usize::MAX - (size - ptr) + 1
        }
    }
}

/// What a box and a reference have in common: a base address, a window
/// round it, and what may be done with the bytes in it.
pub trait NativeData {
    /// The address that offset zero stands for.
    spec fn base(&self) -> usize;

    /// Whether `size` bytes from `offset` on lie in the window.
    spec fn in_window(&self, offset: int, size: nat) -> bool;

    spec fn readable(&self) -> bool;

    spec fn writable(&self) -> bool;

    fn check_boundary(&self, offset: isize, size: usize) -> (inside: bool)
        ensures
            inside == self.in_window(offset as int, size as nat),
    ;

    /// The address `offset` bytes from the base. It checks nothing: ask
    /// `check_boundary` first.
    fn get_pointer(&self, offset: isize) -> (address: usize)
        ensures
            address == wrap_address(self.base() + offset),
    ;

    fn is_readable(&self) -> (readable: bool)
        ensures
            readable == self.readable(),
    ;

    fn is_writable(&self) -> (writable: bool)
        ensures
            writable == self.writable(),
    ;
}

/// Where in a memory of `memory_len` bytes the `size` bytes are that the
/// handle shows at `offset`: none, unless they lie in the handle's window and
/// in the memory.
pub open spec fn spec_locate<D: NativeData>(
    handle: &D,
    offset: isize,
    size: usize,
    memory_len: nat,
) -> Option<usize> {
    let start = handle.base() + offset;
    if handle.in_window(offset as int, size as nat) && 0 <= start && start + size <= memory_len {
        Some(start as usize)
    } else {
        None
    }
}

pub fn locate<D: NativeData>(handle: &D, offset: isize, size: usize, memory_len: usize) -> (at:
    Option<usize>)
    ensures
        at == spec_locate(handle, offset, size, memory_len as nat),
{
    if !handle.check_boundary(offset, size) {
        return None;
    }
    let base = handle.get_pointer(0);
    let shift = magnitude(offset);
    if offset < 0 {
        if shift > base {
            return None;
        }
        let start = base - shift;
        if start <= memory_len && size <= memory_len - start {
            Some(start)
        } else {
            None
        }
    } else {
        if shift > memory_len || base > memory_len - shift {
            return None;
        }
        let start = base + shift;
        if size <= memory_len - start {
            Some(start)
        } else {
            None
        }
    }
}

/// What is done with bytes behind a handle.
#[derive(Clone, Copy, Debug, PartialEq, Eq, Structural)]
pub enum Access {
    Read,
    Write,
}

impl Access {
    /// The flag that a reference needs for this.
    pub open spec fn spec_flag(&self) -> FfiRefFlag {
        match self {
            Access::Read => FfiRefFlag::Readable,
            Access::Write => FfiRefFlag::Writable,
        }
    }

    #[verifier::when_used_as_spec(spec_flag)]
    pub fn flag(&self) -> (flag: FfiRefFlag)
        ensures
            flag == self.spec_flag(),
    {
        match self {
            Access::Read => FfiRefFlag::Readable,
            Access::Write => FfiRefFlag::Writable,
        }
    }
}

/// Whether the handle allows the access.
pub open spec fn allows<D: NativeData>(handle: &D, access: Access) -> bool {
    match access {
        Access::Read => handle.readable(),
        Access::Write => handle.writable(),
    }
}

/// The address of `size` bytes that the handle shows at `offset`, for memory
/// that lies outside any box: the handle must allow the access, then the
/// bytes must lie in its window. Whether the address is good for anything
/// is then up to whoever made the handle.
pub open spec fn spec_access_pointer<D: NativeData>(
    handle: &D,
    access: Access,
    offset: isize,
    size: usize,
) -> Result<usize, FfiError> {
    if !allows(handle, access) {
        Err(FfiError::CapabilityError { missing: access.spec_flag() })
    } else if !handle.in_window(offset as int, size as nat) {
        Err(FfiError::BoundsError { offset, size })
    } else {
        Ok(wrap_address(handle.base() + offset))
    }
}

pub fn access_pointer<D: NativeData>(handle: &D, access: Access, offset: isize, size: usize) -> (address:
    Result<usize, FfiError>)
    ensures
        address == spec_access_pointer(handle, access, offset, size),
{
    let allowed = match access {
        Access::Read => handle.is_readable(),
        Access::Write => handle.is_writable(),
    };
    if !allowed {
        return Err(FfiError::CapabilityError { missing: access.flag() });
    }
    if !handle.check_boundary(offset, size) {
        return Err(FfiError::BoundsError { offset, size });
    }
    Ok(handle.get_pointer(offset))
}

/// What reading one value of `ctype` through the handle at `offset` gives:
/// the handle must be readable, then the bytes must lie in its window and in
/// the memory.
pub open spec fn spec_read_data<D: NativeData, C: NativeConvert>(
    handle: &D,
    memory: Seq<u8>,
    ctype: &C,
    offset: isize,
) -> Result<DynamicValue, FfiError> {
    let size = ctype.width() as usize;
    if !handle.readable() {
        Err(FfiError::CapabilityError { missing: FfiRefFlag::Readable })
    } else {
        match spec_locate(handle, offset, size, memory.len()) {
            None => Err(FfiError::BoundsError { offset, size }),
            Some(at) => Ok(ctype.decode(memory.subrange(at as int, at + size))),
        }
    }
}

/// The memory after one value of `ctype` was written through the handle at
/// `offset`: the handle must be writable, then the bytes must lie in its
/// window and in the memory, then the value must convert.
pub open spec fn spec_write_data<D: NativeData, C: NativeConvert>(
    handle: &D,
    memory: Seq<u8>,
    ctype: &C,
    offset: isize,
    value: DynamicValue,
) -> Result<Seq<u8>, FfiError> {
    let size = ctype.width() as usize;
    if !handle.writable() {
        Err(FfiError::CapabilityError { missing: FfiRefFlag::Writable })
    } else {
        match spec_locate(handle, offset, size, memory.len()) {
            None => Err(FfiError::BoundsError { offset, size }),
            Some(at) => match ctype.encode(value) {
                Ok(bytes) => Ok(splice(memory, at as int, bytes)),
                Err(e) => Err(e),
            },
        }
    }
}

/// What was written through a handle that may also be read is read back
/// through it at the same offset: the value that the written bytes stand
/// for.
pub proof fn lemma_read_after_write<D: NativeData, C: NativeConvert>(
    handle: &D,
    memory: Seq<u8>,
    ctype: &C,
    offset: isize,
    value: DynamicValue,
)
    requires
        handle.readable(),
        ctype.width() <= usize::MAX,
        spec_write_data(handle, memory, ctype, offset, value) is Ok,
        ctype.encode(value)->Ok_0.len() == ctype.width(),
    ensures
        spec_read_data(
            handle,
            spec_write_data(handle, memory, ctype, offset, value)->Ok_0,
            ctype,
            offset,
        ) == Ok::<DynamicValue, FfiError>(ctype.decode(ctype.encode(value)->Ok_0)),
{
    let at = spec_locate(handle, offset, ctype.width() as usize, memory.len())->0;
    let bytes = ctype.encode(value)->Ok_0;
    super::bytes::lemma_splice_read(memory, at as int, bytes);
}

/// Reads one value of `ctype` from `memory` through the handle, `offset`
/// bytes from its base.
pub fn read_data<D: NativeData, C: NativeConvert>(
    handle: &D,
    memory: &Vec<u8>,
    ctype: &C,
    offset: isize,
) -> (value: Result<DynamicValue, FfiError>)
    ensures
        value == spec_read_data(handle, memory@, ctype, offset),
{
    if !handle.is_readable() {
        return Err(FfiError::CapabilityError { missing: FfiRefFlag::Readable });
    }
    let size = ctype.get_size();
    match locate(handle, offset, size, memory.len()) {
        None => Err(FfiError::BoundsError { offset, size }),
        Some(at) => ctype.luavalue_from(at, memory),
    }
}

/// Writes one value of `ctype` into `memory` through the handle, `offset`
/// bytes from its base. A failure leaves the memory as it was.
pub fn write_data<D: NativeData, C: NativeConvert>(
    handle: &D,
    memory: &mut Vec<u8>,
    ctype: &C,
    offset: isize,
    value: &DynamicValue,
) -> (done: Result<(), FfiError>)
    ensures
        match spec_write_data(handle, old(memory)@, ctype, offset, *value) {
            Ok(after) => done is Ok && final(memory)@ == after,
            Err(e) => done == Err::<(), FfiError>(e) && final(memory)@ == old(memory)@,
        },
{
    if !handle.is_writable() {
        return Err(FfiError::CapabilityError { missing: FfiRefFlag::Writable });
    }
    let size = ctype.get_size();
    match locate(handle, offset, size, memory.len()) {
        None => Err(FfiError::BoundsError { offset, size }),
        Some(at) => ctype.luavalue_into(at, memory, value),
    }
}

} // verus!
