use vstd::prelude::*;
use vstd::string::*;

pub mod flag;

pub use self::flag::FfiBoxFlag;

use super::bit_mask::{
    lemma_set_then_test, spec_u8_test, u8_set, u8_test, U8_MASK1, U8_MASK3, U8_MASK4, U8_MASK5,
};
use super::ffi_association::{AssociationName, FfiAssociation};
use super::ffi_native::bytes::{arrange, le_value, read_uint, ByteOrder};
use super::ffi_native::data::{
    move_address, read_data, spec_read_data, spec_write_data, write_data,
};
use super::ffi_native::{NativeConvert, NativeData};
use super::ffi_ref::{FfiRef, FfiRefBounds, FfiRefFlag, FfiRefFlagList};
use crate::error::FfiError;
use crate::value::DynamicValue;

verus! {

/// The flags of a reference that is made from a box: it may be read,
/// written and moved. A box is no function, and what it holds is not
/// followed as an address.
pub const BOX_REF_FLAGS: u8 = U8_MASK3 | U8_MASK4 | U8_MASK5;

/// The largest box that `stringify` writes out byte by byte.
pub const FFI_BOX_PRINT_MAX_LENGTH: usize = 1024;

/// A region of memory of a fixed size, which the box owns.
#[derive(Debug)]
pub struct FfiBox {
    flags: u8,
    data: Vec<u8>,
}

impl View for FfiBox {
    type V = Seq<u8>;

    /// The bytes of the region.
    closed spec fn view(&self) -> Seq<u8> {
        self.data@
    }
}

/// The flags of `BOX_REF_FLAGS` are these three.
pub proof fn lemma_box_ref_flags()
    ensures
        forall|flag: FfiRefFlag|
            FfiRefFlagList(BOX_REF_FLAGS).spec_has(flag) <==> (flag == FfiRefFlag::Readable || flag
                == FfiRefFlag::Writable || flag == FfiRefFlag::Offsetable),
{
    assert(4u8 | 8u8 | 16u8 == 28u8) by (bit_vector);
    assert forall|flag: FfiRefFlag|
        FfiRefFlagList(BOX_REF_FLAGS).spec_has(flag) <==> (flag == FfiRefFlag::Readable || flag
            == FfiRefFlag::Writable || flag == FfiRefFlag::Offsetable) by {
        let mask = flag.spec_value();
        assert((28u8 & mask != 0) <==> (mask & 28u8 != 0)) by (bit_vector);
        assert(28u8 & 1u8 == 0 && 28u8 & 2u8 == 0 && 28u8 & 4u8 != 0 && 28u8 & 8u8 != 0 && 28u8
            & 16u8 != 0 && 28u8 & 32u8 == 0 && 28u8 & 64u8 == 0) by (bit_vector);
    }
}

/// The character of one hexadecimal digit.
pub open spec fn hex_char(digit: u8) -> char {
    if digit == 0 {
        '0'
    } else if digit == 1 {
        '1'
    } else if digit == 2 {
        '2'
    } else if digit == 3 {
        '3'
    } else if digit == 4 {
        '4'
    } else if digit == 5 {
        '5'
    } else if digit == 6 {
        '6'
    } else if digit == 7 {
        '7'
    } else if digit == 8 {
        '8'
    } else if digit == 9 {
        '9'
    } else if digit == 10 {
        'a'
    } else if digit == 11 {
        'b'
    } else if digit == 12 {
        'c'
    } else if digit == 13 {
        'd'
    } else if digit == 14 {
        'e'
    } else {
        'f'
    }
}

/// Bytes in hexadecimal: two digits for each byte, the upper half first.
pub open spec fn hex_of(bytes: Seq<u8>) -> Seq<char> {
    Seq::new(
        2 * bytes.len(),
        |i: int|
            if i % 2 == 0 {
                hex_char(bytes[i / 2] / 16)
            } else {
                hex_char(bytes[i / 2] % 16)
            },
    )
}

fn hex_str(digit: u8) -> (text: &'static str)
    requires
        digit < 16,
    ensures
        text@ == seq![hex_char(digit)],
{
    proof {
        reveal_strlit("0");
        reveal_strlit("1");
        reveal_strlit("2");
        reveal_strlit("3");
        reveal_strlit("4");
        reveal_strlit("5");
        reveal_strlit("6");
        reveal_strlit("7");
        reveal_strlit("8");
        reveal_strlit("9");
        reveal_strlit("a");
        reveal_strlit("b");
        reveal_strlit("c");
        reveal_strlit("d");
        reveal_strlit("e");
        reveal_strlit("f");
    }
    let text = if digit == 0 {
        "0"
    } else if digit == 1 {
        "1"
    } else if digit == 2 {
        "2"
    } else if digit == 3 {
        "3"
    } else if digit == 4 {
        "4"
    } else if digit == 5 {
        "5"
    } else if digit == 6 {
        "6"
    } else if digit == 7 {
        "7"
    } else if digit == 8 {
        "8"
    } else if digit == 9 {
        "9"
    } else if digit == 10 {
        "a"
    } else if digit == 11 {
        "b"
    } else if digit == 12 {
        "c"
    } else if digit == 13 {
        "d"
    } else if digit == 14 {
        "e"
    } else {
        "f"
    };
    assert(text@ =~= seq![hex_char(digit)]);
    text
}

impl FfiBox {
    /// Whether the box has given up the destruction of its region.
    pub closed spec fn spec_is_leaked(&self) -> bool {
        spec_u8_test(self.flags, FfiBoxFlag::Leaked.spec_value())
    }

    /// The reference that `luaref` makes: over the whole region, or, with an
    /// offset from zero to the size of the box, over the region from there
    /// on.
    pub open spec fn spec_luaref(&self, offset: Option<isize>) -> Result<FfiRef, FfiError> {
        match offset {
            None => Ok(
                FfiRef {
                    ptr: 0,
                    flags: FfiRefFlagList(BOX_REF_FLAGS),
                    boundary: FfiRefBounds::spec_new(0, self@.len() as usize),
                },
            ),
            Some(t) => if 0 <= t <= self@.len() {
                Ok(
                    FfiRef {
                        ptr: t as usize,
                        flags: FfiRefFlagList(BOX_REF_FLAGS),
                        boundary: FfiRefBounds::spec_new(t as usize, (self@.len() - t) as usize),
                    },
                )
            } else {
                Err(FfiError::BoundsError { offset: t, size: 0 })
            },
        }
    }

    /// A box of `size` bytes. What the bytes hold is not said: fill them
    /// with `zero` before reading them. A box of no bytes needs no memory
    /// and is always made; for any other size the allocator decides.
    pub fn new(size: usize) -> (made: Result<FfiBox, FfiError>)
        ensures
            made matches Ok(b) ==> b@.len() == size && !b.spec_is_leaked(),
            made matches Err(e) ==> e == (FfiError::AllocationError { size }),
            size == 0 ==> made is Ok,
    {
        let mut storage: Vec<u8> = Vec::new();
        let reserved = size == 0 || storage.try_reserve(size).is_ok();
        Self::with_storage(storage, size, reserved)
    }

    /// The box of `size` bytes in `storage`, if room for them was reserved
    /// there, and the failure to allocate if it was not.
    fn with_storage(storage: Vec<u8>, size: usize, reserved: bool) -> (made: Result<
        FfiBox,
        FfiError,
    >)
        ensures
            reserved ==> (made matches Ok(b) && b@.len() == size && !b.spec_is_leaked()),
            !reserved ==> made == Err::<FfiBox, FfiError>(FfiError::AllocationError { size }),
    {
        if !reserved {
            return Err(FfiError::AllocationError { size });
        }
        let mut data = storage;
        data.resize(size, 0);
        assert(0u8 & 1u8 == 0u8) by (bit_vector);
        Ok(FfiBox { flags: 0, data })
    }

    /// The bytes in hexadecimal, two digits each, for a box of up to
    /// `FFI_BOX_PRINT_MAX_LENGTH` bytes; for a larger one the word `exceed`.
    pub fn stringify(&self) -> (text: String)
        ensures
            self@.len() <= FFI_BOX_PRINT_MAX_LENGTH ==> text@ == hex_of(self@) && text@.len() == 2
                * self@.len(),
            self@.len() > FFI_BOX_PRINT_MAX_LENGTH ==> text@ == "exceed"@,
    {
        if self.size() > FFI_BOX_PRINT_MAX_LENGTH {
            return String::from_str("exceed");
        }
        let mut buff: String = String::new();
        let mut i: usize = 0;
        assert(buff@ =~= hex_of(self.data@.subrange(0, 0)));
        while i < self.data.len()
            invariant
                i <= self.data@.len(),
                buff@ == hex_of(self.data@.subrange(0, i as int)),
            decreases self.data@.len() - i,
        {
            let value = self.data[i];
            let ghost before = buff@;
            buff.append(hex_str(value / 16));
            buff.append(hex_str(value % 16));
            proof {
                let seen = self.data@.subrange(0, i as int);
                let next = self.data@.subrange(0, i as int + 1);
                assert(buff@ =~= before + seq![hex_char(value / 16)] + seq![hex_char(value % 16)]);
                assert(buff@.len() == 2 * next.len());
                assert forall|k: int| 0 <= k < buff@.len() implies buff@[k] == hex_of(next)[k] by {
                    if k < 2 * i {
                        assert(buff@[k] == hex_of(seen)[k]);
                        assert(seen[k / 2] == next[k / 2]);
                    }
                }
                assert(buff@ =~= hex_of(next));
            }
            i = i + 1;
        }
        assert(self.data@.subrange(0, i as int) =~= self.data@);
        buff
    }

    /// Gives up the destruction of the region, once and for all. The bytes
    /// stay as they are.
    pub fn leak(&mut self)
        ensures
            final(self).spec_is_leaked(),
            final(self)@ == old(self)@,
    {
        proof {
            lemma_set_then_test(self.flags, U8_MASK1, U8_MASK1, true);
        }
        self.flags = u8_set(self.flags, FfiBoxFlag::Leaked.value(), true);
    }

    #[verifier::when_used_as_spec(spec_is_leaked)]
    pub fn is_leaked(&self) -> (leaked: bool)
        ensures
            leaked == self.spec_is_leaked(),
    {
        u8_test(self.flags, FfiBoxFlag::Leaked.value())
    }

    /// Makes a reference over the box, from `offset` on, and ties it to the
    /// box in the registry: `dependent`, the identity of the reference,
    /// keeps `this`, the identity of the box. An offset outside the box
    /// fails and ties nothing.
    pub fn luaref(
        &self,
        registry: &mut FfiAssociation,
        this: u64,
        dependent: u64,
        offset: Option<isize>,
    ) -> (made: Result<FfiRef, FfiError>)
        ensures
            made == self.spec_luaref(offset),
            made is Err <==> (offset matches Some(t) && (t < 0 || t > self@.len())),
            made matches Ok(view) ==> !view.boundary.spec_is_unsized()
                && view.boundary.spec_above() == view.ptr && view.boundary.spec_below()
                == self@.len() - view.ptr,
            made is Ok ==> final(registry)@ == old(registry)@.insert(
                (AssociationName::RefInner, dependent),
                this,
            ) && final(registry).spec_is_kept(this),
            made is Err ==> final(registry)@ == old(registry)@,
    {
        proof {
            FfiRefBounds::lemma_window(0, self@.len() as usize);
        }
        let mut bounds = FfiRefBounds::new(0, self.size());
        let mut ptr = self.get_pointer(0);
        if let Some(t) = offset {
            if !bounds.check_boundary(t) {
                return Err(FfiError::BoundsError { offset: t, size: 0 });
            }
            ptr = self.get_pointer(t);
            bounds = bounds.offset(t);
            proof {
                FfiRefBounds::lemma_window(t as usize, (self@.len() - t) as usize);
            }
        }
        let luaref = FfiRef::new(ptr, FfiRefFlagList(BOX_REF_FLAGS), bounds);
        registry.set_association(AssociationName::RefInner, dependent, this);
        assert(registry@.contains_key((AssociationName::RefInner, dependent)));
        Ok(luaref)
    }

    /// Leaks the box, then makes a reference over it as `luaref` does. The
    /// box is leaked whether or not the reference could be made.
    pub fn leak_ref(
        &mut self,
        registry: &mut FfiAssociation,
        this: u64,
        dependent: u64,
        offset: Option<isize>,
    ) -> (made: Result<FfiRef, FfiError>)
        ensures
            final(self).spec_is_leaked(),
            final(self)@ == old(self)@,
            made == old(self).spec_luaref(offset),
            made is Err <==> (offset matches Some(t) && (t < 0 || t > old(self)@.len())),
            made matches Ok(view) ==> !view.boundary.spec_is_unsized()
                && view.boundary.spec_above() == view.ptr && view.boundary.spec_below() == old(
                self,
            )@.len() - view.ptr,
            made is Ok ==> final(registry)@ == old(registry)@.insert(
                (AssociationName::RefInner, dependent),
                this,
            ) && final(registry).spec_is_kept(this),
            made is Err ==> final(registry)@ == old(registry)@,
    {
        self.leak();
        self.luaref(registry, this, dependent, offset)
    }

    /// What is left of the region when the box ends: all of it where the
    /// box was leaked, nothing where it was not.
    pub open spec fn spec_drop(&self) -> Option<Seq<u8>> {
        if self.spec_is_leaked() {
            Some(self@)
        } else {
            None
        }
    }

    /// Ends the box. A box that was leaked hands its region out, bytes
    /// unchanged, to whoever owns it from now on; any other box destroys
    /// its region and hands out nothing.
    pub fn drop(self) -> (region: Option<Vec<u8>>)
        ensures
            self.spec_drop() matches Some(bytes) ==> (region matches Some(left) && left@ == bytes),
            self.spec_drop() is None ==> region is None,
    {
        if self.is_leaked() {
            Some(self.data)
        } else {
            None
        }
    }

    /// The region of a leaked box outlives the box: what a handle reads
    /// from the region that `drop` hands out is what it read from the box.
    pub proof fn lemma_leaked_region_reads_alike<D: NativeData, C: NativeConvert>(
        self,
        handle: &D,
        ctype: &C,
        offset: isize,
    )
        requires
            self.spec_is_leaked(),
        ensures
            self.spec_drop() matches Some(region) && spec_read_data(handle, region, ctype, offset)
                == spec_read_data(handle, self@, ctype, offset),
    {
    }

    /// Ends the box as `drop` does, unless a reference still keeps it: a
    /// box under the identity `this` that some dependent of the registry
    /// keeps is handed back as it is, and nothing of it is destroyed.
    pub fn release(self, registry: &FfiAssociation, this: u64) -> (outcome: Result<
        Option<Vec<u8>>,
        FfiBox,
    >)
        ensures
            registry.spec_is_kept(this) ==> (outcome matches Err(kept) && kept@ == self@
                && kept.spec_is_leaked() == self.spec_is_leaked()),
            !registry.spec_is_kept(this) && self.spec_drop() is Some ==> (outcome matches Ok(
                Some(left),
            ) && Some(left@) == self.spec_drop()),
            !registry.spec_is_kept(this) && self.spec_drop() is None ==> outcome matches Ok(None),
    {
        if registry.is_kept(this) {
            Err(self)
        } else {
            Ok(self.drop())
        }
    }

    /// Fills the region with zeros.
    pub fn zero(&mut self)
        ensures
            final(self)@.len() == old(self)@.len(),
            forall|i: int| 0 <= i < final(self)@.len() ==> final(self)@[i] == 0,
            final(self).spec_is_leaked() == old(self).spec_is_leaked(),
    {
        let mut i: usize = 0;
        while i < self.data.len()
            invariant
                i <= self.data@.len(),
                self.data@.len() == old(self).data@.len(),
                self.flags == old(self).flags,
                forall|j: int| 0 <= j < i ==> self.data@[j] == 0,
            decreases self.data@.len() - i,
        {
            self.data.set(i, 0);
            i = i + 1;
        }
    }

    /// The number of bytes of the region.
    pub fn size(&self) -> (size: usize)
        ensures
            size == self@.len(),
    {
        self.data.len()
    }

    /// The number that `width` bytes of the region hold in `order` from
    /// index `at` on.
    pub(crate) fn number_at(&self, at: usize, width: usize, order: ByteOrder) -> (number: u64)
        requires
            width <= 8,
            at + width <= self@.len(),
        ensures
            number == le_value(arrange(self@.subrange(at as int, at + width), order)),
    {
        read_uint(&self.data, at, width, order)
    }

    /// Reads one value of `ctype` from the region through `handle`, which
    /// says where the value lies and whether it may be read.
    pub fn read_through<D: NativeData, C: NativeConvert>(
        &self,
        handle: &D,
        ctype: &C,
        offset: isize,
    ) -> (value: Result<DynamicValue, FfiError>)
        ensures
            value == spec_read_data(handle, self@, ctype, offset),
    {
        read_data(handle, &self.data, ctype, offset)
    }

    /// Writes one value of `ctype` into the region through `handle`, which
    /// says where the value lies and whether it may be written. A failure
    /// leaves the box as it was.
    pub fn write_through<D: NativeData, C: NativeConvert>(
        &mut self,
        handle: &D,
        ctype: &C,
        offset: isize,
        value: &DynamicValue,
    ) -> (done: Result<(), FfiError>)
        ensures
            final(self).spec_is_leaked() == old(self).spec_is_leaked(),
            final(self)@.len() == old(self)@.len(),
            match spec_write_data(handle, old(self)@, ctype, offset, *value) {
                Ok(after) => done is Ok && final(self)@ == after,
                Err(e) => done == Err::<(), FfiError>(e) && final(self)@ == old(self)@,
            },
    {
        write_data(handle, &mut self.data, ctype, offset, value)
    }

    /// Reads one value of `ctype`, `offset` bytes into the box.
    pub fn read<C: NativeConvert>(&self, ctype: &C, offset: isize) -> (value: Result<
        DynamicValue,
        FfiError,
    >)
        ensures
            value == spec_read_data(self, self@, ctype, offset),
    {
        read_data(self, &self.data, ctype, offset)
    }

    /// Writes one value of `ctype`, `offset` bytes into the box. A failure
    /// leaves the box as it was.
    pub fn write<C: NativeConvert>(&mut self, ctype: &C, offset: isize, value: &DynamicValue) -> (done:
        Result<(), FfiError>)
        ensures
            final(self).spec_is_leaked() == old(self).spec_is_leaked(),
            final(self)@.len() == old(self)@.len(),
            match spec_write_data(old(self), old(self)@, ctype, offset, *value) {
                Ok(after) => done is Ok && final(self)@ == after,
                Err(e) => done == Err::<(), FfiError>(e) && final(self)@ == old(self)@,
            },
    {
        let whole = FfiRef::new(
            0,
            FfiRefFlagList(BOX_REF_FLAGS),
            FfiRefBounds::new(0, self.data.len()),
        );
        proof {
            lemma_box_ref_flags();
        }
        write_data(&whole, &mut self.data, ctype, offset, value)
    }
}

impl NativeData for FfiBox {
    open spec fn base(&self) -> usize {
        0
    }

    open spec fn in_window(&self, offset: int, size: nat) -> bool {
        0 <= offset && offset + size <= self@.len()
    }

    open spec fn readable(&self) -> bool {
        true
    }

    open spec fn writable(&self) -> bool {
        true
    }

    fn check_boundary(&self, offset: isize, size: usize) -> (inside: bool) {
        if offset < 0 {
            return false;
        }
        let start = offset as usize;
        start <= self.size() && self.size() - start >= size
    }

    fn get_pointer(&self, offset: isize) -> (address: usize) {
        move_address(0, offset)
    }

    fn is_readable(&self) -> (readable: bool) {
        true
    }

    fn is_writable(&self) -> (writable: bool) {
        true
    }
}

} // verus!
