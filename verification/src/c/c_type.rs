use std::marker::PhantomData;
use vstd::prelude::*;
use vstd::string::*;

use crate::ffi::ffi_native::bytes::ByteOrder;

verus! {

/// The native types that a call signature is made of: what the call
/// interface has to know of a descriptor.
#[derive(Clone, Copy, Debug, PartialEq, Eq, Structural)]
pub enum CTypeKind {
    I8,
    I64,
}

impl CTypeKind {
    /// The name under which the type is found.
    pub open spec fn spec_name(&self) -> Seq<char> {
        match self {
            CTypeKind::I8 => "i8"@,
            CTypeKind::I64 => "i64"@,
        }
    }

    /// The type that a name stands for, if it stands for one.
    pub open spec fn spec_from_name(name: Seq<char>) -> Option<CTypeKind> {
        if name == "i8"@ {
            Some(CTypeKind::I8)
        } else if name == "i64"@ {
            Some(CTypeKind::I64)
        } else {
            None
        }
    }

    pub fn name(&self) -> (name: &'static str)
        ensures
            name@ == self.spec_name(),
    {
        match self {
            CTypeKind::I8 => "i8",
            CTypeKind::I64 => "i64",
        }
    }

    pub fn from_name(name: &str) -> (kind: Option<CTypeKind>)
        ensures
            kind == Self::spec_from_name(name@),
    {
        let owned = name.to_owned();
        if owned == String::from_str("i8") {
            Some(CTypeKind::I8)
        } else if owned == String::from_str("i64") {
            Some(CTypeKind::I64)
        } else {
            None
        }
    }
}

/// The descriptor of the native type `T`: one value stands for the type,
/// and nothing in it changes after its creation.
#[derive(Debug)]
pub struct CType<T> {
    size: usize,
    name: Option<&'static str>,
    order: ByteOrder,
    _phantom: PhantomData<T>,
}

/// Whether a native type has a sign.
pub trait CTypeSignedness {
    spec fn signedness(&self) -> bool;

    fn get_signedness(&self) -> (signed: bool)
        ensures
            signed == self.signedness(),
    ;
}

impl<T> CType<T> {
    #[verifier::type_invariant]
    spec fn wf(self) -> bool {
        self.size == vstd::layout::size_of::<T>()
    }

    pub closed spec fn spec_name(&self) -> Option<&'static str> {
        self.name
    }

    /// The order in which the bytes of a value lie in memory.
    pub closed spec fn spec_order(&self) -> ByteOrder {
        self.order
    }

    /// A descriptor of `T` under the given name, for values in the order of
    /// the machine.
    pub fn new(name: Option<&'static str>) -> (ctype: Self)
        ensures
            ctype.spec_name() == name,
    {
        Self::with_order(name, ByteOrder::native())
    }

    /// A descriptor of `T` under the given name, for values in `order`.
    pub fn with_order(name: Option<&'static str>, order: ByteOrder) -> (ctype: Self)
        ensures
            ctype.spec_name() == name,
            ctype.spec_order() == order,
    {
        CType { size: core::mem::size_of::<T>(), name, order, _phantom: PhantomData }
    }

    #[verifier::when_used_as_spec(spec_order)]
    pub fn order(&self) -> (order: ByteOrder)
        ensures
            order == self.spec_order(),
    {
        self.order
    }

    /// The number of bytes that a value of `T` takes.
    pub fn size(&self) -> (size: usize)
        ensures
            size == vstd::layout::size_of::<T>(),
    {
        proof {
            use_type_invariant(self);
        }
        self.size
    }

    /// The alignment that a value of `T` needs.
    pub fn alignment(&self) -> (align: usize)
        ensures
            align == vstd::layout::align_of::<T>(),
    {
        core::mem::align_of::<T>()
    }

    #[verifier::when_used_as_spec(spec_name)]
    pub fn name(&self) -> (name: Option<&'static str>)
        ensures
            name == self.spec_name(),
    {
        self.name
    }
}

} // verus!
