use vstd::prelude::*;

use super::bit_mask::{U8_MASK2, U8_MASK4, U8_MASK5, U8_MASK6};
use super::ffi_association::{AssociationName, FfiAssociation};
use super::ffi_ref::{FfiRef, FfiRefBounds, FfiRefFlag, FfiRefFlagList};
use crate::error::FfiError;

verus! {

/// The flags of a reference to a symbol of a library: it may be moved,
/// read, followed as an address and called. How far a symbol reaches is
/// not known, so it may not be written.
pub const LIB_REF_FLAGS: u8 = U8_MASK5 | U8_MASK4 | U8_MASK2 | U8_MASK6;

/// The flags of `LIB_REF_FLAGS` are these four.
pub proof fn lemma_lib_ref_flags()
    ensures
        forall|flag: FfiRefFlag|
            FfiRefFlagList(LIB_REF_FLAGS).spec_has(flag) <==> (flag == FfiRefFlag::Offsetable
                || flag == FfiRefFlag::Readable || flag == FfiRefFlag::Dereferenceable || flag
                == FfiRefFlag::Function),
{
    assert(16u8 | 8u8 | 2u8 | 32u8 == 58u8) by (bit_vector);
    assert forall|flag: FfiRefFlag|
        FfiRefFlagList(LIB_REF_FLAGS).spec_has(flag) <==> (flag == FfiRefFlag::Offsetable || flag
            == FfiRefFlag::Readable || flag == FfiRefFlag::Dereferenceable || flag
            == FfiRefFlag::Function) by {
        assert(58u8 & 1u8 == 0 && 58u8 & 2u8 != 0 && 58u8 & 4u8 == 0 && 58u8 & 8u8 != 0 && 58u8
            & 16u8 != 0 && 58u8 & 32u8 != 0 && 58u8 & 64u8 == 0) by (bit_vector);
    }
}

/// A library that was opened, as far as this crate reads it: its name, and
/// the identity under which the registry knows it. The handle of the loader
/// stays with whoever opened the library.
#[derive(Debug)]
pub struct FfiLib {
    name: String,
    identity: u64,
}

impl FfiLib {
    pub closed spec fn spec_name(&self) -> String {
        self.name
    }

    pub closed spec fn spec_identity(&self) -> u64 {
        self.identity
    }

    /// The library `libname`, as the loader answered when it was asked to
    /// open it: the library where it was opened, and where it was not, the
    /// failure to load with the loader's message. Nothing is tried again.
    pub fn new(libname: String, identity: u64, opened: Result<(), String>) -> (lib: Result<
        Self,
        FfiError,
    >)
        ensures
            opened is Ok ==> (lib matches Ok(made) && made.spec_name() == libname
                && made.spec_identity() == identity),
            opened matches Err(message) ==> lib == Err::<Self, FfiError>(
                FfiError::LoadError { name: libname, message },
            ),
    {
        match opened {
            Ok(_) => Ok(FfiLib { name: libname, identity }),
            Err(message) => Err(FfiError::LoadError { name: libname, message }),
        }
    }

    pub fn name(&self) -> (name: &String)
        ensures
            *name == self.spec_name(),
    {
        &self.name
    }

    #[verifier::when_used_as_spec(spec_identity)]
    pub fn identity(&self) -> (identity: u64)
        ensures
            identity == self.spec_identity(),
    {
        self.identity
    }

    /// The reference to the symbol `name` of the library. `found` is what
    /// the lookup gave: the address of the symbol, or the loader's message
    /// where the symbol could not be had. A symbol that was found gives a
    /// reference with the flags of `LIB_REF_FLAGS` and a window that is not
    /// known, and the reference is tied to the library in the registry:
    /// `dependent`, the identity of the reference, keeps the library. One
    /// that was not found fails with the name and the message, and ties
    /// nothing.
    pub fn get_sym(
        &self,
        registry: &mut FfiAssociation,
        dependent: u64,
        name: String,
        found: Result<usize, String>,
    ) -> (made: Result<FfiRef, FfiError>)
        ensures
            found matches Ok(address) ==> (made == Ok::<FfiRef, FfiError>(
                FfiRef {
                    ptr: address,
                    flags: FfiRefFlagList(LIB_REF_FLAGS),
                    boundary: FfiRefBounds::spec_unsized(),
                },
            ) && final(registry)@ == old(registry)@.insert(
                (AssociationName::SymInner, dependent),
                self.spec_identity(),
            )),
            found matches Err(message) ==> (made == Err::<FfiRef, FfiError>(
                FfiError::SymbolError { name, message },
            ) && final(registry)@ == old(registry)@),
            made matches Ok(symbol) ==> final(registry).spec_is_kept(self.spec_identity())
                && symbol.boundary.spec_is_unsized() && forall|flag: FfiRefFlag|
                symbol.flags.spec_has(flag) <==> (flag == FfiRefFlag::Offsetable || flag
                    == FfiRefFlag::Readable || flag == FfiRefFlag::Dereferenceable || flag
                    == FfiRefFlag::Function),
    {
        proof {
            lemma_lib_ref_flags();
        }
        match found {
            Err(message) => Err(FfiError::SymbolError { name, message }),
            Ok(address) => {
                let luasym = FfiRef::new(
                    address,
                    FfiRefFlagList(LIB_REF_FLAGS),
                    FfiRefBounds::unsized_bounds(),
                );
                registry.set_association(AssociationName::SymInner, dependent, self.identity);
                assert(registry@.contains_key((AssociationName::SymInner, dependent)));
                Ok(luasym)
            },
        }
    }
}

} // verus!
