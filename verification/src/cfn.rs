use libffi::middle::{Cif, Type};
use vstd::prelude::*;

use crate::c::c_type::CTypeKind;
use crate::error::FfiError;

verus! {

/// `libffi::middle::Cif`, a prepared call interface. It is carried, never
/// looked into.
#[verifier::external_type_specification]
#[verifier::external_body]
pub struct ExCif(Cif);

/// `libffi::middle::Type`, the description that a call interface takes of a
/// native type. It is carried, never looked into.
#[verifier::external_type_specification]
#[verifier::external_body]
pub struct ExType(Type);

/// `libffi::middle::Type::i8`: the description of the signed 8-bit type. It
/// takes nothing and cannot fail; nothing is claimed of what it returns.
pub assume_specification[ Type::i8 ]() -> (described: Type)
;

/// `libffi::middle::Type::i64`: the description of the signed 64-bit type.
/// It takes nothing and cannot fail; nothing is claimed of what it returns.
pub assume_specification[ Type::i64 ]() -> (described: Type)
;

/// The description that the call interface takes of a native type.
fn libffi_type(kind: CTypeKind) -> (described: Type) {
    match kind {
        CTypeKind::I8 => Type::i8(),
        CTypeKind::I64 => Type::i64(),
    }
}

/// `libffi::middle::Cif::new`: the call interface for functions that take
/// arguments of the described types and return the described type, under
/// the platform's default convention. `Cif::new` panics where the
/// preparation is refused; it is not refused for descriptions of scalars,
/// and `Type::i8` and `Type::i64` are the only sources of a description
/// here. Nothing is claimed of what it returns.
#[verifier::external_body]
fn new_cif(args: Vec<Type>, ret: Type) -> (cif: Cif) {
    Cif::new(args, ret)
}

/// The signature of a native function: the types of its arguments in their
/// order, the type that it returns, and the call interface made from them.
/// It is made once and serves every call of every function of that
/// signature.
#[derive(Debug)]
pub struct CFn {
    libffi_cif: Cif,
    args: Vec<CTypeKind>,
    ret: CTypeKind,
}

/// The types that a list of names stands for: all of them, or the position
/// of the first name that stands for none.
pub open spec fn spec_resolve(names: Seq<String>) -> Result<Seq<CTypeKind>, usize>
    decreases names.len(),
{
    if names.len() == 0 {
        Ok(Seq::empty())
    } else {
        match spec_resolve(names.drop_last()) {
            Err(position) => Err(position),
            Ok(kinds) => match CTypeKind::spec_from_name(names.last()@) {
                None => Err((names.len() - 1) as usize),
                Some(kind) => Ok(kinds.push(kind)),
            },
        }
    }
}

impl CFn {
    pub closed spec fn spec_args(&self) -> Seq<CTypeKind> {
        self.args@
    }

    pub closed spec fn spec_ret(&self) -> CTypeKind {
        self.ret
    }

    /// The call interface that the signature holds.
    pub closed spec fn spec_cif(&self) -> Cif {
        self.libffi_cif
    }

    /// The signature of the functions that take `args` and return `ret`.
    pub fn new(args: Vec<CTypeKind>, ret: CTypeKind) -> (cfn: Self)
        ensures
            cfn.spec_args() == args@,
            cfn.spec_ret() == ret,
    {
        let mut described: Vec<Type> = Vec::new();
        let mut i: usize = 0;
        while i < args.len()
            invariant
                i <= args@.len(),
                described@.len() == i,
            decreases args@.len() - i,
        {
            described.push(libffi_type(args[i]));
            i = i + 1;
        }
        let libffi_cif = new_cif(described, libffi_type(ret));
        CFn { libffi_cif, args, ret }
    }

    /// The signature that names of types describe. A name that stands for
    /// no native type fails, and the failure carries the name and its
    /// position: that of the first such argument, or the position after the
    /// last argument for the return type.
    pub fn from_lua_table(args: &Vec<String>, ret: &String) -> (cfn: Result<Self, FfiError>)
        ensures
            match spec_resolve(args@) {
                Err(position) => position < args@.len() && cfn == Err::<Self, FfiError>(
                    FfiError::TypeError { position, name: args@[position as int] },
                ),
                Ok(kinds) => match CTypeKind::spec_from_name(ret@) {
                    None => cfn == Err::<Self, FfiError>(
                        FfiError::TypeError { position: args@.len() as usize, name: *ret },
                    ),
                    Some(kind) => cfn matches Ok(made) && made.spec_args() == kinds
                        && made.spec_ret() == kind,
                },
            },
    {
        let mut kinds: Vec<CTypeKind> = Vec::new();
        let mut i: usize = 0;
        while i < args.len()
            invariant
                i <= args@.len(),
                spec_resolve(args@.subrange(0, i as int)) == Ok::<Seq<CTypeKind>, usize>(kinds@),
            decreases args@.len() - i,
        {
            let ghost seen = args@.subrange(0, i as int + 1);
            assert(seen.drop_last() =~= args@.subrange(0, i as int));
            assert(seen.last() == args@[i as int]);
            match CTypeKind::from_name(args[i].as_str()) {
                None => {
                    proof {
                        lemma_resolve_prefix(args@, i as int + 1);
                    }
                    return Err(FfiError::TypeError { position: i, name: args[i].clone() });
                },
                Some(kind) => {
                    kinds.push(kind);
                },
            }
            i = i + 1;
        }
        assert(args@.subrange(0, i as int) =~= args@);
        match CTypeKind::from_name(ret.as_str()) {
            None => Err(FfiError::TypeError { position: args.len(), name: ret.clone() }),
            Some(kind) => Ok(CFn::new(kinds, kind)),
        }
    }

    /// The call interface, for the layer that makes the calls: the one that
    /// was made with the signature, and the same at every call.
    pub fn cif(&self) -> (cif: &Cif)
        ensures
            *cif == self.spec_cif(),
    {
        &self.libffi_cif
    }

    pub fn args(&self) -> (args: &Vec<CTypeKind>)
        ensures
            args@ == self.spec_args(),
    {
        &self.args
    }

    #[verifier::when_used_as_spec(spec_ret)]
    pub fn ret(&self) -> (ret: CTypeKind)
        ensures
            ret == self.spec_ret(),
    {
        self.ret
    }
}

/// A list of names fails where its first failing prefix fails.
proof fn lemma_resolve_prefix(names: Seq<String>, k: int)
    requires
        0 <= k <= names.len(),
        spec_resolve(names.subrange(0, k)) is Err,
    ensures
        spec_resolve(names) == spec_resolve(names.subrange(0, k)),
    decreases names.len() - k,
{
    if k == names.len() {
        assert(names.subrange(0, k) =~= names);
    } else {
        let longer = names.subrange(0, k + 1);
        assert(longer.drop_last() =~= names.subrange(0, k));
        lemma_resolve_prefix(names, k + 1);
    }
}

} // verus!
