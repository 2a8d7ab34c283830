use vstd::prelude::*;

use super::super::bit_mask::{
    is_single_bit, lemma_single_bits_disjoint, spec_u8_test, u8_test, U8_MASK1, U8_MASK2,
    U8_MASK3, U8_MASK4, U8_MASK5, U8_MASK6, U8_MASK7,
};

verus! {

/// A permission, or a mark, that a reference carries from its creation on.
#[derive(Clone, Copy, Debug, PartialEq, Eq, Structural)]
pub enum FfiRefFlag {
    Leaked,
    Dereferenceable,
    Readable,
    Writable,
    Offsetable,
    Function,
    Uninit,
}

impl FfiRefFlag {
    /// The bit that stands for this flag in a flag byte.
    pub open spec fn spec_value(&self) -> u8 {
        match self {
            Self::Leaked => U8_MASK1,
            Self::Dereferenceable => U8_MASK2,
            Self::Writable => U8_MASK3,
            Self::Readable => U8_MASK4,
            Self::Offsetable => U8_MASK5,
            Self::Function => U8_MASK6,
            Self::Uninit => U8_MASK7,
        }
    }

    #[verifier::when_used_as_spec(spec_value)]
    pub fn value(&self) -> (mask: u8)
        ensures
            mask == self.spec_value(),
    {
        match self {
            Self::Leaked => U8_MASK1,
            Self::Dereferenceable => U8_MASK2,
            Self::Writable => U8_MASK3,
            Self::Readable => U8_MASK4,
            Self::Offsetable => U8_MASK5,
            Self::Function => U8_MASK6,
            Self::Uninit => U8_MASK7,
        }
    }

    /// Every flag has one bit of its own.
    pub proof fn lemma_values_distinct(a: FfiRefFlag, b: FfiRefFlag)
        ensures
            is_single_bit(a.spec_value()),
            a != b ==> a.spec_value() & b.spec_value() == 0,
            a == b ==> a.spec_value() & b.spec_value() != 0,
    {
        lemma_single_bits_disjoint(a.spec_value(), b.spec_value());
    }
}

/// The flags of a reference, one bit each.
#[derive(Clone, Copy, Debug, PartialEq, Eq, Structural)]
pub struct FfiRefFlagList(pub u8);

impl FfiRefFlagList {
    /// Whether the list holds `flag`.
    pub open spec fn spec_has(&self, flag: FfiRefFlag) -> bool {
        spec_u8_test(self.0, flag.spec_value())
    }

    /// The list without a flag.
    pub fn zero() -> (list: Self)
        ensures
            forall|flag: FfiRefFlag| !list.spec_has(flag),
    {
        assert forall|flag: FfiRefFlag| !spec_u8_test(0u8, flag.spec_value()) by {
            let mask = flag.spec_value();
            assert(0u8 & mask == 0) by (bit_vector);
        }
        FfiRefFlagList(0)
    }

    /// The list of exactly the given flags.
    pub fn new(flags: &[FfiRefFlag]) -> (list: Self)
        ensures
            forall|flag: FfiRefFlag| list.spec_has(flag) <==> flags@.contains(flag),
    {
        let mut bits: u8 = 0;
        let mut i: usize = 0;
        assert forall|flag: FfiRefFlag| !spec_u8_test(0u8, flag.spec_value()) by {
            let mask = flag.spec_value();
            assert(0u8 & mask == 0) by (bit_vector);
        }
        while i < flags.len()
            invariant
                i <= flags@.len(),
                forall|flag: FfiRefFlag|
                    spec_u8_test(bits, flag.spec_value()) <==> flags@.subrange(
                        0,
                        i as int,
                    ).contains(flag),
            decreases flags@.len() - i,
        {
            let added = flags[i];
            let mask = added.value();
            let ghost seen = flags@.subrange(0, i as int);
            let ghost next = flags@.subrange(0, i as int + 1);
            assert forall|flag: FfiRefFlag|
                spec_u8_test(bits | mask, flag.spec_value()) <==> next.contains(flag) by {
                let probe = flag.spec_value();
                assert(((bits | mask) & probe != 0) <==> (bits & probe != 0 || mask & probe != 0))
                    by (bit_vector);
                FfiRefFlag::lemma_values_distinct(added, flag);
                assert(next =~= seen.push(added));
                if seen.contains(flag) {
                    let k = choose|k: int| 0 <= k < seen.len() && seen[k] == flag;
                    assert(next[k] == flag);
                }
                if added == flag {
                    assert(next[i as int] == flag);
                }
            }
            bits = bits | mask;
            i = i + 1;
        }
        assert(flags@.subrange(0, i as int) =~= flags@);
        FfiRefFlagList(bits)
    }

    #[verifier::when_used_as_spec(spec_has)]
    pub fn has(&self, flag: FfiRefFlag) -> (held: bool)
        ensures
            held == self.spec_has(flag),
    {
        u8_test(self.0, flag.value())
    }

    pub fn is_readable(&self) -> (held: bool)
        ensures
            held == self.spec_has(FfiRefFlag::Readable),
    {
        self.has(FfiRefFlag::Readable)
    }

    pub fn is_writable(&self) -> (held: bool)
        ensures
            held == self.spec_has(FfiRefFlag::Writable),
    {
        self.has(FfiRefFlag::Writable)
    }

    pub fn is_offsetable(&self) -> (held: bool)
        ensures
            held == self.spec_has(FfiRefFlag::Offsetable),
    {
        self.has(FfiRefFlag::Offsetable)
    }

    pub fn is_dereferenceable(&self) -> (held: bool)
        ensures
            held == self.spec_has(FfiRefFlag::Dereferenceable),
    {
        self.has(FfiRefFlag::Dereferenceable)
    }
}

} // verus!
