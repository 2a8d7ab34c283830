use vstd::prelude::*;

use super::super::bit_mask::U8_MASK1;

verus! {

/// A mark that a box carries.
#[derive(Clone, Copy, Debug, PartialEq, Eq, Structural)]
pub enum FfiBoxFlag {
    Leaked,
}

impl FfiBoxFlag {
    /// The bit that stands for this flag in a flag byte.
    pub open spec fn spec_value(&self) -> u8 {
        match self {
            Self::Leaked => U8_MASK1,
        }
    }

    #[verifier::when_used_as_spec(spec_value)]
    pub fn value(&self) -> (mask: u8)
        ensures
            mask == self.spec_value(),
    {
        match self {
            Self::Leaked => U8_MASK1,
        }
    }
}

} // verus!
