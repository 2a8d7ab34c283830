use vstd::prelude::*;

verus! {

/// The window of a reference: how many bytes lie above its address (before
/// it) and below it (from it on). Both numbers at their maximum mark a
/// window that is not known; nothing is checked against such a one.
#[derive(Clone, Copy, Debug, PartialEq, Eq, Structural)]
pub struct FfiRefBounds {
    above: usize,
    below: usize,
}

/// How far `offset` reaches, whatever its direction.
pub open spec fn magnitude_of(offset: int) -> int {
    if offset < 0 {
        -offset
    } else {
        offset
    }
}

/// The size of an offset.
pub fn magnitude(offset: isize) -> (size: usize)
    ensures
        size == magnitude_of(offset as int),
{
    if offset >= 0 {
        offset as usize
    } else {
        (-(offset + 1)) as usize + 1
    }
}

impl FfiRefBounds {
    /// A window that is known has a size that is a `usize`.
    #[verifier::type_invariant]
    pub closed spec fn wf(self) -> bool {
        self.spec_is_unsized() || self.above + self.below <= usize::MAX
    }

    pub closed spec fn spec_above(&self) -> usize {
        self.above
    }

    pub closed spec fn spec_below(&self) -> usize {
        self.below
    }

    pub open spec fn spec_is_unsized(&self) -> bool {
        self.spec_above() == usize::MAX && self.spec_below() == usize::MAX
    }

    /// Whether an address may move by `offset` and stay in the window, its
    /// end included.
    pub open spec fn spec_check_boundary(&self, offset: int) -> bool {
        self.spec_is_unsized() || -self.spec_above() <= offset <= self.spec_below()
    }

    /// Whether `size` bytes from `offset` on lie in the part of the window
    /// that starts at the address.
    pub open spec fn spec_check_sized(&self, offset: int, size: nat) -> bool {
        self.spec_is_unsized() || (0 <= offset && offset + size <= self.spec_below())
    }

    /// The window of `above` bytes before the address and `below` bytes from
    /// it on.
    pub closed spec fn spec_new(above: usize, below: usize) -> Self {
        FfiRefBounds { above, below }
    }

    /// The window that is not known.
    pub closed spec fn spec_unsized() -> Self {
        FfiRefBounds { above: usize::MAX, below: usize::MAX }
    }

    /// The same window, seen from an address that has moved by `offset`: a
    /// window that is not known stays so, a known one has `offset` bytes
    /// more above the address and as many fewer below it.
    pub closed spec fn spec_offset(&self, offset: int) -> Self {
        if self.spec_is_unsized() {
            *self
        } else {
            FfiRefBounds {
                above: (self.above + offset) as usize,
                below: (self.below - offset) as usize,
            }
        }
    }

    /// The window of `above` bytes before the address and `below` bytes from
    /// it on.
    pub fn new(above: usize, below: usize) -> (bounds: Self)
        requires
            above + below <= usize::MAX,
        ensures
            bounds == Self::spec_new(above, below),
            bounds.spec_above() == above,
            bounds.spec_below() == below,
            !bounds.spec_is_unsized(),
    {
        FfiRefBounds { above, below }
    }

    /// The window that is not known.
    pub fn unsized_bounds() -> (bounds: Self)
        ensures
            bounds == Self::spec_unsized(),
            bounds.spec_is_unsized(),
    {
        FfiRefBounds { above: usize::MAX, below: usize::MAX }
    }

    #[verifier::when_used_as_spec(spec_above)]
    pub fn above(&self) -> (above: usize)
        ensures
            above == self.spec_above(),
    {
        self.above
    }

    #[verifier::when_used_as_spec(spec_below)]
    pub fn below(&self) -> (below: usize)
        ensures
            below == self.spec_below(),
    {
        self.below
    }

    #[verifier::when_used_as_spec(spec_is_unsized)]
    pub fn is_unsized(&self) -> (unknown: bool)
        ensures
            unknown == self.spec_is_unsized(),
    {
        self.above == usize::MAX && self.below == usize::MAX
    }

    pub fn check_boundary(&self, offset: isize) -> (inside: bool)
        ensures
            inside == self.spec_check_boundary(offset as int),
    {
        if self.is_unsized() {
            return true;
        }
        let size = magnitude(offset);
        if offset < 0 {
            self.above >= size
        } else {
            self.below >= size
        }
    }

    pub fn check_sized(&self, offset: isize, size: usize) -> (inside: bool)
        ensures
            inside == self.spec_check_sized(offset as int, size as nat),
    {
        if self.is_unsized() {
            return true;
        }
        if offset < 0 {
            return false;
        }
        let start = offset as usize;
        start <= self.below && size <= self.below - start
    }

    /// The window after the address has moved by `offset`. It checks
    /// nothing: the caller has made sure that the move stays in the window.
    pub fn offset(&self, offset: isize) -> (moved: Self)
        requires
            self.spec_check_boundary(offset as int),
        ensures
            moved == self.spec_offset(offset as int),
            self.spec_is_unsized() ==> moved == *self,
            !self.spec_is_unsized() ==> !moved.spec_is_unsized() && moved.spec_above()
                == self.spec_above() + offset && moved.spec_below() == self.spec_below() - offset,
    {
        proof {
            use_type_invariant(self);
        }
        if self.is_unsized() {
            return *self;
        }
        let size = magnitude(offset);
        if offset < 0 {
            FfiRefBounds { above: self.above - size, below: self.below + size }
        } else {
            FfiRefBounds { above: self.above + size, below: self.below - size }
        }
    }

    /// A window is what lies above and below the address, and nothing more.
    pub proof fn lemma_window(above: usize, below: usize)
        ensures
            Self::spec_new(above, below).spec_above() == above,
            Self::spec_new(above, below).spec_below() == below,
            Self::spec_new(above, below).wf() <==> (above + below <= usize::MAX || (above
                == usize::MAX && below == usize::MAX)),
            Self::spec_unsized() == Self::spec_new(usize::MAX, usize::MAX),
            forall|other: Self| #[trigger]
                other.spec_above() == above && other.spec_below() == below ==> other
                    == Self::spec_new(above, below),
    {
    }

    /// Two moves in a row, each inside the window, leave the window that
    /// one move by their sum leaves, and that one move is inside it too.
    pub proof fn lemma_offset_composes(self, first: int, second: int)
        requires
            self.wf(),
            self.spec_check_boundary(first),
            self.spec_offset(first).spec_check_boundary(second),
        ensures
            self.spec_check_boundary(first + second),
            self.spec_offset(first).spec_offset(second) == self.spec_offset(first + second),
    {
    }
}

} // verus!
