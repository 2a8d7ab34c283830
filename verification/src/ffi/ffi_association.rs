use vstd::prelude::*;

verus! {

/// The relations that tie a dependent to its owner.
#[derive(Clone, Copy, Debug, PartialEq, Eq, Structural)]
pub enum AssociationName {
    /// A reference over the box that it was made from.
    RefInner,
    /// A reference over the library whose symbol it is.
    SymInner,
}

/// One tie: under `name`, `dependent` keeps `owner`.
#[derive(Clone, Copy, Debug)]
struct Association {
    name: AssociationName,
    dependent: u64,
    owner: u64,
}

/// The registry of ties. Under one name a dependent keeps one owner; an
/// owner that some dependent keeps must not be destroyed.
#[derive(Debug)]
pub struct FfiAssociation {
    ties: Vec<Association>,
}

/// The owner that the latest tie of `ties` gives `dependent` under `name`.
spec fn owner_in(ties: Seq<Association>, name: AssociationName, dependent: u64) -> Option<
    u64,
>
    decreases ties.len(),
{
    if ties.len() == 0 {
        None
    } else if ties.last().name == name && ties.last().dependent == dependent {
        Some(ties.last().owner)
    } else {
        owner_in(ties.drop_last(), name, dependent)
    }
}

/// An owner that is found stands in one of the ties.
proof fn lemma_owner_in_tie(ties: Seq<Association>, name: AssociationName, dependent: u64)
    requires
        owner_in(ties, name, dependent) is Some,
    ensures
        exists|i: int|
            0 <= i < ties.len() && #[trigger] ties[i].name == name && ties[i].dependent
                == dependent && Some(ties[i].owner) == owner_in(ties, name, dependent),
    decreases ties.len(),
{
    if ties.last().name == name && ties.last().dependent == dependent {
        assert(ties[ties.len() - 1].name == name);
    } else {
        lemma_owner_in_tie(ties.drop_last(), name, dependent);
        let i = choose|i: int|
            0 <= i < ties.drop_last().len() && #[trigger] ties.drop_last()[i].name == name
                && ties.drop_last()[i].dependent == dependent && Some(ties.drop_last()[i].owner)
                == owner_in(ties.drop_last(), name, dependent);
        assert(ties[i].name == name);
    }
}

/// The owner of each dependent under each name, as `ties` give it.
spec fn owners_of(ties: Seq<Association>) -> Map<(AssociationName, u64), u64> {
    Map::new(
        |key: (AssociationName, u64)| owner_in(ties, key.0, key.1) is Some,
        |key: (AssociationName, u64)| owner_in(ties, key.0, key.1)->0,
    )
}

/// One more tie sets the owner of its dependent and of no other.
proof fn lemma_owners_of_push(ties: Seq<Association>, tie: Association)
    ensures
        owners_of(ties.push(tie)) == owners_of(ties).insert((tie.name, tie.dependent), tie.owner),
{
    let longer = ties.push(tie);
    assert(longer.drop_last() =~= ties);
    assert(longer.last() == tie);
    assert(owners_of(longer) =~= owners_of(ties).insert((tie.name, tie.dependent), tie.owner));
}

impl View for FfiAssociation {
    type V = Map<(AssociationName, u64), u64>;

    closed spec fn view(&self) -> Map<(AssociationName, u64), u64> {
        owners_of(self.ties@)
    }
}

/// The ties after `to` has taken over, under each name, the owner that
/// `from` keeps under it.
pub open spec fn spec_inherit(
    ties: Map<(AssociationName, u64), u64>,
    from: u64,
    to: u64,
) -> Map<(AssociationName, u64), u64> {
    let with_ref = if ties.contains_key((AssociationName::RefInner, from)) {
        ties.insert((AssociationName::RefInner, to), ties[(AssociationName::RefInner, from)])
    } else {
        ties
    };
    if ties.contains_key((AssociationName::SymInner, from)) {
        with_ref.insert((AssociationName::SymInner, to), ties[(AssociationName::SymInner, from)])
    } else {
        with_ref
    }
}

impl FfiAssociation {
    /// Whether some dependent keeps `owner`.
    pub open spec fn spec_is_kept(&self, owner: u64) -> bool {
        exists|key: (AssociationName, u64)| #[trigger] self@.contains_key(key) && self@[key] == owner
    }

    /// The registry without a tie.
    pub fn new() -> (registry: Self)
        ensures
            registry@ == Map::<(AssociationName, u64), u64>::empty(),
    {
        let registry = FfiAssociation { ties: Vec::new() };
        assert(registry@ =~= Map::<(AssociationName, u64), u64>::empty());
        registry
    }

    /// The owner that the latest tie gives `dependent` under `name`.
    fn lookup(&self, name: AssociationName, dependent: u64) -> (owner: Option<u64>)
        ensures
            owner == owner_in(self.ties@, name, dependent),
    {
        let mut i: usize = self.ties.len();
        assert(self.ties@.subrange(0, i as int) =~= self.ties@);
        while i > 0
            invariant
                i <= self.ties@.len(),
                owner_in(self.ties@, name, dependent) == owner_in(
                    self.ties@.subrange(0, i as int),
                    name,
                    dependent,
                ),
            decreases i,
        {
            i = i - 1;
            let tie = self.ties[i];
            proof {
                let seen = self.ties@.subrange(0, i as int + 1);
                assert(seen.last() == tie);
                assert(seen.drop_last() =~= self.ties@.subrange(0, i as int));
            }
            if tie.name == name && tie.dependent == dependent {
                return Some(tie.owner);
            }
        }
        None
    }

    /// The owner that `dependent` keeps under `name`, if it keeps one.
    pub fn get_association(&self, name: AssociationName, dependent: u64) -> (owner: Option<u64>)
        ensures
            owner == if self@.contains_key((name, dependent)) {
                Some(self@[(name, dependent)])
            } else {
                None
            },
    {
        self.lookup(name, dependent)
    }

    /// Takes from `dependent` the owner that it keeps under `name`.
    pub fn remove_association(&mut self, name: AssociationName, dependent: u64)
        ensures
            final(self)@ == old(self)@.remove((name, dependent)),
    {
        let mut kept: Vec<Association> = Vec::new();
        let mut i: usize = 0;
        while i < self.ties.len()
            invariant
                i <= self.ties@.len(),
                owner_in(kept@, name, dependent) is None,
                forall|other: AssociationName, d: u64|
                    !(other == name && d == dependent) ==> #[trigger] owner_in(kept@, other, d)
                        == owner_in(self.ties@.subrange(0, i as int), other, d),
            decreases self.ties@.len() - i,
        {
            let tie = self.ties[i];
            let ghost kept_before = kept@;
            if !(tie.name == name && tie.dependent == dependent) {
                kept.push(tie);
            }
            proof {
                let seen = self.ties@.subrange(0, i as int + 1);
                assert(seen.last() == tie);
                assert(seen.drop_last() =~= self.ties@.subrange(0, i as int));
                if kept@ != kept_before {
                    assert(kept@.drop_last() =~= kept_before);
                    assert(kept@.last() == tie);
                }
                assert forall|other: AssociationName, d: u64|
                    !(other == name && d == dependent) implies #[trigger] owner_in(
                    kept@,
                    other,
                    d,
                ) == owner_in(seen, other, d) by {
                    assert(owner_in(kept_before, other, d) == owner_in(
                        self.ties@.subrange(0, i as int),
                        other,
                        d,
                    ));
                }
            }
            i = i + 1;
        }
        proof {
            assert(self.ties@.subrange(0, self.ties@.len() as int) =~= self.ties@);
        }
        let ghost before = self@;
        self.ties = kept;
        assert(self@ =~= before.remove((name, dependent)));
    }

    /// Makes `owner` the one that `dependent` keeps under `name`, in place
    /// of the one that it kept before.
    pub fn set_association(&mut self, name: AssociationName, dependent: u64, owner: u64)
        ensures
            final(self)@ == old(self)@.insert((name, dependent), owner),
    {
        let ghost before = self@;
        self.remove_association(name, dependent);
        let tie = Association { name, dependent, owner };
        proof {
            lemma_owners_of_push(self.ties@, tie);
        }
        self.ties.push(tie);
        assert(self@ =~= before.insert((name, dependent), owner));
    }

    /// Lets `to` keep what `from` keeps: a reference that was made from
    /// another one lives on the same owner.
    pub fn inherit(&mut self, from: u64, to: u64)
        ensures
            final(self)@ == spec_inherit(old(self)@, from, to),
    {
        let kept_ref = self.get_association(AssociationName::RefInner, from);
        let kept_sym = self.get_association(AssociationName::SymInner, from);
        if let Some(owner) = kept_ref {
            self.set_association(AssociationName::RefInner, to, owner);
        }
        if let Some(owner) = kept_sym {
            self.set_association(AssociationName::SymInner, to, owner);
        }
    }

    /// Whether some dependent keeps `owner`, so that it must stay.
    #[verifier::when_used_as_spec(spec_is_kept)]
    pub fn is_kept(&self, owner: u64) -> (kept: bool)
        ensures
            kept == self.spec_is_kept(owner),
    {
        let mut i: usize = 0;
        while i < self.ties.len()
            invariant
                i <= self.ties@.len(),
                forall|j: int|
                    0 <= j < i && (#[trigger] self.ties@[j]).owner == owner ==> owner_in(
                        self.ties@,
                        self.ties@[j].name,
                        self.ties@[j].dependent,
                    ) != Some(owner),
            decreases self.ties@.len() - i,
        {
            let tie = self.ties[i];
            if tie.owner == owner {
                let current = self.lookup(tie.name, tie.dependent);
                if current == Some(owner) {
                    assert(self@.contains_key((tie.name, tie.dependent)));
                    return true;
                }
            }
            i = i + 1;
        }
        proof {
            if self.spec_is_kept(owner) {
                let key = choose|key: (AssociationName, u64)| #[trigger]
                    self@.contains_key(key) && self@[key] == owner;
                lemma_owner_in_tie(self.ties@, key.0, key.1);
                let j = choose|j: int|
                    0 <= j < self.ties@.len() && #[trigger] self.ties@[j].name == key.0
                        && self.ties@[j].dependent == key.1 && Some(self.ties@[j].owner)
                        == owner_in(self.ties@, key.0, key.1);
                assert(self.ties@[j].owner == owner);
            }
        }
        false
    }

    /// While a tie stands, its owner is kept.
    pub proof fn lemma_tied_owner_is_kept(&self, name: AssociationName, dependent: u64)
        requires
            self@.contains_key((name, dependent)),
        ensures
            self.spec_is_kept(self@[(name, dependent)]),
    {
    }
}

} // verus!
