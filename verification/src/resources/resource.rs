//! Identifiers of commodity types.

use vstd::prelude::*;
use core::cmp::Ordering;
use once_cell::sync::OnceCell;
use vstd::std_specs::cmp::PartialOrdSpec;

verus! {

/// The integer type that carries a resource identifier.
pub type ResourceIDInnerType = u16;

/// Identifier of one commodity type: a small integer that is never zero.
/// Zero is kept free to stand for "no resource". Identifiers are ordered as
/// their integers are.
#[derive(Debug, Clone, Copy, PartialEq, Eq, Structural, Ord, Hash)]
pub struct ResourceID(ResourceIDInnerType);

impl PartialOrd for ResourceID {
    /// How the two identifiers compare: as their integers do.
    fn partial_cmp(&self, other: &Self) -> (ordering: Option<Ordering>) {
        if self.0 < other.0 {
            Some(Ordering::Less)
        } else if self.0 == other.0 {
            Some(Ordering::Equal)
        } else {
            Some(Ordering::Greater)
        }
    }
}

impl vstd::std_specs::cmp::PartialOrdSpecImpl for ResourceID {
    open spec fn obeys_partial_cmp_spec() -> bool {
        true
    }

    open spec fn partial_cmp_spec(&self, other: &Self) -> Option<Ordering> {
        if self.inner() < other.inner() {
            Some(Ordering::Less)
        } else if self.inner() == other.inner() {
            Some(Ordering::Equal)
        } else {
            Some(Ordering::Greater)
        }
    }
}

impl ResourceID {
    /// The identifier as an integer.
    pub closed spec fn inner(self) -> ResourceIDInnerType {
        self.0
    }

    /// The identifier that stands for the integer `value`.
    pub closed spec fn of(value: ResourceIDInnerType) -> Self {
        ResourceID(value)
    }

    /// An identifier and its integer stand for each other.
    pub broadcast proof fn lemma_of_inner(self)
        ensures
            #[trigger] Self::of(self.inner()) == self,
    {
    }

    /// An integer and its identifier stand for each other.
    pub broadcast proof fn lemma_inner_of(value: ResourceIDInnerType)
        ensures
            #[trigger] Self::of(value).inner() == value,
    {
    }

    /// Identifiers are equal exactly when their integers are, and one comes
    /// before another exactly when its integer is the smaller: the order is
    /// total.
    pub proof fn lemma_ordered_as_integers(self, other: Self)
        ensures
            self == other <==> self.inner() == other.inner(),
            self.partial_cmp_spec(&other) == Some(Ordering::Less) <==> self.inner() < other.inner(),
            self.partial_cmp_spec(&other) == Some(Ordering::Equal) <==> self == other,
            self.partial_cmp_spec(&other) == Some(Ordering::Greater) <==> self.inner() > other.inner(),
    {
    }

    #[verifier::type_invariant]
    spec fn nonzero(self) -> bool {
        self.0 != 0
    }

    /// The identifier as an integer, which is never zero and gives the
    /// identifier back.
    pub fn into_inner(&self) -> (value: ResourceIDInnerType)
        ensures
            value == self.inner(),
            value != 0,
            Self::of(value) == *self,
    {
        proof {
            use_type_invariant(self);
        }
        self.0
    }

    /// The identifier for `value`, or `None` for zero.
    pub fn try_from_inner(value: ResourceIDInnerType) -> (id: Option<Self>)
        ensures
            value == 0 <==> id is None,
            id matches Some(r) ==> r == Self::of(value),
    {
        if value == 0 {
            None
        } else {
            Some(Self(value))
        }
    }

    /// The identifier for `value`, which must not be zero.
    pub fn from_inner_unchecked(value: ResourceIDInnerType) -> (id: Self)
        requires
            value != 0,
        ensures
            id == Self::of(value),
    {
        Self(value)
    }
}

/// The counter has handed out every identifier there is.
#[derive(Debug, Clone, Copy, PartialEq, Eq, Structural)]
pub struct ResourceIDExhaustion;

/// The counter from which commodity types draw their identifiers: 1, 2, 3
/// and so on, each once.
pub struct ResourceCounter {
    issued: ResourceIDInnerType,
}

impl ResourceCounter {
    /// How many identifiers have been handed out.
    pub closed spec fn issued(&self) -> nat {
        self.issued as nat
    }

    /// A counter never counts beyond the identifiers there are.
    pub proof fn lemma_issued_bounded(&self)
        ensures
            self.issued() <= ResourceIDInnerType::MAX,
    {
    }

    /// A counter that has handed out nothing yet.
    pub fn new() -> (counter: Self)
        ensures
            counter.issued() == 0,
    {
        Self { issued: 0 }
    }

    /// Hands out the next identifier, which is one more than the number
    /// handed out before. Once every identifier is taken the counter refuses
    /// and stays as it is.
    pub fn allocate(&mut self) -> (allocated: Result<ResourceID, ResourceIDExhaustion>)
        ensures
            old(self).issued() <= ResourceIDInnerType::MAX,
            final(self).issued() <= ResourceIDInnerType::MAX,
            old(self).issued() == ResourceIDInnerType::MAX <==> allocated is Err,
            allocated is Err ==> final(self).issued() == old(self).issued(),
            allocated matches Ok(id) ==> {
                &&& id == ResourceID::of((old(self).issued() + 1) as ResourceIDInnerType)
                &&& id.inner() == old(self).issued() + 1
                &&& final(self).issued() == old(self).issued() + 1
            },
    {
        match self.issued.checked_add(1) {
            Some(next) => {
                self.issued = next;
                Ok(ResourceID(next))
            },
            None => Err(ResourceIDExhaustion),
        }
    }
}

/// The name under which a commodity type is known.
#[derive(Debug, Clone, Copy)]
pub struct ResourceUUID(&'static str);

impl View for ResourceUUID {
    type V = Seq<char>;

    closed spec fn view(&self) -> Seq<char> {
        self.0@
    }
}

impl ResourceUUID {
    /// The name `name`.
    pub fn new(name: &'static str) -> (uuid: Self)
        ensures
            uuid@ == name@,
    {
        Self(name)
    }

    /// The name as text.
    pub fn as_str(&self) -> (name: &'static str)
        ensures
            name@ == self@,
    {
        self.0
    }
}

/// `OnceCell` of `once_cell::sync`: a cell that can be filled once, through
/// a shared reference. Nothing of what it holds is visible to proofs.
#[verifier::external_type_specification]
#[verifier::external_body]
#[verifier::reject_recursive_types(T)]
pub struct ExOnceCell<T>(OnceCell<T>);

/// `OnceCell::new` of `once_cell::sync`: a cell that holds nothing yet.
#[verifier::external_body]
fn cell_new() -> OnceCell<ResourceID> {
    OnceCell::new()
}

/// `OnceCell::get` of `once_cell::sync`: a copy of what the cell holds, if it
/// holds anything. Nothing is claimed of the answer, which depends on what
/// other holders of the cell have done.
#[verifier::external_body]
fn cell_get(cell: &OnceCell<ResourceID>) -> Option<ResourceID> {
    cell.get().copied()
}

/// `OnceCell::get_or_init` of `once_cell::sync`, with `value` as what an
/// empty cell is filled with: a copy of what the cell holds after the call.
/// Nothing is claimed of the answer: the cell may have been filled before.
#[verifier::external_body]
fn cell_get_or_init(cell: &OnceCell<ResourceID>, value: ResourceID) -> ResourceID {
    *cell.get_or_init(|| value)
}

/// A commodity type. It gets its identifier when it is first asked for it,
/// and keeps it from then on.
pub struct ResourceType {
    id: OnceCell<ResourceID>,
    uuid: ResourceUUID,
}

impl ResourceType {
    /// A commodity type named `name` that has no identifier yet.
    pub fn new(name: &'static str) -> (resource: Self)
        ensures
            resource.uuid()@ == name@,
    {
        Self { id: cell_new(), uuid: ResourceUUID::new(name) }
    }

    /// The name of the type.
    #[verifier::when_used_as_spec(spec_uuid)]
    pub fn uuid(&self) -> (uuid: ResourceUUID)
        ensures
            uuid == self.spec_uuid(),
    {
        self.uuid
    }

    /// The name of the type.
    pub closed spec fn spec_uuid(&self) -> ResourceUUID {
        self.uuid
    }

    /// The identifier for a type that holds `held`: the one it holds, with
    /// the counter left alone, or else the next one of `counter`, which is one
    /// more than the number handed out before. Fails exactly when a new
    /// identifier is needed and the counter has none left, and then the
    /// counter stays as it is, so that no identifier is handed out twice.
    pub fn id_for(held: Option<ResourceID>, counter: &mut ResourceCounter) -> (id: Result<
        ResourceID,
        ResourceIDExhaustion,
    >)
        ensures
            held matches Some(known) ==> {
                &&& id == Ok::<ResourceID, ResourceIDExhaustion>(known)
                &&& final(counter).issued() == old(counter).issued()
            },
            held is None ==> (old(counter).issued() == ResourceIDInnerType::MAX <==> id is Err),
            held is None && id is Err ==> final(counter).issued() == old(counter).issued(),
            held is None ==> (id matches Ok(fresh) ==> {
                &&& fresh == ResourceID::of((old(counter).issued() + 1) as ResourceIDInnerType)
                &&& fresh.inner() == old(counter).issued() + 1
                &&& final(counter).issued() == old(counter).issued() + 1
            }),
    {
        match held {
            Some(known) => Ok(known),
            None => counter.allocate(),
        }
    }

    /// The identifier of the type. A type that has none yet draws the next
    /// one from `counter`, which is the only case in which the counter
    /// moves; a type that has one leaves the counter alone. Fails only when a
    /// new identifier is needed and the counter has none left.
    pub fn id(&self, counter: &mut ResourceCounter) -> (id: Result<ResourceID, ResourceIDExhaustion>)
        ensures
            id is Err ==> old(counter).issued() == ResourceIDInnerType::MAX,
            final(counter).issued() == old(counter).issued() || (id is Ok && final(counter).issued() == old(
                counter,
            ).issued() + 1),
    {
        let held = cell_get(&self.id);
        match Self::id_for(held, counter) {
            Ok(id) => if held.is_some() {
                Ok(id)
            } else {
                Ok(cell_get_or_init(&self.id, id))
            },
            Err(exhausted) => Err(exhausted),
        }
    }
}

} // verus!
