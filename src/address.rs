use vstd::prelude::*;

verus! {

/// An IP address. The family is part of the identity: a v4 address never
/// equals a v6 address.
#[derive(Clone, Copy, Debug, PartialEq, Eq, Structural, Hash)]
pub enum IpAddress {
    V4(u32),
    V6(u128),
}

impl IpAddress {
    /// Whether two addresses are the same address of the same family.
    pub fn same_as(&self, other: &IpAddress) -> (r: bool)
        ensures
            r == (*self == *other),
    {
        *self == *other
    }
}

/// A set of addresses without duplicates, kept in insertion order.
pub struct AddressSet {
    items: Vec<IpAddress>,
}

impl AddressSet {
    /// The addresses, in insertion order.
    pub closed spec fn items(&self) -> Seq<IpAddress> {
        self.items@
    }

    /// No address appears twice.
    pub open spec fn wf(&self) -> bool {
        self.items().no_duplicates()
    }

    pub open spec fn view(&self) -> Set<IpAddress> {
        self.items().to_set()
    }

    pub fn new() -> (r: AddressSet)
        ensures
            r.wf(),
            r.items() == Seq::<IpAddress>::empty(),
    {
        AddressSet { items: Vec::new() }
    }

    pub fn len(&self) -> (r: usize)
        ensures
            r == self.items().len(),
    {
        self.items.len()
    }

    pub fn is_empty(&self) -> (r: bool)
        ensures
            r == (self.items().len() == 0),
    {
        self.items.len() == 0
    }

    pub fn contains(&self, a: &IpAddress) -> (r: bool)
        ensures
            r == self.items().contains(*a),
    {
        contains_address(&self.items, a)
    }

    /// Adds `a` unless it is already present; returns whether it was added.
    pub fn insert(&mut self, a: IpAddress) -> (added: bool)
        requires
            old(self).wf(),
        ensures
            final(self).wf(),
            added == !old(self).items().contains(a),
            added ==> final(self).items() == old(self).items().push(a),
            !added ==> final(self).items() == old(self).items(),
            final(self)@ == old(self)@.insert(a),
    {
        proof {
            lemma_push_to_set(self.items@, a);
        }
        if contains_address(&self.items, &a) {
            false
        } else {
            self.items.push(a);
            true
        }
    }

    /// The addresses, in insertion order.
    pub fn to_vec(&self) -> (r: Vec<IpAddress>)
        ensures
            r@ == self.items(),
    {
        self.items.clone()
    }
}

/// Appending an item adds it to the set of items.
pub proof fn lemma_push_to_set(s: Seq<IpAddress>, a: IpAddress)
    ensures
        s.push(a).to_set() == s.to_set().insert(a),
        s.contains(a) ==> s.to_set().insert(a) == s.to_set(),
{
    assert forall|x: IpAddress| s.push(a).contains(x) <==> (s.contains(x) || x == a) by {
        if s.push(a).contains(x) {
            let k = choose|k: int| 0 <= k < s.push(a).len() && s.push(a)[k] == x;
            if k < s.len() {
                assert(s[k] == x);
            }
        }
        if s.contains(x) {
            let k = choose|k: int| 0 <= k < s.len() && s[k] == x;
            assert(s.push(a)[k] == x);
        }
        if x == a {
            assert(s.push(a)[s.len() as int] == x);
        }
    }
    assert forall|x: IpAddress| #[trigger] s.push(a).to_set().contains(x) == s.to_set().insert(
        a,
    ).contains(x) by {
        assert(s.push(a).contains(x) <==> (s.contains(x) || x == a));
    }
    assert(s.push(a).to_set() =~= s.to_set().insert(a));
    assert(s.contains(a) ==> s.to_set().insert(a) =~= s.to_set());
}

/// Linear search for an address.
pub fn contains_address(v: &Vec<IpAddress>, a: &IpAddress) -> (r: bool)
    ensures
        r == v@.contains(*a),
{
    let mut i: usize = 0;
    while i < v.len()
        invariant
            i <= v@.len(),
            forall|j: int| 0 <= j < i ==> v@[j] != *a,
        decreases v@.len() - i,
    {
        if v[i].same_as(a) {
            return true;
        }
        i = i + 1;
    }
    false
}

} // verus!
