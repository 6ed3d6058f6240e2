use vstd::multiset::Multiset;
use vstd::prelude::*;

use crate::address::IpAddress;
use crate::reconcile::{
    addresses_of, change_at, changes, longer, reconciliation, unclaimed, unserved,
};
use crate::record::{ExistingRecord, ZoneOp};

verus! {

proof fn lemma_addresses_of_push(s: Seq<ExistingRecord>, r: ExistingRecord)
    ensures
        addresses_of(s.push(r)) == match r.content.spec_address() {
            None => addresses_of(s),
            Some(a) => addresses_of(s).insert(a),
        },
{
    let t = s.push(r);
    let expected = match r.content.spec_address() {
        None => addresses_of(s),
        Some(a) => addresses_of(s).insert(a),
    };
    assert forall|x: IpAddress| addresses_of(t).contains(x) == expected.contains(x) by {
        if addresses_of(t).contains(x) {
            let i = choose|i: int| 0 <= i < t.len() && #[trigger] t[i].content.spec_address() == Some(x);
            if i < s.len() {
                assert(s[i] == t[i]);
            }
        }
        if addresses_of(s).contains(x) {
            let i = choose|i: int| 0 <= i < s.len() && #[trigger] s[i].content.spec_address() == Some(x);
            assert(t[i] == s[i]);
        }
        if r.content.spec_address() == Some(x) {
            assert(t[s.len() as int] == r);
        }
    }
    assert(addresses_of(t) =~= expected);
}

proof fn lemma_drop_last_push<A>(s: Seq<A>)
    requires
        s.len() > 0,
    ensures
        s == s.drop_last().push(s.last()),
{
    assert(s =~= s.drop_last().push(s.last()));
}

/// An address is left over exactly when it is desired and no record holds it.
proof fn lemma_unserved_members(d: Seq<IpAddress>, held: Set<IpAddress>)
    ensures
        forall|x: IpAddress| #[trigger]
            unserved(d, held).contains(x) <==> (d.contains(x) && !held.contains(x)),
        d.no_duplicates() ==> unserved(d, held).no_duplicates(),
    decreases d.len(),
{
    if d.len() == 0 {
        assert forall|x: IpAddress| !d.contains(x) by {}
        assert(unserved(d, held) =~= Seq::<IpAddress>::empty());
    } else {
        let p = d.drop_last();
        let l = d.last();
        lemma_unserved_members(p, held);
        lemma_drop_last_push(d);
        assert forall|x: IpAddress| d.contains(x) <==> (p.contains(x) || x == l) by {
            if d.contains(x) {
                let k = choose|k: int| 0 <= k < d.len() && d[k] == x;
                if k < p.len() {
                    assert(p[k] == x);
                }
            }
            if p.contains(x) {
                let k = choose|k: int| 0 <= k < p.len() && p[k] == x;
                assert(d[k] == x);
            }
        }
        let rest = unserved(p, held);
        assert forall|x: IpAddress| #[trigger]
            unserved(d, held).contains(x) <==> (d.contains(x) && !held.contains(x)) by {
            assert(rest.contains(x) <==> (p.contains(x) && !held.contains(x)));
            if !held.contains(l) {
                if rest.push(l).contains(x) {
                    let k = choose|k: int| 0 <= k < rest.push(l).len() && rest.push(l)[k] == x;
                    if k < rest.len() {
                        assert(rest[k] == x);
                    }
                }
                if rest.contains(x) {
                    let k = choose|k: int| 0 <= k < rest.len() && rest[k] == x;
                    assert(rest.push(l)[k] == x);
                }
                assert(rest.push(l)[rest.len() as int] == l);
            }
        }
        if held.contains(l) {
            assert(unserved(d, held) == rest);
        } else {
            assert(unserved(d, held) == rest.push(l));
            assert forall|x: IpAddress| rest.push(l).contains(x) <==> (rest.contains(x) || x == l) by {
                if rest.push(l).contains(x) {
                    let k = choose|k: int| 0 <= k < rest.push(l).len() && rest.push(l)[k] == x;
                    if k < rest.len() {
                        assert(rest[k] == x);
                    }
                }
                if rest.contains(x) {
                    let k = choose|k: int| 0 <= k < rest.len() && rest[k] == x;
                    assert(rest.push(l)[k] == x);
                }
                assert(rest.push(l)[rest.len() as int] == l);
            }
            if d.no_duplicates() {
                assert(p.no_duplicates()) by {
                    assert forall|i: int, j: int| 0 <= i < p.len() && 0 <= j < p.len() && i != j implies p[i]
                        != p[j] by {
                        assert(p[i] == d[i] && p[j] == d[j]);
                    }
                }
                assert(!p.contains(l)) by {
                    if p.contains(l) {
                        let k = choose|k: int| 0 <= k < p.len() && p[k] == l;
                        assert(d[k] == d[d.len() - 1]);
                    }
                }
                assert(!rest.contains(l));
                assert forall|i: int, j: int|
                    0 <= i < rest.push(l).len() && 0 <= j < rest.push(l).len() && i != j implies rest.push(
                    l,
                )[i] != rest.push(l)[j] by {
                    if i < rest.len() && j < rest.len() {
                        assert(rest.push(l)[i] == rest[i] && rest.push(l)[j] == rest[j]);
                    } else if i < rest.len() {
                        assert(rest.push(l)[i] == rest[i]);
                    } else if j < rest.len() {
                        assert(rest.push(l)[j] == rest[j]);
                    }
                }
            }
        }
    }
}

/// Every record left unclaimed is an address record.
proof fn lemma_unclaimed_are_addresses(d: Set<IpAddress>, recs: Seq<ExistingRecord>)
    ensures
        forall|k: int|
            0 <= k < unclaimed(d, recs).len() ==> (#[trigger] unclaimed(d, recs)[k]).content.spec_address() is Some,
    decreases recs.len(),
{
    if recs.len() > 0 {
        lemma_unclaimed_are_addresses(d, recs.drop_last());
    }
}

/// A record is left unclaimed exactly when it is an address record whose
/// address is not desired.
proof fn lemma_unclaimed_members(d: Set<IpAddress>, recs: Seq<ExistingRecord>)
    ensures
        forall|r: ExistingRecord| #[trigger]
            unclaimed(d, recs).contains(r) <==> (recs.contains(r)
                && r.content.spec_address() is Some && !d.contains(r.content.spec_address()->0)),
    decreases recs.len(),
{
    if recs.len() > 0 {
        let p = recs.drop_last();
        let l = recs.last();
        lemma_unclaimed_members(d, p);
        lemma_drop_last_push(recs);
        let rest = unclaimed(d, p);
        assert forall|r: ExistingRecord| #[trigger] unclaimed(d, recs).contains(r) <==> (
        recs.contains(r) && r.content.spec_address() is Some && !d.contains(
            r.content.spec_address()->0,
        )) by {
            lemma_push_contains(p, l, r);
            lemma_push_contains(rest, l, r);
        }
    }
}

proof fn lemma_push_contains<A>(s: Seq<A>, a: A, x: A)
    ensures
        s.push(a).contains(x) <==> (s.contains(x) || x == a),
{
    if s.push(a).contains(x) {
        let k = choose|k: int| 0 <= k < s.push(a).len() && s.push(a)[k] == x;
        if k < s.len() {
            assert(s[k] == x);
        }
    }
    if s.contains(x) {
        let k = choose|k: int| 0 <= k < s.len() && s[k] == x;
        assert(s.push(a)[k] == x);
    }
    assert(s.push(a)[s.len() as int] == a);
}

/// The addresses held by the records left unclaimed are those held by some
/// record and not desired.
proof fn lemma_unclaimed_addresses(d: Set<IpAddress>, recs: Seq<ExistingRecord>)
    ensures
        addresses_of(unclaimed(d, recs)) == addresses_of(recs).difference(d),
{
    lemma_unclaimed_members(d, recs);
    let u = unclaimed(d, recs);
    assert forall|x: IpAddress| addresses_of(u).contains(x) == addresses_of(recs).difference(
        d,
    ).contains(x) by {
        if addresses_of(u).contains(x) {
            let i = choose|i: int| 0 <= i < u.len() && #[trigger] u[i].content.spec_address() == Some(x);
            assert(u.contains(u[i]));
            let j = choose|j: int| 0 <= j < recs.len() && recs[j] == u[i];
            assert(recs[j].content.spec_address() == Some(x));
        }
        if addresses_of(recs).difference(d).contains(x) {
            let j = choose|j: int| 0 <= j < recs.len() && #[trigger] recs[j].content.spec_address() == Some(x);
            assert(recs.contains(recs[j]));
            assert(u.contains(recs[j]));
            let i = choose|i: int| 0 <= i < u.len() && u[i] == recs[j];
            assert(u[i].content.spec_address() == Some(x));
        }
    }
    assert(addresses_of(u) =~= addresses_of(recs).difference(d));
}

/// Matching does not depend on the order of the records: the desired
/// addresses left over are exactly those that no record holds, each once;
/// the records left over are exactly the address records whose address is
/// not desired, so their addresses are exactly those held and not desired.
pub proof fn lemma_matching_complete(d: Seq<IpAddress>, recs: Seq<ExistingRecord>)
    requires
        d.no_duplicates(),
    ensures
        unserved(d, addresses_of(recs)).to_set() == d.to_set().difference(addresses_of(recs)),
        unserved(d, addresses_of(recs)).no_duplicates(),
        forall|r: ExistingRecord| #[trigger]
            unclaimed(d.to_set(), recs).contains(r) <==> (recs.contains(r)
                && r.content.spec_address() is Some && !d.contains(r.content.spec_address()->0)),
        addresses_of(unclaimed(d.to_set(), recs)) == addresses_of(recs).difference(d.to_set()),
{
    lemma_unserved_members(d, addresses_of(recs));
    assert(unserved(d, addresses_of(recs)).to_set() =~= d.to_set().difference(addresses_of(recs)));
    lemma_unclaimed_members(d.to_set(), recs);
    lemma_unclaimed_addresses(d.to_set(), recs);
}

/// When the desired addresses and the addresses the records hold are the
/// same set, reconciliation plans no write at all, whatever the number of
/// records that hold each address.
pub proof fn lemma_no_superfluous_writes(
    name: String,
    d: Seq<IpAddress>,
    recs: Seq<ExistingRecord>,
    ttl: u32,
)
    requires
        d.to_set() == addresses_of(recs),
    ensures
        reconciliation(name, d, recs, ttl).len() == 0,
{
    lemma_unserved_members(d, addresses_of(recs));
    lemma_unclaimed_addresses(d.to_set(), recs);
    let adds = unserved(d, addresses_of(recs));
    let olds = unclaimed(d.to_set(), recs);
    if adds.len() > 0 {
        assert(adds.contains(adds[0]));
        assert(d.to_set().contains(adds[0]));
    }
    if olds.len() > 0 {
        lemma_unclaimed_are_addresses(d.to_set(), recs);
        let a = olds[0].content.spec_address()->0;
        assert(addresses_of(olds).contains(a));
    }
    assert(longer(adds.len(), olds.len()) == 0);
}

/// The addresses of the address records, each counted as often as a record
/// holds it.
pub open spec fn address_counts(recs: Seq<ExistingRecord>) -> Multiset<IpAddress>
    decreases recs.len(),
{
    if recs.len() == 0 {
        Multiset::empty()
    } else {
        let m = address_counts(recs.drop_last());
        match recs.last().content.spec_address() {
            None => m,
            Some(a) => m.insert(a),
        }
    }
}

/// The address counts of a zone once the writes `ops` are made in order: a
/// creation adds its address, an update replaces the record's address by
/// its new one, a deletion removes the record's address.
pub open spec fn counts_after(m: Multiset<IpAddress>, ops: Seq<ZoneOp>) -> Multiset<IpAddress>
    decreases ops.len(),
{
    if ops.len() == 0 {
        m
    } else {
        let before = counts_after(m, ops.drop_last());
        match ops.last() {
            ZoneOp::Create { address, .. } => before.insert(address),
            ZoneOp::Update { record, address } => match record.content.spec_address() {
                Some(b) => before.remove(b).insert(address),
                None => before.insert(address),
            },
            ZoneOp::Delete { record } => match record.content.spec_address() {
                Some(b) => before.remove(b),
                None => before,
            },
        }
    }
}

pub open spec fn indicator(b: bool) -> int {
    if b {
        1
    } else {
        0
    }
}

/// The records left unclaimed hold, with their multiplicity, the addresses
/// that are not desired.
proof fn lemma_counts_split(d: Set<IpAddress>, recs: Seq<ExistingRecord>)
    ensures
        forall|x: IpAddress|
            #[trigger] address_counts(unclaimed(d, recs)).count(x) == if d.contains(x) {
                0
            } else {
                address_counts(recs).count(x)
            },
    decreases recs.len(),
{
    broadcast use vstd::multiset::group_multiset_axioms;

    if recs.len() > 0 {
        let p = recs.drop_last();
        let r = recs.last();
        lemma_counts_split(d, p);
        let rest = unclaimed(d, p);
        assert(rest.push(r).drop_last() =~= rest);
        assert(rest.push(r).last() == r);
        assert forall|x: IpAddress|
            #[trigger] address_counts(unclaimed(d, recs)).count(x) == if d.contains(x) {
                0
            } else {
                address_counts(recs).count(x)
            } by {
            assert(address_counts(rest).count(x) == if d.contains(x) {
                0
            } else {
                address_counts(p).count(x)
            });
            match r.content.spec_address() {
                None => {},
                Some(a) => {
                    if !d.contains(a) {
                        assert(address_counts(rest.push(r)) == address_counts(rest).insert(a));
                    }
                },
            }
        }
    }
}

/// An address is counted exactly when a record holds it.
proof fn lemma_counts_positive(recs: Seq<ExistingRecord>)
    ensures
        forall|x: IpAddress|
            #[trigger] address_counts(recs).count(x) > 0 <==> addresses_of(recs).contains(x),
    decreases recs.len(),
{
    broadcast use vstd::multiset::group_multiset_axioms;

    if recs.len() == 0 {
        assert forall|x: IpAddress| !addresses_of(recs).contains(x) by {}
    } else {
        let p = recs.drop_last();
        lemma_counts_positive(p);
        lemma_drop_last_push(recs);
        lemma_addresses_of_push(p, recs.last());
        assert forall|x: IpAddress|
            #[trigger] address_counts(recs).count(x) > 0 <==> addresses_of(recs).contains(x) by {
            assert(address_counts(p).count(x) > 0 <==> addresses_of(p).contains(x));
        }
    }
}

/// Counting the last record of a sequence that ends in an address record.
proof fn lemma_counts_drop_last(recs: Seq<ExistingRecord>)
    requires
        recs.len() > 0,
        recs.last().content.spec_address() is Some,
    ensures
        address_counts(recs) == address_counts(recs.drop_last()).insert(
            recs.last().content.spec_address()->0,
        ),
{
}

proof fn lemma_changes_drop_last(
    name: String,
    adds: Seq<IpAddress>,
    olds: Seq<ExistingRecord>,
    ttl: u32,
)
    requires
        longer(adds.len(), olds.len()) > 0,
    ensures
        ({
            let n = longer(adds.len(), olds.len());
            let a2 = if adds.len() < n { adds } else { adds.drop_last() };
            let o2 = if olds.len() < n { olds } else { olds.drop_last() };
            &&& changes(name, adds, olds, ttl).drop_last() == changes(name, a2, o2, ttl)
            &&& longer(a2.len(), o2.len()) == n - 1
        }),
{
    let n = longer(adds.len(), olds.len());
    let a2 = if adds.len() < n { adds } else { adds.drop_last() };
    let o2 = if olds.len() < n { olds } else { olds.drop_last() };
    assert(adds.len() < n ==> olds.len() == n);
    assert(longer(a2.len(), o2.len()) == n - 1);
    let lhs = changes(name, adds, olds, ttl).drop_last();
    let rhs = changes(name, a2, o2, ttl);
    assert forall|i: int| 0 <= i < n - 1 implies lhs[i] == rhs[i] by {
        assert(lhs[i] == change_at(name, adds, olds, ttl, i));
        assert(rhs[i] == change_at(name, a2, o2, ttl, i));
        if i < adds.len() {
            assert(a2[i] == adds[i]);
        }
        if i < olds.len() {
            assert(o2[i] == olds[i]);
        }
    }
    assert(lhs =~= rhs);
}

/// Making the writes takes away the addresses of the rewritten records and
/// adds the new addresses.
proof fn lemma_counts_after_changes(
    m: Multiset<IpAddress>,
    name: String,
    adds: Seq<IpAddress>,
    olds: Seq<ExistingRecord>,
    ttl: u32,
)
    requires
        forall|k: int| 0 <= k < olds.len() ==> (#[trigger] olds[k]).content.spec_address() is Some,
        forall|x: IpAddress| address_counts(olds).count(x) <= #[trigger] m.count(x),
    ensures
        forall|x: IpAddress|
            #[trigger] counts_after(m, changes(name, adds, olds, ttl)).count(x) == m.count(x)
                - address_counts(olds).count(x) + adds.to_multiset().count(x),
    decreases longer(adds.len(), olds.len()),
{
    broadcast use vstd::multiset::group_multiset_axioms;
    broadcast use vstd::seq_lib::group_to_multiset_ensures;

    let n = longer(adds.len(), olds.len());
    let ops = changes(name, adds, olds, ttl);
    if n == 0 {
        assert(adds =~= Seq::<IpAddress>::empty());
        assert(olds =~= Seq::<ExistingRecord>::empty());
        assert(ops.len() == 0);
    } else {
        let a2 = if adds.len() < n { adds } else { adds.drop_last() };
        let o2 = if olds.len() < n { olds } else { olds.drop_last() };
        lemma_changes_drop_last(name, adds, olds, ttl);
        if olds.len() == n {
            lemma_drop_last_push(olds);
            assert(olds.last() == olds[n - 1]);
            lemma_counts_drop_last(olds);
        }
        if adds.len() == n {
            lemma_drop_last_push(adds);
        }
        assert forall|k: int| 0 <= k < o2.len() implies (#[trigger] o2[k]).content.spec_address() is Some by {
            assert(o2[k] == olds[k]);
        }
        assert forall|x: IpAddress| address_counts(o2).count(x) <= #[trigger] m.count(x) by {
            assert(address_counts(o2).count(x) <= address_counts(olds).count(x));
        }
        lemma_counts_after_changes(m, name, a2, o2, ttl);
        assert(ops.last() == change_at(name, adds, olds, ttl, n - 1));
        let before = counts_after(m, ops.drop_last());
        assert forall|x: IpAddress| #[trigger] counts_after(m, ops).count(x) == m.count(x)
            - address_counts(olds).count(x) + adds.to_multiset().count(x) by {
            assert(before.count(x) == m.count(x) - address_counts(o2).count(x)
                + a2.to_multiset().count(x));
            if olds.len() == n {
                let b = olds[n - 1].content.spec_address()->0;
                assert(before.count(b) >= 1) by {
                    assert(address_counts(olds).count(b) == address_counts(o2).count(b) + 1);
                    assert(address_counts(olds).count(b) <= m.count(b));
                }
            }
        }
    }
}

/// Counting the leftover desired addresses.
proof fn lemma_unserved_counts(d: Seq<IpAddress>, held: Set<IpAddress>)
    requires
        d.no_duplicates(),
    ensures
        forall|x: IpAddress|
            #[trigger] unserved(d, held).to_multiset().count(x) == indicator(
                d.contains(x) && !held.contains(x),
            ),
{
    broadcast use vstd::multiset::group_multiset_axioms;
    broadcast use vstd::seq_lib::group_to_multiset_ensures;

    lemma_unserved_members(d, held);
    let u = unserved(d, held);
    u.lemma_multiset_has_no_duplicates();
    assert forall|x: IpAddress| #[trigger] u.to_multiset().count(x) == indicator(
        d.contains(x) && !held.contains(x),
    ) by {
        assert(u.contains(x) <==> u.to_multiset().count(x) > 0);
    }
}

/// Reconciling twice changes nothing the second time: once the writes of a
/// first run are made, and nothing else changes the zone, a second run with
/// the same desired addresses plans no write. The second run may list the
/// records in any order and with any identifiers, TTLs and flags; only the
/// addresses they hold matter.
pub proof fn lemma_idempotent(
    name: String,
    d: Seq<IpAddress>,
    recs: Seq<ExistingRecord>,
    ttl: u32,
    again: Seq<ExistingRecord>,
)
    requires
        d.no_duplicates(),
        address_counts(again) == counts_after(
            address_counts(recs),
            reconciliation(name, d, recs, ttl),
        ),
    ensures
        reconciliation(name, d, again, ttl).len() == 0,
{
    broadcast use vstd::multiset::group_multiset_axioms;

    let big_d = d.to_set();
    let e = addresses_of(recs);
    let u = unclaimed(big_d, recs);
    let adds = unserved(d, e);
    let m = address_counts(recs);
    lemma_counts_split(big_d, recs);
    lemma_counts_positive(recs);
    lemma_unclaimed_are_addresses(big_d, recs);
    lemma_unserved_counts(d, e);
    lemma_counts_after_changes(m, name, adds, u, ttl);
    // After the first run every desired address is held, and no other.
    assert forall|x: IpAddress| #[trigger] address_counts(again).count(x) > 0 <==> d.contains(x) by {
        assert(adds.to_multiset().count(x) == indicator(d.contains(x) && !e.contains(x)));
        assert(m.count(x) > 0 <==> e.contains(x));
    }
    let e2 = addresses_of(again);
    let u2 = unclaimed(big_d, again);
    lemma_counts_positive(again);
    lemma_counts_split(big_d, again);
    lemma_unclaimed_are_addresses(big_d, again);
    assert forall|x: IpAddress| #[trigger] e2.contains(x) <==> d.contains(x) by {
        assert(address_counts(again).count(x) > 0 <==> e2.contains(x));
    }
    if u2.len() > 0 {
        let b = u2.last().content.spec_address()->0;
        assert(u2.last() == u2[u2.len() - 1]);
        lemma_counts_drop_last(u2);
        assert(address_counts(u2).count(b) > 0);
    }
    let adds2 = unserved(d, e2);
    lemma_unserved_members(d, e2);
    if adds2.len() > 0 {
        assert(adds2.contains(adds2[0]));
    }
}

} // verus!
