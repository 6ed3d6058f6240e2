use vstd::prelude::*;

use itertools::{EitherOrBoth, Itertools};

use crate::address::{contains_address, AddressSet, IpAddress};
use crate::record::{ExistingRecord, ZoneOp};

verus! {

/// The addresses held by the address records of `recs`.
pub open spec fn addresses_of(recs: Seq<ExistingRecord>) -> Set<IpAddress> {
    Set::new(
        |a: IpAddress|
            exists|i: int| 0 <= i < recs.len() && #[trigger] recs[i].content.spec_address() == Some(a),
    )
}

/// The desired addresses that no record holds, in their order in `d`.
pub open spec fn unserved(d: Seq<IpAddress>, held: Set<IpAddress>) -> Seq<IpAddress>
    decreases d.len(),
{
    if d.len() == 0 {
        Seq::empty()
    } else {
        let rest = unserved(d.drop_last(), held);
        if held.contains(d.last()) {
            rest
        } else {
            rest.push(d.last())
        }
    }
}

/// The address records whose address is not desired, in their order in
/// `recs`. Records of other kinds never appear.
pub open spec fn unclaimed(d: Set<IpAddress>, recs: Seq<ExistingRecord>) -> Seq<ExistingRecord>
    decreases recs.len(),
{
    if recs.len() == 0 {
        Seq::empty()
    } else {
        let prev = recs.drop_last();
        let rest = unclaimed(d, prev);
        match recs.last().content.spec_address() {
            None => rest,
            Some(a) => if d.contains(a) {
                rest
            } else {
                rest.push(recs.last())
            },
        }
    }
}

/// The write at position `i` when `adds` and `olds` are paired by position:
/// an update while both have an item, then creations or deletions for what
/// is left of the longer one.
pub open spec fn change_at(
    name: String,
    adds: Seq<IpAddress>,
    olds: Seq<ExistingRecord>,
    ttl: u32,
    i: int,
) -> ZoneOp {
    if i < adds.len() && i < olds.len() {
        ZoneOp::Update { record: olds[i], address: adds[i] }
    } else if i < adds.len() {
        ZoneOp::Create { name, address: adds[i], ttl }
    } else {
        ZoneOp::Delete { record: olds[i] }
    }
}

pub open spec fn longer(a: nat, b: nat) -> nat {
    if a < b { b } else { a }
}

pub open spec fn changes(
    name: String,
    adds: Seq<IpAddress>,
    olds: Seq<ExistingRecord>,
    ttl: u32,
) -> Seq<ZoneOp> {
    Seq::new(longer(adds.len(), olds.len()), |i: int| change_at(name, adds, olds, ttl, i))
}

/// The writes that bring the address records of `recs` in line with `d`.
pub open spec fn reconciliation(
    name: String,
    d: Seq<IpAddress>,
    recs: Seq<ExistingRecord>,
    ttl: u32,
) -> Seq<ZoneOp> {
    changes(name, unserved(d, addresses_of(recs)), unclaimed(d.to_set(), recs), ttl)
}

/// Whether an address record among the first `n` of `records` holds `a`.
fn held_among(records: &Vec<ExistingRecord>, n: usize, a: &IpAddress) -> (r: bool)
    requires
        n <= records@.len(),
    ensures
        r == addresses_of(records@.take(n as int)).contains(*a),
{
    let ghost pre = records@.take(n as int);
    let mut i: usize = 0;
    while i < n
        invariant
            n <= records@.len(),
            pre == records@.take(n as int),
            i <= n,
            forall|j: int| 0 <= j < i ==> records@[j].content.spec_address() != Some(*a),
        decreases n - i,
    {
        match records[i].content.address() {
            Some(b) => {
                if b.same_as(a) {
                    assert(pre[i as int].content.spec_address() == Some(*a));
                    return true;
                }
            },
            None => {},
        }
        i = i + 1;
    }
    assert(!addresses_of(pre).contains(*a)) by {
        assert forall|j: int| 0 <= j < pre.len() implies #[trigger] pre[j].content.spec_address()
            != Some(*a) by {
            assert(pre[j] == records@[j]);
        }
    }
    false
}

/// The desired addresses that no existing address record holds, in the
/// order of `desired`.
pub fn unmatched_addresses(desired: &AddressSet, records: &Vec<ExistingRecord>) -> (r: Vec<
    IpAddress,
>)
    ensures
        r@ == unserved(desired.items(), addresses_of(records@)),
{
    let ds = desired.to_vec();
    let ghost held = addresses_of(records@);
    assert(records@.take(records@.len() as int) =~= records@);
    let mut out: Vec<IpAddress> = Vec::new();
    let mut j: usize = 0;
    while j < ds.len()
        invariant
            ds@ == desired.items(),
            held == addresses_of(records@),
            records@.take(records@.len() as int) == records@,
            j <= ds@.len(),
            out@ == unserved(ds@.take(j as int), held),
        decreases ds@.len() - j,
    {
        let a = ds[j];
        assert(ds@.take(j + 1).drop_last() =~= ds@.take(j as int));
        if !held_among(records, records.len(), &a) {
            out.push(a);
        }
        j = j + 1;
    }
    assert(ds@.take(ds@.len() as int) =~= ds@);
    out
}

/// The address records that hold no desired address, in their order. A
/// record that holds a desired address is matched and never written, also
/// when another record holds the same address.
pub fn unmatched_records(desired: &AddressSet, records: &Vec<ExistingRecord>) -> (r: Vec<
    ExistingRecord,
>)
    ensures
        r@ == unclaimed(desired@, records@),
{
    let mut out: Vec<ExistingRecord> = Vec::new();
    let mut i: usize = 0;
    while i < records.len()
        invariant
            i <= records@.len(),
            out@ == unclaimed(desired@, records@.take(i as int)),
        decreases records@.len() - i,
    {
        let ghost cur = records@.take(i + 1);
        assert(cur.drop_last() =~= records@.take(i as int));
        assert(cur.last() == records@[i as int]);
        match records[i].content.address() {
            None => {},
            Some(a) => {
                if !desired.contains(&a) {
                    out.push(records[i].copy());
                }
            },
        }
        i = i + 1;
    }
    assert(records@.take(records@.len() as int) =~= records@);
    out
}

/// One position of a pairing by position.
enum Pairing {
    Both(IpAddress, ExistingRecord),
    Left(IpAddress),
    Right(ExistingRecord),
}

spec fn pairing_at(adds: Seq<IpAddress>, olds: Seq<ExistingRecord>, i: int) -> Pairing {
    if i < adds.len() && i < olds.len() {
        Pairing::Both(adds[i], olds[i])
    } else if i < adds.len() {
        Pairing::Left(adds[i])
    } else {
        Pairing::Right(olds[i])
    }
}

/// Relies on itertools::Itertools::zip_longest: items are paired by position
/// (`Both`) until the shorter side runs out, then the rest of the longer side
/// comes alone (`Left` for the first, `Right` for the second).
#[verifier::external_body]
fn pair_up(adds: Vec<IpAddress>, olds: Vec<ExistingRecord>) -> (r: Vec<Pairing>)
    ensures
        r@.len() == longer(adds@.len(), olds@.len()),
        forall|i: int| 0 <= i < r@.len() ==> #[trigger] r@[i] == pairing_at(adds@, olds@, i),
{
    adds.into_iter().zip_longest(olds).map(|p| match p {
        EitherOrBoth::Both(a, r) => Pairing::Both(a, r),
        EitherOrBoth::Left(a) => Pairing::Left(a),
        EitherOrBoth::Right(r) => Pairing::Right(r),
    }).collect()
}

/// Pairs the addresses to write with the records to rewrite by position:
/// updates while both remain, then creations at `name` with `ttl` for
/// leftover addresses, or deletions for leftover records.
pub fn plan_changes(name: &String, adds: Vec<IpAddress>, olds: Vec<ExistingRecord>, ttl: u32) -> (r:
    Vec<ZoneOp>)
    ensures
        r@ == changes(*name, adds@, olds@, ttl),
{
    let ghost a0 = adds@;
    let ghost o0 = olds@;
    let mut pairs = pair_up(adds, olds);
    let ghost p0 = pairs@;
    let n = pairs.len();
    let mut out: Vec<ZoneOp> = Vec::new();
    let mut k: usize = 0;
    while pairs.len() > 0
        invariant
            n == p0.len(),
            n == longer(a0.len(), o0.len()),
            forall|i: int| 0 <= i < n ==> #[trigger] p0[i] == pairing_at(a0, o0, i),
            k <= n,
            pairs@ == p0.subrange(k as int, n as int),
            out@.len() == k,
            forall|j: int| 0 <= j < k ==> #[trigger] out@[j] == change_at(*name, a0, o0, ttl, j),
        decreases pairs@.len(),
    {
        let p = pairs.remove(0);
        assert(p == p0[k as int]);
        let op = match p {
            Pairing::Both(a, r) => ZoneOp::Update { record: r, address: a },
            Pairing::Left(a) => ZoneOp::Create { name: name.clone(), address: a, ttl },
            Pairing::Right(r) => ZoneOp::Delete { record: r },
        };
        out.push(op);
        k = k + 1;
    }
    assert(out@ =~= changes(*name, a0, o0, ttl));
    out
}

/// The writes that make the address records at `name` hold exactly the
/// desired addresses: records that already hold a desired address are left
/// alone, the other records are rewritten with the remaining addresses or
/// deleted, and addresses left over are created with `ttl`.
pub fn plan_reconciliation(
    name: &String,
    desired: &AddressSet,
    records: &Vec<ExistingRecord>,
    ttl: u32,
) -> (r: Vec<ZoneOp>)
    ensures
        r@ == reconciliation(*name, desired.items(), records@, ttl),
{
    let adds = unmatched_addresses(desired, records);
    let olds = unmatched_records(desired, records);
    plan_changes(name, adds, olds, ttl)
}

} // verus!
