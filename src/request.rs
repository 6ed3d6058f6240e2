use vstd::prelude::*;

use crate::address::{lemma_push_to_set, AddressSet, IpAddress};

verus! {

/// The default TTL of created records, in seconds.
pub const DEFAULT_RECORD_TTL: u32 = 300;

pub open spec fn is_decimal_digit(c: char) -> bool {
    '0' <= c && c <= '9'
}

/// The number that a string of decimal digits spells.
pub open spec fn digits_value(s: Seq<char>) -> int
    decreases s.len(),
{
    if s.len() == 0 {
        0
    } else {
        digits_value(s.drop_last()) * 10 + ((s.last() as u32) - ('0' as u32))
    }
}

/// An optional `+`, then one or more decimal digits whose value fits in a
/// `u32`; anything else spells no number.
pub open spec fn decimal_u32(s: Seq<char>) -> Option<u32> {
    let digits = if s.len() > 0 && s[0] == '+' {
        s.drop_first()
    } else {
        s
    };
    if digits.len() > 0 && (forall|i: int| 0 <= i < digits.len() ==> is_decimal_digit(#[trigger] digits[i]))
        && digits_value(digits) <= u32::MAX {
        Some(digits_value(digits) as u32)
    } else {
        None
    }
}

/// Relies on str::parse::<u32> (`u32::from_str`, radix 10): an optional
/// `+` and at least one ASCII digit, with a value that fits; else an error.
#[verifier::external_body]
fn parse_u32(s: &str) -> (r: Option<u32>)
    ensures
        r == decimal_u32(s@),
{
    s.parse::<u32>().ok()
}

pub open spec fn ttl_from(parsed: Option<u32>) -> u32 {
    match parsed {
        Some(v) => v,
        None => DEFAULT_RECORD_TTL,
    }
}

/// The configured TTL when it parsed, else the default.
pub fn ttl_or_default(parsed: Option<u32>) -> (r: u32)
    ensures
        r == ttl_from(parsed),
{
    match parsed {
        Some(v) => v,
        None => DEFAULT_RECORD_TTL,
    }
}

/// The TTL for created records: the configured value when there is one and
/// it parses as an unsigned number, else the default.
pub fn record_ttl(configured: Option<&str>) -> (r: u32)
    ensures
        configured is None ==> r == DEFAULT_RECORD_TTL,
        configured matches Some(s) ==> r == ttl_from(decimal_u32(s@)),
{
    match configured {
        None => DEFAULT_RECORD_TTL,
        Some(s) => ttl_or_default(parse_u32(s)),
    }
}

/// The addresses to publish: those of both request parameters together,
/// or, when both are empty, the address the request came from.
pub fn desired_addresses(ip: &Vec<IpAddress>, myip: &Vec<IpAddress>, client: IpAddress) -> (r:
    AddressSet)
    ensures
        r.wf(),
        ip@.len() + myip@.len() == 0 ==> r.items() == seq![client],
        ip@.len() + myip@.len() > 0 ==> r@ == ip@.to_set() + myip@.to_set(),
{
    let mut set = AddressSet::new();
    assert(ip@.take(0).to_set() =~= Set::<IpAddress>::empty());
    let mut i: usize = 0;
    while i < ip.len()
        invariant
            set.wf(),
            i <= ip@.len(),
            set@ == ip@.take(i as int).to_set(),
        decreases ip@.len() - i,
    {
        set.insert(ip[i]);
        assert(ip@.take(i + 1) =~= ip@.take(i as int).push(ip@[i as int]));
        proof {
            lemma_push_to_set(ip@.take(i as int), ip@[i as int]);
        }
        i = i + 1;
    }
    assert(ip@.take(ip@.len() as int) =~= ip@);
    assert(myip@.take(0).to_set() =~= Set::<IpAddress>::empty());
    assert(ip@.to_set() + Set::<IpAddress>::empty() =~= ip@.to_set());
    let mut j: usize = 0;
    while j < myip.len()
        invariant
            set.wf(),
            j <= myip@.len(),
            set@ == ip@.to_set() + myip@.take(j as int).to_set(),
        decreases myip@.len() - j,
    {
        set.insert(myip[j]);
        assert(myip@.take(j + 1) =~= myip@.take(j as int).push(myip@[j as int]));
        proof {
            lemma_push_to_set(myip@.take(j as int), myip@[j as int]);
        }
        assert(set@ =~= ip@.to_set() + myip@.take(j + 1).to_set());
        j = j + 1;
    }
    assert(myip@.take(myip@.len() as int) =~= myip@);
    if set.is_empty() {
        proof {
            if ip@.len() > 0 {
                assert(ip@.to_set().contains(ip@[0]));
                assert(set@.contains(ip@[0]));
            }
            if myip@.len() > 0 {
                assert(myip@.to_set().contains(myip@[0]));
                assert(set@.contains(myip@[0]));
            }
        }
        set.insert(client);
        assert(set.items() =~= seq![client]);
    } else {
        proof {
            if ip@.len() + myip@.len() == 0 {
                assert(set.items().len() > 0);
                assert(set@.contains(set.items()[0]));
                assert(!ip@.contains(set.items()[0]));
                assert(!myip@.contains(set.items()[0]));
            }
        }
        assert(set@ =~= ip@.to_set() + myip@.to_set());
    }
    set
}

/// A hostname and password pair.
#[derive(Debug)]
pub struct Credential {
    pub hostname: String,
    pub password: String,
}

/// Both parts come from one source: the Basic-auth header when the request
/// has one, else the request parameters.
pub fn pick_credential(basic: Option<Credential>, params: Credential) -> (r: Credential)
    ensures
        r == match basic {
            Some(c) => c,
            None => params,
        },
{
    match basic {
        Some(c) => c,
        None => params,
    }
}

} // verus!
