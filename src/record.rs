use vstd::prelude::*;

use crate::address::IpAddress;

verus! {

/// What a record at the target name holds. Only `A` and `Aaaa` records take
/// part in reconciliation; every other kind is carried as `Other` and left
/// alone.
#[derive(Clone, Copy, Debug, PartialEq, Eq, Structural)]
pub enum RecordContent {
    A(u32),
    Aaaa(u128),
    Other,
}

impl RecordContent {
    pub open spec fn spec_address(self) -> Option<IpAddress> {
        match self {
            RecordContent::A(v) => Some(IpAddress::V4(v)),
            RecordContent::Aaaa(v) => Some(IpAddress::V6(v)),
            RecordContent::Other => None,
        }
    }

    /// The address of an address record; `None` for any other kind.
    pub fn address(&self) -> (r: Option<IpAddress>)
        ensures
            r == self.spec_address(),
    {
        match self {
            RecordContent::A(v) => Some(IpAddress::V4(*v)),
            RecordContent::Aaaa(v) => Some(IpAddress::V6(*v)),
            RecordContent::Other => None,
        }
    }

    /// The content that holds `a`: an `A` record for v4, `Aaaa` for v6.
    pub fn holding(a: IpAddress) -> (r: RecordContent)
        ensures
            r.spec_address() == Some(a),
    {
        match a {
            IpAddress::V4(v) => RecordContent::A(v),
            IpAddress::V6(v) => RecordContent::Aaaa(v),
        }
    }
}

/// A record that the zone holds at the target name.
#[derive(Debug, PartialEq, Eq)]
pub struct ExistingRecord {
    /// The provider's identifier of the record.
    pub id: String,
    pub name: String,
    pub ttl: u32,
    /// The provider's proxy flag; kept as it is on update.
    pub proxied: bool,
    pub content: RecordContent,
}

impl ExistingRecord {
    /// A field-by-field copy.
    pub fn copy(&self) -> (r: ExistingRecord)
        ensures
            r == *self,
    {
        ExistingRecord {
            id: self.id.clone(),
            name: self.name.clone(),
            ttl: self.ttl,
            proxied: self.proxied,
            content: self.content,
        }
    }
}

/// One write to the zone.
#[derive(Debug, PartialEq, Eq)]
pub enum ZoneOp {
    /// A new address record at `name`.
    Create { name: String, address: IpAddress, ttl: u32 },
    /// Replace the content of `record` by `address`, keeping its identifier,
    /// name, TTL and proxy flag.
    Update { record: ExistingRecord, address: IpAddress },
    /// Remove `record`.
    Delete { record: ExistingRecord },
}

} // verus!
