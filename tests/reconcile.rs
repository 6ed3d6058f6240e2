use ddns::reconcile::{plan_reconciliation, unmatched_addresses, unmatched_records};
use ddns::request::{record_ttl, DEFAULT_RECORD_TTL};
use ddns::{AddressSet, ExistingRecord, IpAddress, RecordContent, ZoneOp};

fn v4(a: u8, b: u8, c: u8, d: u8) -> IpAddress {
    IpAddress::V4(u32::from_be_bytes([a, b, c, d]))
}

fn v6_doc() -> IpAddress {
    // 2001:db8::1
    IpAddress::V6(0x2001_0db8_0000_0000_0000_0000_0000_0001)
}

fn record(id: &str, content: RecordContent) -> ExistingRecord {
    ExistingRecord {
        id: id.to_string(),
        name: "host.example.com".to_string(),
        ttl: 300,
        proxied: false,
        content,
    }
}

fn a_record(id: &str, addr: IpAddress) -> ExistingRecord {
    record(id, RecordContent::holding(addr))
}

fn set_of(addrs: &[IpAddress]) -> AddressSet {
    let mut s = AddressSet::new();
    for a in addrs {
        s.insert(*a);
    }
    s
}

fn name() -> String {
    "host.example.com".to_string()
}

/// Applies the writes to a list of records, as the provider would.
fn apply(records: Vec<ExistingRecord>, ops: Vec<ZoneOp>) -> Vec<ExistingRecord> {
    let mut zone = records;
    let mut next_id = 0;
    for op in ops {
        match op {
            ZoneOp::Create { name, address, ttl } => {
                next_id += 1;
                zone.push(ExistingRecord {
                    id: format!("new{next_id}"),
                    name,
                    ttl,
                    proxied: false,
                    content: RecordContent::holding(address),
                });
            }
            ZoneOp::Update { record, address } => {
                for r in zone.iter_mut() {
                    if r.id == record.id {
                        r.content = RecordContent::holding(address);
                    }
                }
            }
            ZoneOp::Delete { record } => zone.retain(|r| r.id != record.id),
        }
    }
    zone
}

#[test]
fn matching_record_needs_no_write() {
    let records = vec![a_record("r1", v4(1, 2, 3, 4))];
    let ops = plan_reconciliation(&name(), &set_of(&[v4(1, 2, 3, 4)]), &records, 300);
    assert!(ops.is_empty());
}

#[test]
fn changed_address_updates_record_in_place() {
    let records = vec![a_record("r1", v4(1, 2, 3, 4))];
    let ops = plan_reconciliation(&name(), &set_of(&[v4(5, 6, 7, 8)]), &records, 300);
    assert_eq!(
        ops,
        vec![ZoneOp::Update { record: a_record("r1", v4(1, 2, 3, 4)), address: v4(5, 6, 7, 8) }]
    );
    match &ops[0] {
        ZoneOp::Update { record, .. } => {
            assert_eq!(record.ttl, 300);
            assert!(!record.proxied);
            assert_eq!(record.id, "r1");
        }
        _ => panic!("expected an update"),
    }
}

#[test]
fn missing_record_is_created_with_default_ttl() {
    let ttl = record_ttl(None);
    assert_eq!(ttl, 300);
    let ops = plan_reconciliation(&name(), &set_of(&[v4(1, 2, 3, 4)]), &vec![], ttl);
    assert_eq!(
        ops,
        vec![ZoneOp::Create { name: name(), address: v4(1, 2, 3, 4), ttl: 300 }]
    );
}

#[test]
fn empty_desired_set_deletes_every_address_record() {
    let records = vec![a_record("r1", v4(1, 2, 3, 4)), a_record("r2", v6_doc())];
    let ops = plan_reconciliation(&name(), &AddressSet::new(), &records, 300);
    assert_eq!(
        ops,
        vec![
            ZoneOp::Delete { record: a_record("r1", v4(1, 2, 3, 4)) },
            ZoneOp::Delete { record: a_record("r2", v6_doc()) },
        ]
    );
}

#[test]
fn second_run_changes_nothing() {
    let desired = set_of(&[v4(1, 1, 1, 1), v4(2, 2, 2, 2), v6_doc()]);
    let records = vec![
        a_record("r1", v4(9, 9, 9, 9)),
        a_record("r2", v4(2, 2, 2, 2)),
        a_record("r3", v4(2, 2, 2, 2)),
        record("r4", RecordContent::Other),
    ];
    let ops = plan_reconciliation(&name(), &desired, &records, 300);
    assert!(!ops.is_empty());
    let after = apply(records, ops);
    let again = plan_reconciliation(&name(), &desired, &after, 300);
    assert!(again.is_empty());
}

#[test]
fn leftovers_are_set_differences() {
    let desired = set_of(&[v4(1, 0, 0, 1), v4(1, 0, 0, 2), v4(1, 0, 0, 3)]);
    let records = vec![
        a_record("b", v4(1, 0, 0, 2)),
        a_record("c", v4(1, 0, 0, 3)),
        a_record("d", v4(1, 0, 0, 4)),
    ];
    assert_eq!(unmatched_addresses(&desired, &records), vec![v4(1, 0, 0, 1)]);
    assert_eq!(unmatched_records(&desired, &records), vec![a_record("d", v4(1, 0, 0, 4))]);
}

#[test]
fn equal_sets_give_no_writes() {
    let desired = set_of(&[v6_doc(), v4(1, 2, 3, 4)]);
    let records = vec![a_record("x", v4(1, 2, 3, 4)), a_record("y", v6_doc())];
    assert!(plan_reconciliation(&name(), &desired, &records, 300).is_empty());
}

#[test]
fn other_record_kinds_are_ignored() {
    let records = vec![record("txt", RecordContent::Other)];
    let ops = plan_reconciliation(&name(), &AddressSet::new(), &records, 300);
    assert!(ops.is_empty());
    assert!(unmatched_records(&AddressSet::new(), &records).is_empty());
}

#[test]
fn duplicate_records_of_desired_address_are_left_alone() {
    let records = vec![a_record("r1", v4(1, 2, 3, 4)), a_record("r2", v4(1, 2, 3, 4))];
    let ops = plan_reconciliation(&name(), &set_of(&[v4(1, 2, 3, 4)]), &records, 300);
    assert!(ops.is_empty());
    assert!(unmatched_records(&set_of(&[v4(1, 2, 3, 4)]), &records).is_empty());
}

#[test]
fn duplicate_records_of_unwanted_address_are_all_rewritten() {
    let records = vec![a_record("r1", v4(1, 2, 3, 4)), a_record("r2", v4(1, 2, 3, 4))];
    let ops = plan_reconciliation(&name(), &set_of(&[v4(5, 6, 7, 8)]), &records, 300);
    assert_eq!(
        ops,
        vec![
            ZoneOp::Update { record: a_record("r1", v4(1, 2, 3, 4)), address: v4(5, 6, 7, 8) },
            ZoneOp::Delete { record: a_record("r2", v4(1, 2, 3, 4)) },
        ]
    );
}

#[test]
fn family_is_not_kept_by_positional_update() {
    let records = vec![a_record("r1", v4(1, 2, 3, 4))];
    let ops = plan_reconciliation(&name(), &set_of(&[v6_doc()]), &records, 300);
    assert_eq!(ops, vec![ZoneOp::Update { record: a_record("r1", v4(1, 2, 3, 4)), address: v6_doc() }]);
}

#[test]
fn more_addresses_than_records_creates_the_rest() {
    let records = vec![a_record("r1", v4(9, 9, 9, 9))];
    let ops = plan_reconciliation(&name(), &set_of(&[v4(1, 1, 1, 1), v4(2, 2, 2, 2)]), &records, 60);
    assert_eq!(
        ops,
        vec![
            ZoneOp::Update { record: a_record("r1", v4(9, 9, 9, 9)), address: v4(1, 1, 1, 1) },
            ZoneOp::Create { name: name(), address: v4(2, 2, 2, 2), ttl: 60 },
        ]
    );
}

#[test]
fn ttl_configuration() {
    assert_eq!(DEFAULT_RECORD_TTL, 300);
    assert_eq!(record_ttl(Some("600")), 600);
    assert_eq!(record_ttl(Some("abc")), 300);
    assert_eq!(record_ttl(Some("")), 300);
    assert_eq!(record_ttl(Some("99999999999")), 300);
}

#[test]
fn address_set_deduplicates() {
    let mut s = AddressSet::new();
    assert!(s.insert(v4(1, 2, 3, 4)));
    assert!(!s.insert(v4(1, 2, 3, 4)));
    assert!(s.insert(IpAddress::V6(u32::from_be_bytes([1, 2, 3, 4]) as u128)));
    assert_eq!(s.len(), 2);
    assert!(s.contains(&v4(1, 2, 3, 4)));
}

#[test]
fn ttl_parse_edges() {
    assert_eq!(record_ttl(Some("+42")), 42);
    assert_eq!(record_ttl(Some("+")), 300);
    assert_eq!(record_ttl(Some("-1")), 300);
    assert_eq!(record_ttl(Some("4294967295")), 4294967295);
    assert_eq!(record_ttl(Some("4294967296")), 300);
    assert_eq!(record_ttl(Some(" 60")), 300);
}
