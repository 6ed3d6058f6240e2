use ddns::auth::{check_password, check_presence};
use ddns::error::UpdateError;
use ddns::request::{desired_addresses, pick_credential};
use ddns::{
    Action, AddressSet, Credential, Event, ExistingRecord, IpAddress, Outcome, RecordContent,
    UpdateSession, ZoneOp,
};

fn v4(a: u8, b: u8, c: u8, d: u8) -> IpAddress {
    IpAddress::V4(u32::from_be_bytes([a, b, c, d]))
}

fn desired(addrs: &[IpAddress]) -> AddressSet {
    let mut s = AddressSet::new();
    for a in addrs {
        s.insert(*a);
    }
    s
}

fn a_record(id: &str, addr: IpAddress) -> ExistingRecord {
    ExistingRecord {
        id: id.to_string(),
        name: "host.example.com".to_string(),
        ttl: 300,
        proxied: false,
        content: RecordContent::holding(addr),
    }
}

fn authenticated(addrs: &[IpAddress]) -> UpdateSession {
    let (mut s, action) =
        UpdateSession::start("host", "secret".to_string(), "example.com", desired(addrs), 300);
    assert_eq!(action, Action::LookupPassword { hostname: "host".to_string() });
    let action = s.step(Event::StoredPassword(Some("secret".to_string())));
    assert_eq!(action, Action::ListRecords { name: "host.example.com".to_string() });
    s
}

#[test]
fn wrong_password_is_unauthorized_without_listing() {
    let (mut s, action) =
        UpdateSession::start("host", "wrong".to_string(), "example.com", desired(&[v4(1, 2, 3, 4)]), 300);
    assert_eq!(action, Action::LookupPassword { hostname: "host".to_string() });
    let action = s.step(Event::StoredPassword(Some("secret".to_string())));
    assert_eq!(action, Action::Finish(Err(UpdateError::Unauthorized)));
    assert!(s.is_done());
    assert!(!s.accepts(&Event::Records(vec![])));
    assert!(!s.accepts(&Event::Written));
}

#[test]
fn unknown_host_is_unauthorized() {
    let (mut s, _) =
        UpdateSession::start("host", "secret".to_string(), "example.com", desired(&[v4(1, 2, 3, 4)]), 300);
    let action = s.step(Event::StoredPassword(None));
    assert_eq!(action, Action::Finish(Err(UpdateError::Unauthorized)));
}

#[test]
fn empty_password_fails_before_lookup() {
    let (s, action) =
        UpdateSession::start("host", String::new(), "example.com", desired(&[v4(1, 2, 3, 4)]), 300);
    assert_eq!(action, Action::Finish(Err(UpdateError::Unauthorized)));
    assert!(s.is_done());
}

#[test]
fn empty_hostname_fails_before_lookup() {
    let (_, action) = UpdateSession::start(
        ".example.com.",
        "secret".to_string(),
        ".example.com",
        desired(&[v4(1, 2, 3, 4)]),
        300,
    );
    assert_eq!(action, Action::Finish(Err(UpdateError::Unauthorized)));
}

#[test]
fn matching_records_finish_with_no_change() {
    let mut s = authenticated(&[v4(1, 2, 3, 4)]);
    let action = s.step(Event::Records(vec![a_record("r1", v4(1, 2, 3, 4))]));
    assert_eq!(action, Action::Finish(Ok(Outcome::NoChange)));
}

#[test]
fn duplicate_matching_records_finish_with_no_change() {
    let mut s = authenticated(&[v4(1, 2, 3, 4)]);
    let action = s.step(Event::Records(vec![
        a_record("r1", v4(1, 2, 3, 4)),
        a_record("r2", v4(1, 2, 3, 4)),
    ]));
    assert_eq!(action, Action::Finish(Ok(Outcome::NoChange)));
}

#[test]
fn writes_come_one_at_a_time_then_updated() {
    let mut s = authenticated(&[]);
    let action = s.step(Event::Records(vec![
        a_record("r1", v4(1, 2, 3, 4)),
        a_record("r2", v4(5, 6, 7, 8)),
    ]));
    assert_eq!(action, Action::Write(ZoneOp::Delete { record: a_record("r1", v4(1, 2, 3, 4)) }));
    let action = s.step(Event::Written);
    assert_eq!(action, Action::Write(ZoneOp::Delete { record: a_record("r2", v4(5, 6, 7, 8)) }));
    let action = s.step(Event::Written);
    assert_eq!(action, Action::Finish(Ok(Outcome::Updated)));
}

#[test]
fn failed_write_aborts_the_rest() {
    let mut s = authenticated(&[v4(9, 9, 9, 9), v4(8, 8, 8, 8)]);
    let action = s.step(Event::Records(vec![]));
    assert!(matches!(action, Action::Write(ZoneOp::Create { .. })));
    let action = s.step(Event::Failed(UpdateError::CloudflareApi("rate limited".to_string())));
    assert_eq!(action, Action::Finish(Err(UpdateError::CloudflareApi("rate limited".to_string()))));
    assert!(s.is_done());
}

#[test]
fn store_failure_is_reported() {
    let (mut s, _) =
        UpdateSession::start("host", "secret".to_string(), "example.com", desired(&[v4(1, 2, 3, 4)]), 300);
    let action = s.step(Event::Failed(UpdateError::Kv("down".to_string())));
    assert_eq!(action, Action::Finish(Err(UpdateError::Kv("down".to_string()))));
}

#[test]
fn password_comparison() {
    assert_eq!(check_password("secret", Some("secret")), Ok(()));
    assert_eq!(check_password("wrong", Some("secret")), Err(UpdateError::Unauthorized));
    assert_eq!(check_password("xecret", Some("secret")), Err(UpdateError::Unauthorized));
    assert_eq!(check_password("secrex", Some("secret")), Err(UpdateError::Unauthorized));
    assert_eq!(check_password("secret", None), Err(UpdateError::Unauthorized));
    assert_eq!(check_presence("host", ""), Err(UpdateError::Unauthorized));
    assert_eq!(check_presence("", "pw"), Err(UpdateError::Unauthorized));
    assert_eq!(check_presence("host", "pw"), Ok(()));
}

#[test]
fn status_codes() {
    assert_eq!(UpdateError::Unauthorized.status_code(), 401);
    assert_eq!(UpdateError::Canceled.status_code(), 500);
    assert_eq!(UpdateError::Kv("x".to_string()).status_code(), 500);
    assert_eq!(UpdateError::Worker("x".to_string()).status_code(), 500);
    assert_eq!(UpdateError::CloudflareSdk("x".to_string()).status_code(), 500);
    assert_eq!(UpdateError::CloudflareApi("x".to_string()).status_code(), 500);
}

#[test]
fn desired_set_falls_back_to_client_address() {
    let s = desired_addresses(&vec![], &vec![], v4(7, 7, 7, 7));
    assert_eq!(s.to_vec(), vec![v4(7, 7, 7, 7)]);
    let s = desired_addresses(&vec![v4(1, 1, 1, 1), v4(2, 2, 2, 2)], &vec![v4(2, 2, 2, 2)], v4(7, 7, 7, 7));
    assert_eq!(s.to_vec(), vec![v4(1, 1, 1, 1), v4(2, 2, 2, 2)]);
}

#[test]
fn credential_comes_from_one_source() {
    let header = Credential { hostname: "h".to_string(), password: "p".to_string() };
    let params = Credential { hostname: "q".to_string(), password: "r".to_string() };
    let c = pick_credential(Some(header), params);
    assert_eq!((c.hostname.as_str(), c.password.as_str()), ("h", "p"));
    let params = Credential { hostname: "q".to_string(), password: "r".to_string() };
    let c = pick_credential(None, params);
    assert_eq!((c.hostname.as_str(), c.password.as_str()), ("q", "r"));
}

#[test]
fn error_messages() {
    assert_eq!(UpdateError::Unauthorized.message(), "hostname/password incorrect");
    assert_eq!(UpdateError::Canceled.message(), "Task canceled");
    assert_eq!(UpdateError::Kv("timeout".to_string()).message(), "KV store error: timeout");
    assert_eq!(UpdateError::Worker("no secret".to_string()).message(), "Cloudflare Worker runtime error: no secret");
    assert_eq!(UpdateError::CloudflareSdk("tls".to_string()).message(), "Cloudflare SDK error: tls");
    assert_eq!(UpdateError::CloudflareApi("rate".to_string()).message(), "Cloudflare API error: rate");
}
