//! Connections, cancel requests and kept replies.
use postgresql_trino_gateway::cancel::{CancelAction, GatewayCancelHandler};
use postgresql_trino_gateway::query_extended::{
    GatewayExtendedQueryHandler, PortalError, insert_cached, take_cached,
};
use postgresql_trino_gateway::session::{
    ActiveQueryId, CachedPortalResponse, CancelEntry, MAX_CACHED_PORTALS, PortalCache, Registry,
    SecretKey, get_connection, lookup_cancel, register_cancel, register_connection,
    remove_connections_for_addr, unregister_cancel,
};

type Cancels = Registry<CancelEntry<&'static str, ActiveQueryId>>;

fn entry(client: &'static str, id: Option<&str>) -> CancelEntry<&'static str, ActiveQueryId> {
    CancelEntry {
        trino_client: client,
        active_query_id: ActiveQueryId { id: id.map(str::to_owned) },
    }
}

/// What a cancel request comes to.
fn cancel(cancels: &Cancels, pid: i32, secret: &SecretKey) -> CancelAction {
    let found = lookup_cancel(cancels, pid, secret).map(|e| &e.active_query_id);
    GatewayCancelHandler.on_cancel_request(found)
}

#[test]
fn remove_by_addr_strips_only_matching_prefix() {
    let a = "192.0.2.1:11111";
    let b = "192.0.2.2:22222";
    let mut connections: Registry<u32> = Registry::new();
    register_connection(&mut connections, &format!("{a}_1"), 1);
    register_connection(&mut connections, &format!("{a}_2"), 2);
    register_connection(&mut connections, &format!("{b}_1"), 3);

    remove_connections_for_addr(&mut connections, a);

    assert!(get_connection(&connections, &format!("{a}_1")).is_none());
    assert!(get_connection(&connections, &format!("{a}_2")).is_none());
    assert_eq!(get_connection(&connections, &format!("{b}_1")), Some(&3));

    remove_connections_for_addr(&mut connections, b);
    assert!(get_connection(&connections, &format!("{b}_1")).is_none());
}

#[test]
fn an_address_is_no_prefix_of_a_longer_port() {
    let mut connections: Registry<u32> = Registry::new();
    register_connection(&mut connections, "192.0.2.1:1_1", 1);
    register_connection(&mut connections, "192.0.2.1:11_1", 2);
    remove_connections_for_addr(&mut connections, "192.0.2.1:1");
    assert!(get_connection(&connections, "192.0.2.1:1_1").is_none());
    assert_eq!(get_connection(&connections, "192.0.2.1:11_1"), Some(&2));
}

#[test]
fn a_connection_can_be_entered_again() {
    let mut connections: Registry<u32> = Registry::new();
    register_connection(&mut connections, "a_1", 1);
    register_connection(&mut connections, "b_1", 2);
    register_connection(&mut connections, "a_1", 3);
    assert_eq!(get_connection(&connections, "a_1"), Some(&3));
    assert_eq!(get_connection(&connections, "b_1"), Some(&2));
    assert_eq!(get_connection(&connections, "c_1"), None);
}

/// A request with a pair that was never entered is ignored.
#[test]
fn cancel_for_unknown_keypair_is_a_noop() {
    let cancels: Cancels = Registry::new();
    assert!(matches!(cancel(&cancels, -1, &SecretKey::I32(0)), CancelAction::Unknown));
}

/// A request for a connection that runs no query is ignored too.
#[test]
fn cancel_for_idle_connection_is_a_noop() {
    let mut cancels: Cancels = Registry::new();
    let pid = i32::MIN + 7;
    let secret = SecretKey::I32(424242);
    register_cancel(&mut cancels, pid, &secret, entry("client", None));
    assert!(matches!(cancel(&cancels, pid, &secret), CancelAction::Idle));
    unregister_cancel(&mut cancels, pid, &secret);
    assert!(matches!(cancel(&cancels, pid, &secret), CancelAction::Unknown));
}

#[test]
fn a_cancel_request_reaches_only_its_connection() {
    let mut cancels: Cancels = Registry::new();
    let number = SecretKey::I32(258);
    let bytes = SecretKey::Bytes(vec![0, 0, 1, 2]);
    register_cancel(&mut cancels, 1, &number, entry("one", Some("q-1")));
    register_cancel(&mut cancels, 1, &bytes, entry("two", Some("q-2")));
    register_cancel(&mut cancels, -1, &number, entry("three", None));
    assert!(matches!(cancel(&cancels, 1, &number), CancelAction::Cancel(id) if id == "q-1"));
    assert!(matches!(cancel(&cancels, 1, &bytes), CancelAction::Cancel(id) if id == "q-2"));
    assert!(matches!(cancel(&cancels, 1, &SecretKey::I32(259)), CancelAction::Unknown));
    assert!(matches!(cancel(&cancels, 2, &number), CancelAction::Unknown));
    assert_eq!(lookup_cancel(&cancels, -1, &number).unwrap().trino_client, "three");
    unregister_cancel(&mut cancels, 1, &number);
    assert!(matches!(cancel(&cancels, 1, &number), CancelAction::Unknown));
    assert!(matches!(cancel(&cancels, 1, &bytes), CancelAction::Cancel(id) if id == "q-2"));
}

/// A query runs once for a description and the execution after it.
#[test]
fn a_described_portal_is_served_once() {
    let handler = GatewayExtendedQueryHandler;
    let mut cache: PortalCache<u32> = PortalCache::new();
    assert_eq!(handler.do_query(&mut cache, "", "SELECT 1"), None);
    handler.do_describe_portal(&mut cache, "", "SELECT 1", 10, None::<Vec<u32>>);
    handler.do_describe_portal(&mut cache, "p", "SELECT 2", 20, None::<Vec<u32>>);
    assert_eq!(cache.len(), 2);
    assert_eq!(handler.do_query(&mut cache, "", "SELECT 1"), Some(10));
    assert_eq!(handler.do_query(&mut cache, "", "SELECT 1"), None);
    assert_eq!(handler.do_query(&mut cache, "p", "SELECT 2"), Some(20));
    assert_eq!(cache.len(), 0);
}

#[test]
fn a_reply_for_another_query_is_dropped() {
    let handler = GatewayExtendedQueryHandler;
    let mut cache: PortalCache<u32> = PortalCache::new();
    handler.do_describe_portal(&mut cache, "p", "SELECT 1", 10, None::<Vec<u32>>);
    assert_eq!(handler.do_query(&mut cache, "p", "SELECT 2"), None);
    assert_eq!(handler.do_query(&mut cache, "p", "SELECT 1"), None);
    handler.do_describe_portal(&mut cache, "p", "SELECT 1", 10, None::<Vec<u32>>);
    handler.do_describe_portal(&mut cache, "p", "SELECT 2", 20, None::<Vec<u32>>);
    assert_eq!(cache.len(), 1);
    assert_eq!(handler.do_query(&mut cache, "p", "SELECT 2"), Some(20));
}

#[test]
fn a_full_cache_takes_no_further_name() {
    let kept = |query: &str, response: u32| CachedPortalResponse { query: query.to_owned(), response };
    let mut cache: PortalCache<u32> = PortalCache::new();
    for i in 0..MAX_CACHED_PORTALS {
        insert_cached(&mut cache, format!("p{i}"), kept("q", i as u32));
    }
    assert_eq!(cache.len(), 64);
    insert_cached(&mut cache, "one more".to_owned(), kept("q", 100));
    assert_eq!(cache.len(), 64);
    assert!(take_cached(&mut cache, "one more").is_none());
    insert_cached(&mut cache, "p3".to_owned(), kept("r", 200));
    assert_eq!(cache.len(), 64);
    let entry = take_cached(&mut cache, "p3").unwrap();
    assert_eq!((entry.query.as_str(), entry.response), ("r", 200));
    insert_cached(&mut cache, "one more".to_owned(), kept("q", 100));
    assert_eq!(take_cached(&mut cache, "one more").unwrap().response, 100);
}

#[test]
fn a_portal_needs_a_reply() {
    let handler = GatewayExtendedQueryHandler;
    assert_eq!(handler.first_reply(vec![7, 8]), Ok(7));
    assert_eq!(handler.first_reply(Vec::<u32>::new()), Err(PortalError::NoReply));
    assert_eq!(PortalError::NoReply.message(), "Empty pipeline response");
}

#[test]
fn a_described_portal_has_the_columns_of_its_reply() {
    let handler = GatewayExtendedQueryHandler;
    let mut cache: PortalCache<u32> = PortalCache::new();
    let columns = handler.do_describe_portal(&mut cache, "p", "SELECT 1", 10, Some(vec!["a", "b"]));
    assert_eq!(columns, vec!["a", "b"]);
    let none = handler.do_describe_portal(&mut cache, "q", "DROP TABLE t", 20, None::<Vec<&str>>);
    assert!(none.is_empty());
}

#[test]
fn a_portal_needs_a_connection() {
    let handler = GatewayExtendedQueryHandler;
    let mut connections: Registry<u32> = Registry::new();
    register_connection(&mut connections, "192.0.2.1:1_1", 7);
    assert_eq!(handler.connection(&connections, Some("192.0.2.1:1_1")), Ok(&7));
    let unknown = handler.connection(&connections, Some("192.0.2.1:1_2")).unwrap_err();
    assert_eq!(unknown, PortalError::UnknownConnection);
    assert_eq!(unknown.message(), "Connection state not found");
    let missing = handler.connection(&connections, None).unwrap_err();
    assert_eq!(missing, PortalError::NoConnectionId);
    assert_eq!(missing.message(), "No connection ID in metadata");
}

#[test]
fn parameters_without_a_type_are_text() {
    let types = vec![Some(23), None, Some(1043)];
    assert_eq!(GatewayExtendedQueryHandler.do_describe_statement(&types), vec![23, 25, 1043]);
}
