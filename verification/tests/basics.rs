use rpcx_dispatch::cache::ConnectionCache;
use rpcx_dispatch::error::CallError;
use rpcx_dispatch::modes::{FailMode, SelectMode};
use rpcx_dispatch::server_key::parse_server_key;

fn key(s: &str) -> String {
    s.to_owned()
}

#[test]
fn fail_mode_codes() {
    assert_eq!(FailMode::Failover.code(), 0);
    assert_eq!(FailMode::Failfast.code(), 1);
    assert_eq!(FailMode::Failtry.code(), 2);
    assert_eq!(FailMode::Failbackup.code(), 3);
    assert_eq!(FailMode::from_code(2), Some(FailMode::Failtry));
    assert_eq!(FailMode::from_code(4), None);
    for mode in FailMode::all() {
        assert_eq!(FailMode::from_code(mode.code()), Some(mode));
    }
}

#[test]
fn fail_mode_names() {
    assert_eq!(FailMode::Failover.name(), "Failover");
    assert_eq!(FailMode::Failfast.name(), "Failfast");
    assert_eq!(FailMode::Failtry.name(), "Failtry");
    assert_eq!(FailMode::Failbackup.name(), "Failbackup");
    assert_eq!(FailMode::from_name(&key("Failbackup")), Some(FailMode::Failbackup));
    assert_eq!(FailMode::from_name(&key("failbackup")), None);
    assert_eq!(FailMode::from_name(&key("")), None);
    for mode in FailMode::all() {
        assert_eq!(FailMode::from_name(&mode.name()), Some(mode));
    }
}

#[test]
fn fail_mode_all_in_order() {
    assert_eq!(
        FailMode::all(),
        vec![FailMode::Failover, FailMode::Failfast, FailMode::Failtry, FailMode::Failbackup]
    );
}

#[test]
fn select_mode_codes() {
    assert_eq!(SelectMode::RandomSelect.code(), 0);
    assert_eq!(SelectMode::RoundRobin.code(), 1);
    assert_eq!(SelectMode::WeightedRoundRobin.code(), 2);
    assert_eq!(SelectMode::WeightedICMP.code(), 3);
    assert_eq!(SelectMode::ConsistentHash.code(), 4);
    assert_eq!(SelectMode::Closest.code(), 5);
    assert_eq!(SelectMode::SelectByUser.code(), 1000);
    assert_eq!(SelectMode::from_code(1000), Some(SelectMode::SelectByUser));
    assert_eq!(SelectMode::from_code(6), None);
    assert_eq!(SelectMode::from_code(999), None);
}

#[test]
fn select_mode_names() {
    assert_eq!(SelectMode::WeightedICMP.name(), "WeightedICMP");
    assert_eq!(SelectMode::SelectByUser.name(), "SelectByUser");
    assert_eq!(SelectMode::from_name(&key("ConsistentHash")), Some(SelectMode::ConsistentHash));
    assert_eq!(SelectMode::from_name(&key("Nearest")), None);
    let all = SelectMode::all();
    assert_eq!(all.len(), 7);
    assert_eq!(all[0], SelectMode::RandomSelect);
    assert_eq!(all[6], SelectMode::SelectByUser);
    for mode in all {
        assert_eq!(SelectMode::from_name(&mode.name()), Some(mode));
        assert_eq!(SelectMode::from_code(mode.code()), Some(mode));
    }
}

#[test]
fn key_with_network() {
    let e = parse_server_key(&key("tcp@127.0.0.1:8972"));
    assert_eq!(e.network, "tcp");
    assert_eq!(e.address, "127.0.0.1:8972");
    let e = parse_server_key(&key("quic@10.0.0.1:8972"));
    assert_eq!(e.network, "quic");
    assert_eq!(e.address, "10.0.0.1:8972");
}

#[test]
fn key_without_network_is_tcp() {
    let e = parse_server_key(&key("127.0.0.1:8972"));
    assert_eq!(e.network, "tcp");
    assert_eq!(e.address, "127.0.0.1:8972");
}

#[test]
fn key_edge_cases() {
    let e = parse_server_key(&key(""));
    assert_eq!((e.network.as_str(), e.address.as_str()), ("tcp", ""));
    let e = parse_server_key(&key("@host:1"));
    assert_eq!((e.network.as_str(), e.address.as_str()), ("", "host:1"));
    let e = parse_server_key(&key("tcp@"));
    assert_eq!((e.network.as_str(), e.address.as_str()), ("tcp", ""));
    let e = parse_server_key(&key("tcp@host:1@rest"));
    assert_eq!((e.network.as_str(), e.address.as_str()), ("tcp", "host:1"));
    let e = parse_server_key(&key("r\u{e9}seau@h\u{f4}te:1"));
    assert_eq!((e.network.as_str(), e.address.as_str()), ("r\u{e9}seau", "h\u{f4}te:1"));
}

#[test]
fn cache_keeps_first_connection() {
    let mut cache: ConnectionCache<u32> = ConnectionCache::new();
    assert_eq!(cache.len(), 0);
    assert!(!cache.contains(&key("tcp@a:1")));
    assert_eq!(cache.get(&key("tcp@a:1")), None);

    assert_eq!(cache.insert(key("tcp@a:1"), 7), None);
    assert_eq!(cache.len(), 1);
    assert!(cache.contains(&key("tcp@a:1")));
    assert_eq!(cache.get(&key("tcp@a:1")), Some(&7));

    assert_eq!(cache.insert(key("tcp@a:1"), 8), Some(8));
    assert_eq!(cache.len(), 1);
    assert_eq!(cache.get(&key("tcp@a:1")), Some(&7));

    assert_eq!(cache.insert(key("tcp@b:1"), 9), None);
    assert_eq!(cache.len(), 2);
    assert_eq!(cache.get(&key("tcp@a:1")), Some(&7));
    assert_eq!(cache.get(&key("tcp@b:1")), Some(&9));
    assert_eq!(cache.get(&key("a:1")), None);
}

#[test]
fn dispatcher_errors_as_protocol_errors() {
    assert_eq!(CallError::ServerNotFound.into_protocol().to_string(), "server not found");
    assert_eq!(CallError::ClientNotFound.into_protocol().to_string(), "client still not found");
    assert_eq!(
        CallError::ServerNotFound.into_protocol().kind(),
        rpcx_protocol::ErrorKind::Other
    );
}

#[test]
fn carried_errors_come_back_as_they_are() {
    let e = rpcx_protocol::Error::from(rpcx_protocol::ErrorKind::Network);
    let back = CallError::Connection(e).into_protocol();
    assert_eq!(back.kind(), rpcx_protocol::ErrorKind::Network);
    assert_eq!(back.to_string(), "network issue");

    let e = rpcx_protocol::Error::from("remote said no".to_owned());
    let back = CallError::Call(e).into_protocol();
    assert_eq!(back.to_string(), "remote said no");
}
