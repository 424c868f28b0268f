use bedcode_mobile::peers::{
    peer_info_changed, FileOperation, PeerFileService, PeerMountAnnouncement, PeerTable,
};

fn mount(plugin: &str, path: &str, ops: Vec<FileOperation>) -> PeerMountAnnouncement {
    PeerMountAnnouncement { plugin_id: plugin.to_string(), mount_path: path.to_string(), operations: ops }
}

fn peer(ip: &str, name: &str, mounts: Vec<PeerMountAnnouncement>) -> PeerFileService {
    PeerFileService {
        ip: ip.to_string(),
        port: 9527,
        token: "tok".to_string(),
        device_name: name.to_string(),
        mounts,
    }
}

#[test]
fn same_record_is_unchanged() {
    let a = peer("10.0.0.1", "PC", vec![mount("p", "files", vec![FileOperation::List])]);
    assert!(!peer_info_changed(&a, &a.clone()));
}

#[test]
fn device_name_is_not_compared() {
    let a = peer("10.0.0.1", "PC", vec![]);
    let b = peer("10.0.0.1", "Laptop", vec![]);
    assert!(!peer_info_changed(&a, &b));
}

#[test]
fn address_port_token_changes_count() {
    let a = peer("10.0.0.1", "PC", vec![]);
    let b = peer("10.0.0.2", "PC", vec![]);
    assert!(peer_info_changed(&a, &b));
    let mut c = a.clone();
    c.port = 1;
    assert!(peer_info_changed(&a, &c));
    let mut d = a.clone();
    d.token = "other".to_string();
    assert!(peer_info_changed(&a, &d));
}

#[test]
fn mount_order_does_not_count() {
    let a = peer(
        "10.0.0.1",
        "PC",
        vec![
            mount("p2", "x", vec![FileOperation::List]),
            mount("p1", "z", vec![FileOperation::Download]),
            mount("p1", "a", vec![FileOperation::Upload]),
        ],
    );
    let b = peer(
        "10.0.0.1",
        "PC",
        vec![
            mount("p1", "a", vec![FileOperation::Upload]),
            mount("p2", "x", vec![FileOperation::List]),
            mount("p1", "z", vec![FileOperation::Download]),
        ],
    );
    assert!(!peer_info_changed(&a, &b));
}

#[test]
fn mount_operations_and_count_changes_count() {
    let a = peer("h", "PC", vec![mount("p", "m", vec![FileOperation::List, FileOperation::Download])]);
    let b = peer("h", "PC", vec![mount("p", "m", vec![FileOperation::Download, FileOperation::List])]);
    assert!(peer_info_changed(&a, &b));
    let c = peer("h", "PC", vec![]);
    assert!(peer_info_changed(&a, &c));
    let d = peer("h", "PC", vec![mount("p", "n", vec![FileOperation::List, FileOperation::Download])]);
    assert!(peer_info_changed(&a, &d));
}

#[test]
fn table_set_peer_announces_only_changes() {
    let mut t = PeerTable::new();
    let a = peer("10.0.0.1", "PC", vec![]);
    assert!(t.set_peer("desktop:10.0.0.1", a.clone()));
    assert!(!t.set_peer("desktop:10.0.0.1", a.clone()));
    let renamed = peer("10.0.0.1", "Renamed", vec![]);
    assert!(!t.set_peer("desktop:10.0.0.1", renamed));
    assert_eq!(t.get_peer("desktop:10.0.0.1").unwrap().device_name, "PC");
    let moved = peer("10.0.0.9", "PC", vec![]);
    assert!(t.set_peer("desktop:10.0.0.1", moved));
    assert_eq!(t.get_peer("desktop:10.0.0.1").unwrap().ip, "10.0.0.9");
}

#[test]
fn table_push_always_stores() {
    let mut t = PeerTable::new();
    t.push_peer("x", peer("1.1.1.1", "A", vec![]));
    t.push_peer("x", peer("1.1.1.1", "B", vec![]));
    assert_eq!(t.get_peer("x").unwrap().device_name, "B");
}

#[test]
fn table_remove_reports_presence() {
    let mut t = PeerTable::new();
    assert!(!t.remove_peer("x"));
    t.push_peer("x", peer("1.1.1.1", "A", vec![]));
    assert!(t.remove_peer("x"));
    assert!(t.get_peer("x").is_none());
    assert!(!t.remove_peer("x"));
}

#[test]
fn peer_changed_event_carries_record_or_empty() {
    let mut t = PeerTable::new();
    t.push_peer("x", peer("1.1.1.1", "A", vec![]));
    let e = t.peer_changed_event("x", true);
    assert_eq!(e.peer_id, "x");
    assert!(e.online);
    assert_eq!(e.device_name, "A");
    assert_eq!(e.ip, "1.1.1.1");
    let gone = t.peer_changed_event("y", false);
    assert!(!gone.online);
    assert_eq!(gone.device_name, "");
    assert_eq!(gone.ip, "");
}
