use bedcode_mobile::mdns::{
    advertised_host_name, collect_txt, registered_fullname, resolve_service, txt_value,
    DiscoveredService, DiscoveryEvent, MdnsAdvertiser, MdnsDiscovery, SERVICE_TYPE,
};

fn pair(k: &str, v: &str) -> (String, String) {
    (k.to_string(), v.to_string())
}

fn addr(a: &str, v4: bool) -> (String, bool) {
    (a.to_string(), v4)
}

fn service(name: &str, device: &str) -> DiscoveredService {
    resolve_service(
        name,
        "host.local.",
        9527,
        &[addr("192.168.1.5", true)],
        &[pair("device_name", device)],
    )
}

#[test]
fn resolve_prefers_ipv4_address() {
    let s = resolve_service(
        "BedCode-X._bedcode._tcp.local.",
        "X.local.",
        8080,
        &[addr("fe80::1", false), addr("10.0.0.2", true), addr("10.0.0.3", true)],
        &[],
    );
    assert_eq!(s.address, "10.0.0.2");
    assert_eq!(s.port, 8080);
    assert_eq!(s.instance_name, "BedCode-X._bedcode._tcp.local.");
}

#[test]
fn resolve_falls_back_to_first_address_then_empty() {
    let s = resolve_service("a", "h", 1, &[addr("fe80::1", false), addr("fe80::2", false)], &[]);
    assert_eq!(s.address, "fe80::1");
    let e = resolve_service("a", "h", 1, &[], &[]);
    assert_eq!(e.address, "");
}

#[test]
fn resolve_defaults_platform_and_device_name() {
    let s = resolve_service("a", "DESKTOP-X1.local.", 1, &[], &[]);
    assert_eq!(s.platform, "unknown");
    assert_eq!(s.device_name, "DESKTOP-X1.local.");
    let t = resolve_service(
        "a",
        "h",
        1,
        &[],
        &[pair("platform", "desktop"), pair("device_name", "Studio PC")],
    );
    assert_eq!(t.platform, "desktop");
    assert_eq!(t.device_name, "Studio PC");
}

#[test]
fn later_txt_record_wins() {
    let props = vec![pair("platform", "a"), pair("k", "1"), pair("platform", "b")];
    assert_eq!(txt_value(&props, "platform"), Some("b".to_string()));
    assert_eq!(txt_value(&props, "missing"), None);
    let out = collect_txt(&props);
    assert_eq!(out, vec![pair("platform", "b"), pair("k", "1")]);
    let s = resolve_service("a", "h", 1, &[], &props);
    assert_eq!(s.platform, "b");
    assert_eq!(s.txt_records.len(), 2);
}

#[test]
fn advertised_names() {
    assert_eq!(advertised_host_name("BedCode-Pixel8"), "BedCode-Pixel8.local.");
    assert_eq!(registered_fullname("BedCode-Pixel8"), "BedCode-Pixel8._bedcode._tcp.local.");
    assert_eq!(SERVICE_TYPE, "_bedcode._tcp.local.");
}

#[test]
fn discovery_cache_follows_events() {
    let mut d = MdnsDiscovery::new();
    assert!(!d.is_scanning());
    assert!(d.should_start());
    d.started();
    assert!(d.is_scanning());
    assert!(!d.should_start());

    d.apply(DiscoveryEvent::ServiceFound { instance_name: "a".to_string() });
    assert!(d.get_services().is_empty());

    d.apply(DiscoveryEvent::ServiceResolved(service("a", "first")));
    d.apply(DiscoveryEvent::ServiceResolved(service("b", "second")));
    d.apply(DiscoveryEvent::ServiceResolved(service("a", "renamed")));
    let all = d.get_services();
    assert_eq!(all.len(), 2);
    let a = all.iter().find(|s| s.instance_name == "a").unwrap();
    assert_eq!(a.device_name, "renamed");

    d.apply(DiscoveryEvent::ServiceRemoved { instance_name: "a".to_string() });
    d.apply(DiscoveryEvent::ServiceRemoved { instance_name: "zzz".to_string() });
    let rest = d.get_services();
    assert_eq!(rest.len(), 1);
    assert_eq!(rest[0].instance_name, "b");
}

#[test]
fn discovery_stop_clears_only_while_scanning() {
    let mut d = MdnsDiscovery::new();
    d.apply(DiscoveryEvent::ServiceResolved(service("a", "x")));
    assert!(!d.stop());
    assert_eq!(d.get_services().len(), 1);
    d.started();
    assert!(d.stop());
    assert!(!d.is_scanning());
    assert!(d.get_services().is_empty());
}

#[test]
fn discovery_loop_exit_keeps_cache() {
    let mut d = MdnsDiscovery::new();
    d.started();
    d.apply(DiscoveryEvent::ServiceResolved(service("a", "x")));
    d.loop_exited();
    assert!(!d.is_scanning());
    assert_eq!(d.get_services().len(), 1);
}

#[test]
fn copy_keeps_every_field() {
    let s = service("a", "dev");
    let c = s.copy();
    assert_eq!(c, s);
}

#[test]
fn advertiser_stop_unregisters_full_name() {
    let mut a = MdnsAdvertiser::new();
    assert!(!a.is_advertising());
    assert_eq!(a.stop(), None);
    assert!(a.should_start());
    a.started("BedCode-Pixel8".to_string());
    assert!(a.is_advertising());
    assert!(!a.should_start());
    assert_eq!(a.stop(), Some("BedCode-Pixel8._bedcode._tcp.local.".to_string()));
    assert!(!a.is_advertising());
    assert_eq!(a.stop(), None);
}
