use roxy::ifconfig::{
    apply_targets, delete, get, get_interface_names, init, load_netplan_yaml, validate_set,
    SetError,
};
use roxy::interface::{Nic, NicOutput};
use roxy::netplan::{NetplanError, Network, NetplanYaml};

fn s(x: &str) -> String {
    x.to_string()
}

fn fragment(version: Option<u32>, renderer: Option<&str>, ethernets: Vec<(String, Nic)>) -> NetplanYaml {
    NetplanYaml {
        network: Network { version, renderer: renderer.map(s), ethernets, bridges: None },
    }
}

fn with_address(a: &str) -> Nic {
    Nic::new(Some(vec![s(a)]), None, None, None, None)
}

fn with_gateway(g: &str) -> Nic {
    Nic::new(None, None, Some(s(g)), None, None)
}

#[test]
fn load_merges_fragments_in_order() {
    let first = fragment(Some(2), Some("networkd"), vec![(s("eth1"), with_address("10.0.1.10/24"))]);
    let second =
        fragment(Some(3), Some("NetworkManager"), vec![(s("eth0"), with_address("10.0.0.10/24"))]);
    let doc = load_netplan_yaml(vec![first, second]).expect("loading fragments should succeed");
    assert_eq!(doc.network.version, Some(3));
    assert_eq!(doc.network.renderer, Some(s("NetworkManager")));
    let names: Vec<&str> = doc.network.ethernets.iter().map(|(n, _)| n.as_str()).collect();
    assert_eq!(names, vec!["eth0", "eth1"]);
}

#[test]
fn load_fails_without_fragments() {
    let err = load_netplan_yaml(vec![]).expect_err("no fragment should fail");
    assert!(matches!(err, NetplanError::ConfigurationNotFound));
    assert!(err.message().contains("Netplan configuration not found"));
}

#[test]
fn load_sorts_and_dedups_first_fragment() {
    let first = fragment(
        None,
        None,
        vec![
            (s("eth1"), with_address("10.0.1.1/24")),
            (s("eth0"), with_address("10.0.0.1/24")),
            (s("eth1"), with_address("10.0.1.2/24")),
        ],
    );
    let doc = load_netplan_yaml(vec![first]).expect("one fragment should load");
    let names: Vec<&str> = doc.network.ethernets.iter().map(|(n, _)| n.as_str()).collect();
    assert_eq!(names, vec!["eth0", "eth1"]);
    assert_eq!(doc.network.ethernets[1].1.addresses, Some(vec![s("10.0.1.2/24")]));
}

#[test]
fn load_keeps_last_value_across_fragments() {
    let first = fragment(None, None, vec![(s("eth0"), with_address("10.0.0.1/24"))]);
    let second = fragment(None, None, vec![(s("eth0"), with_address("10.0.0.2/24"))]);
    let doc = load_netplan_yaml(vec![first, second]).expect("fragments should load");
    assert_eq!(doc.network.ethernets.len(), 1);
    assert_eq!(doc.network.ethernets[0].1.addresses, Some(vec![s("10.0.0.2/24")]));
}

fn one_doc(ethernets: Vec<(String, Nic)>) -> NetplanYaml {
    load_netplan_yaml(vec![fragment(Some(2), None, ethernets)]).expect("fragment should load")
}

#[test]
fn set_rejects_address_without_prefix() {
    let mut doc = one_doc(vec![(s("eth0"), with_address("10.0.0.1/24"))]);
    let req = NicOutput::new(Some(vec![s("192.0.2.0")]), None, None, None);
    let err = roxy::ifconfig::set(&mut doc, &s("eth0"), &req).expect_err("missing prefix should be rejected");
    assert!(matches!(&err, SetError::InvalidAddress(a) if a == "192.0.2.0"));
    assert_eq!(err.message(), "invalid interface address: 192.0.2.0");
    assert_eq!(doc.network.ethernets[0].1.addresses, Some(vec![s("10.0.0.1/24")]));
}

#[test]
fn set_rejects_second_gateway() {
    let mut doc = one_doc(vec![(s("eth1"), with_gateway("10.0.0.254"))]);
    let req = NicOutput::new(None, None, Some(s("10.0.0.1")), None);
    let err = roxy::ifconfig::set(&mut doc, &s("eth0"), &req).expect_err("second gateway should be rejected");
    assert!(matches!(err, SetError::GatewayConflict));
    assert_eq!(err.message(), "only one interface can have gateway.");
    assert_eq!(doc.network.ethernets.len(), 1);
}

#[test]
fn set_allows_replacing_own_gateway() {
    let mut doc = one_doc(vec![(s("eth0"), with_gateway("10.0.0.254"))]);
    let req = NicOutput::new(None, None, Some(s("10.0.0.1")), None);
    roxy::ifconfig::set(&mut doc, &s("eth0"), &req).expect("own gateway may change");
    assert_eq!(doc.network.ethernets[0].1.gateway4, Some(s("10.0.0.1")));
}

#[test]
fn set_rejects_dhcp_with_static_addresses() {
    let mut doc = one_doc(vec![(s("eth0"), with_address("10.0.0.1/24"))]);
    let req = NicOutput::new(Some(vec![s("10.0.0.2/24")]), Some(true), None, None);
    let err = roxy::ifconfig::set(&mut doc, &s("eth0"), &req).expect_err("dhcp with static should be rejected");
    assert!(matches!(err, SetError::DhcpStaticConflict));
    assert_eq!(doc.network.ethernets[0].1.addresses, Some(vec![s("10.0.0.1/24")]));
}

#[test]
fn set_rejects_invalid_gateway_and_nameserver() {
    let doc = one_doc(vec![]);
    let bad_gw = NicOutput::new(None, None, Some(s("10.0.0.256")), None);
    assert!(matches!(validate_set(&doc, &s("eth0"), &bad_gw), Err(SetError::InvalidGateway(g)) if g == "10.0.0.256"));
    let bad_ns = NicOutput::new(None, None, None, Some(vec![s("8.8.8.8"), s("dns.example")]));
    let err = validate_set(&doc, &s("eth0"), &bad_ns).expect_err("bad nameserver");
    assert!(matches!(&err, SetError::InvalidNameserver(n) if n == "dns.example"));
    assert_eq!(err.message(), "invalid nameserver address: dns.example");
}

#[test]
fn set_accepts_valid_ipv4_and_ipv6() {
    let doc = one_doc(vec![]);
    let req = NicOutput::new(
        Some(vec![s("192.0.2.0/24"), s("2001:db8::/32"), s("fe80::1/64")]),
        Some(false),
        Some(s("192.0.2.1")),
        Some(vec![s("::1"), s("8.8.8.8")]),
    );
    assert!(validate_set(&doc, &s("eth0"), &req).is_ok());
    let out_of_range = NicOutput::new(Some(vec![s("192.0.2.0/33")]), None, None, None);
    assert!(validate_set(&doc, &s("eth0"), &out_of_range).is_err());
    let cidr_gateway = NicOutput::new(None, None, Some(s("192.0.2.0/24")), None);
    assert!(validate_set(&doc, &s("eth0"), &cidr_gateway).is_err());
}

#[test]
fn set_on_empty_fragment_then_get_returns_addresses() {
    let mut doc = load_netplan_yaml(vec![fragment(None, None, vec![])]).expect("empty fragment loads");
    let req = NicOutput::new(Some(vec![s("192.168.4.7/24")]), None, None, None);
    roxy::ifconfig::set(&mut doc, &s("eth0"), &req).expect("set should succeed");
    let got = get(&doc, &Some(s("eth0"))).expect("eth0 should be found");
    assert_eq!(got.len(), 1);
    assert_eq!(got[0].0, "eth0");
    assert_eq!(got[0].1.addresses, Some(vec![s("192.168.4.7/24")]));
}

#[test]
fn get_all_and_missing() {
    let doc = one_doc(vec![
        (s("eth1"), with_gateway("10.0.0.254")),
        (s("eth0"), with_address("10.0.0.1/24")),
    ]);
    let all = get(&doc, &None).expect("all interfaces");
    let names: Vec<&str> = all.iter().map(|(n, _)| n.as_str()).collect();
    assert_eq!(names, vec!["eth0", "eth1"]);
    assert_eq!(all[1].1.gateway4, Some(s("10.0.0.254")));
    assert!(get(&doc, &Some(s("eth9"))).is_none());
}

#[test]
fn init_requires_live_interface() {
    let mut doc = one_doc(vec![(s("eth0"), with_address("10.0.0.1/24"))]);
    let live = vec![s("lo"), s("eth0")];
    let err = init(&mut doc, &live, &s("eth5")).expect_err("eth5 is not live");
    assert!(matches!(&err, NetplanError::InterfaceNotFound(n) if n == "eth5"));
    assert_eq!(doc.network.ethernets[0].1.addresses, Some(vec![s("10.0.0.1/24")]));
    init(&mut doc, &live, &s("eth0")).expect("eth0 is live");
    assert!(doc.network.ethernets[0].1.addresses.is_none());
}

#[test]
fn delete_through_engine() {
    let mut doc = one_doc(vec![(s("eth0"), with_address("10.0.0.1/24"))]);
    let req = NicOutput::new(Some(vec![s("10.0.0.9/24")]), None, None, None);
    delete(&mut doc, &s("eth0"), &req).expect("absent address is a no-op");
    assert_eq!(doc.network.ethernets[0].1.addresses, Some(vec![s("10.0.0.1/24")]));
    let err = delete(&mut doc, &s("eth3"), &req).expect_err("unknown interface");
    assert_eq!(err.message(), "Interface eth3 not found");
}

#[test]
fn list_filters_by_prefix() {
    let live = vec![s("lo"), s("eno1"), s("eth0"), s("eno2")];
    assert_eq!(get_interface_names(&live, &Some(s("en"))), vec![s("eno1"), s("eno2")]);
    assert_eq!(get_interface_names(&live, &None), live);
    assert!(get_interface_names(&live, &Some(s("wl"))).is_empty());
}

#[test]
fn apply_keeps_first_fragment_name() {
    let (canonical, remove) = apply_targets(&vec![s("00-installer.yaml"), s("50-cloud.yaml")]);
    assert_eq!(canonical, "00-installer.yaml");
    assert_eq!(remove, vec![s("50-cloud.yaml")]);
    let (canonical, remove) = apply_targets(&vec![]);
    assert_eq!(canonical, "01-netcfg.yaml");
    assert!(remove.is_empty());
}

#[test]
fn concurrent_sets_lose_one_update() {
    // Two invocations load the same directory state, each sets a different
    // interface, and each writes back its whole document: the later write
    // carries only its own change.
    let on_disk = || fragment(Some(2), None, vec![(s("eth0"), with_address("10.0.0.1/24"))]);
    let mut first = load_netplan_yaml(vec![on_disk()]).expect("loads");
    let mut second = load_netplan_yaml(vec![on_disk()]).expect("loads");
    roxy::ifconfig::set(&mut first, &s("eth1"), &NicOutput::new(Some(vec![s("10.0.1.1/24")]), None, None, None))
        .expect("first set");
    roxy::ifconfig::set(&mut second, &s("eth2"), &NicOutput::new(Some(vec![s("10.0.2.1/24")]), None, None, None))
        .expect("second set");
    let last_written = second;
    let names: Vec<&str> = last_written.network.ethernets.iter().map(|(n, _)| n.as_str()).collect();
    assert_eq!(names, vec!["eth0", "eth2"]);
    assert!(get(&last_written, &Some(s("eth1"))).is_none());
    assert_eq!(first.network.ethernets.len(), 2);
}
