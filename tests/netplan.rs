use roxy::interface::{Nic, NicOutput};
use roxy::netplan::{Network, NetplanYaml};

fn s(x: &str) -> String {
    x.to_string()
}

fn make_netplan(ethernets: Vec<(String, Nic)>) -> NetplanYaml {
    NetplanYaml {
        network: Network {
            version: Some(2),
            renderer: Some(s("networkd")),
            ethernets,
            bridges: None,
        },
    }
}

fn names(netplan: &NetplanYaml) -> Vec<&str> {
    netplan.network.ethernets.iter().map(|(n, _)| n.as_str()).collect()
}

#[test]
fn merge_adds_new_interface() {
    let mut base = make_netplan(vec![(
        s("eth0"),
        Nic::new(Some(vec![s("10.0.0.1/24")]), None, None, None, None),
    )]);
    let new = make_netplan(vec![(
        s("eth1"),
        Nic::new(Some(vec![s("10.0.1.1/24")]), None, None, None, None),
    )]);

    base.merge(new);

    assert_eq!(base.network.ethernets.len(), 2);
    assert!(base.network.ethernets.iter().any(|(n, _)| n == "eth0"));
    assert!(base.network.ethernets.iter().any(|(n, _)| n == "eth1"));
}

#[test]
fn merge_overwrites_existing_interface() {
    let mut base = make_netplan(vec![(
        s("eth0"),
        Nic::new(Some(vec![s("10.0.0.1/24")]), None, None, None, None),
    )]);
    let new = make_netplan(vec![(
        s("eth0"),
        Nic::new(
            Some(vec![s("192.168.1.1/24")]),
            Some(false),
            Some(s("192.168.1.254")),
            None,
            None,
        ),
    )]);

    base.merge(new);

    assert_eq!(base.network.ethernets.len(), 1);
    let (_, nic) = &base.network.ethernets[0];
    assert_eq!(nic.addresses, Some(vec![s("192.168.1.1/24")]));
    assert_eq!(nic.gateway4, Some(s("192.168.1.254")));
}

#[test]
fn merge_updates_version_and_renderer() {
    let mut base = make_netplan(vec![]);
    let mut new = make_netplan(vec![]);
    new.network.version = Some(3);
    new.network.renderer = Some(s("NetworkManager"));

    base.merge(new);

    assert_eq!(base.network.version, Some(3));
    assert_eq!(base.network.renderer, Some(s("NetworkManager")));
}

#[test]
fn merge_sorts_interfaces_alphabetically() {
    let mut base = make_netplan(vec![(s("eth2"), Nic::new(None, None, None, None, None))]);
    let new = make_netplan(vec![
        (s("eth0"), Nic::new(None, None, None, None, None)),
        (s("eth1"), Nic::new(None, None, None, None, None)),
    ]);

    base.merge(new);

    assert_eq!(names(&base), vec!["eth0", "eth1", "eth2"]);
}

#[test]
fn merge_preserves_base_when_new_has_none_version_and_renderer() {
    let mut base = make_netplan(vec![]);
    let mut new = make_netplan(vec![]);
    new.network.version = None;
    new.network.renderer = None;

    base.merge(new);

    assert_eq!(base.network.version, Some(2));
    assert_eq!(base.network.renderer, Some(s("networkd")));
}

#[test]
fn merge_with_duplicate_interface_entries_in_new_keeps_last_value() {
    let mut base = make_netplan(vec![(
        s("eth0"),
        Nic::new(Some(vec![s("10.0.0.1/24")]), None, None, None, None),
    )]);
    let new = make_netplan(vec![
        (
            s("eth0"),
            Nic::new(Some(vec![s("192.168.1.10/24")]), None, Some(s("192.168.1.1")), None, None),
        ),
        (
            s("eth0"),
            Nic::new(Some(vec![s("192.168.1.20/24")]), None, Some(s("192.168.1.254")), None, None),
        ),
    ]);

    base.merge(new);

    assert_eq!(base.network.ethernets.len(), 1);
    let (_, nic) = &base.network.ethernets[0];
    assert_eq!(nic.addresses, Some(vec![s("192.168.1.20/24")]));
    assert_eq!(nic.gateway4, Some(s("192.168.1.254")));
}

#[test]
fn merge_with_itself_keeps_sorted_list_unchanged() {
    let list = || {
        vec![
            (s("eth0"), Nic::new(Some(vec![s("10.0.0.1/24")]), None, None, None, None)),
            (s("eth1"), Nic::new(None, Some(true), None, None, None)),
            (s("eth2"), Nic::new(None, None, Some(s("10.0.2.254")), None, None)),
        ]
    };
    let mut base = make_netplan(list());
    base.merge(make_netplan(list()));
    assert_eq!(names(&base), vec!["eth0", "eth1", "eth2"]);
    assert_eq!(base.network.ethernets[0].1.addresses, Some(vec![s("10.0.0.1/24")]));
    assert_eq!(base.network.ethernets[1].1.dhcp4, Some(true));
    assert_eq!(base.network.ethernets[2].1.gateway4, Some(s("10.0.2.254")));
}

#[test]
fn merge_two_fragments_in_order_keeps_last_written() {
    let mut base = make_netplan(vec![]);
    base.merge(make_netplan(vec![(
        s("eth0"),
        Nic::new(Some(vec![s("10.0.0.1/24")]), None, None, None, None),
    )]));
    base.merge(make_netplan(vec![(
        s("eth0"),
        Nic::new(Some(vec![s("10.0.0.2/24")]), None, None, None, None),
    )]));
    assert_eq!(base.network.ethernets.len(), 1);
    assert_eq!(base.network.ethernets[0].1.addresses, Some(vec![s("10.0.0.2/24")]));
}

#[test]
fn delete_removes_specified_address() {
    let mut netplan = make_netplan(vec![(
        s("eth0"),
        Nic::new(Some(vec![s("10.0.0.1/24"), s("10.0.0.2/24")]), None, None, None, None),
    )]);
    let to_delete = NicOutput::new(Some(vec![s("10.0.0.1/24")]), None, None, None);

    netplan.delete(&s("eth0"), &to_delete).expect("deleting one address should succeed");

    let (_, nic) = &netplan.network.ethernets[0];
    assert_eq!(nic.addresses, Some(vec![s("10.0.0.2/24")]));
}

#[test]
fn delete_removes_gateway_when_matching() {
    let mut netplan = make_netplan(vec![(
        s("eth0"),
        Nic::new(None, None, Some(s("10.0.0.254")), None, None),
    )]);
    let to_delete = NicOutput::new(None, None, Some(s("10.0.0.254")), None);

    netplan.delete(&s("eth0"), &to_delete).expect("deleting matching gateway should succeed");

    let (_, nic) = &netplan.network.ethernets[0];
    assert_eq!(nic.gateway4, None);
}

#[test]
fn delete_preserves_gateway_when_not_matching() {
    let mut netplan = make_netplan(vec![(
        s("eth0"),
        Nic::new(None, None, Some(s("10.0.0.254")), None, None),
    )]);
    let to_delete = NicOutput::new(None, None, Some(s("192.168.1.1")), None);

    netplan
        .delete(&s("eth0"), &to_delete)
        .expect("deleting non-matching gateway request should succeed");

    let (_, nic) = &netplan.network.ethernets[0];
    assert_eq!(nic.gateway4, Some(s("10.0.0.254")));
}

#[test]
fn delete_removes_nameserver() {
    let nameservers = vec![(s("addresses"), vec![s("8.8.8.8"), s("1.1.1.1")])];
    let mut netplan = make_netplan(vec![(
        s("eth0"),
        Nic::new(None, None, None, Some(nameservers), None),
    )]);
    let to_delete = NicOutput::new(None, None, None, Some(vec![s("8.8.8.8")]));

    netplan.delete(&s("eth0"), &to_delete).expect("deleting one nameserver should succeed");

    let (_, nic) = &netplan.network.ethernets[0];
    assert!(nic.nameservers.is_some(), "nameservers should remain present after partial delete");
    let addrs = nic
        .nameserver("addresses")
        .expect("addresses entry should remain after partial delete");
    assert_eq!(addrs, &vec![s("1.1.1.1")]);
}

#[test]
fn delete_fails_for_nonexistent_interface() {
    let mut netplan = make_netplan(vec![(s("eth0"), Nic::new(None, None, None, None, None))]);
    let to_delete = NicOutput::new(None, None, None, None);

    let err = netplan
        .delete(&s("eth99"), &to_delete)
        .expect_err("deleting unknown interface should fail");
    assert!(err.message().contains("not found"));
}

#[test]
fn delete_handles_empty_delete_request() {
    let mut netplan = make_netplan(vec![(
        s("eth0"),
        Nic::new(Some(vec![s("10.0.0.1/24")]), None, Some(s("10.0.0.254")), None, None),
    )]);
    let to_delete = NicOutput::new(None, None, None, None);

    netplan.delete(&s("eth0"), &to_delete).expect("empty delete request should succeed");

    let (_, nic) = &netplan.network.ethernets[0];
    assert_eq!(nic.addresses, Some(vec![s("10.0.0.1/24")]));
    assert_eq!(nic.gateway4, Some(s("10.0.0.254")));
}

#[test]
fn delete_preserves_addresses_when_requested_address_not_present() {
    let mut netplan = make_netplan(vec![(
        s("eth0"),
        Nic::new(Some(vec![s("10.0.0.1/24")]), None, None, None, None),
    )]);
    let to_delete = NicOutput::new(Some(vec![s("10.0.0.99/24")]), None, None, None);

    netplan
        .delete(&s("eth0"), &to_delete)
        .expect("deleting absent address should still succeed");

    let (_, nic) = &netplan.network.ethernets[0];
    assert_eq!(nic.addresses, Some(vec![s("10.0.0.1/24")]));
}

#[test]
fn delete_keeps_addresses_none_when_interface_has_no_addresses() {
    let mut netplan = make_netplan(vec![(s("eth0"), Nic::new(None, None, None, None, None))]);
    let to_delete = NicOutput::new(Some(vec![s("10.0.0.1/24")]), None, None, None);

    netplan
        .delete(&s("eth0"), &to_delete)
        .expect("deleting address from none should succeed");

    let (_, nic) = &netplan.network.ethernets[0];
    assert!(nic.addresses.is_none());
}

#[test]
fn delete_leaves_empty_address_vec_when_all_addresses_removed() {
    let mut netplan = make_netplan(vec![(
        s("eth0"),
        Nic::new(Some(vec![s("10.0.0.1/24")]), None, None, None, None),
    )]);
    let to_delete = NicOutput::new(Some(vec![s("10.0.0.1/24")]), None, None, None);

    netplan.delete(&s("eth0"), &to_delete).expect("deleting last address should succeed");

    let (_, nic) = &netplan.network.ethernets[0];
    assert!(nic.addresses.as_ref().is_some_and(Vec::is_empty));
}

#[test]
fn delete_removes_matching_value_from_all_nameserver_keys() {
    let nameservers = vec![
        (s("addresses"), vec![s("shared")]),
        (s("search"), vec![s("shared"), s("keep")]),
    ];
    let mut netplan = make_netplan(vec![(
        s("eth0"),
        Nic::new(None, None, None, Some(nameservers), None),
    )]);
    let to_delete = NicOutput::new(None, None, None, Some(vec![s("shared")]));

    netplan.delete(&s("eth0"), &to_delete).expect("deleting nameserver should succeed");

    let (_, nic) = &netplan.network.ethernets[0];
    assert!(nic.nameservers.is_some(), "nameservers map should remain present");
    let addresses = nic
        .nameserver("addresses")
        .expect("addresses key should still exist after delete");
    let search = nic.nameserver("search").expect("search key should still exist after delete");
    assert!(addresses.is_empty());
    assert_eq!(search, &vec![s("keep")]);
}

#[test]
fn delete_preserves_nameservers_when_value_not_present() {
    let nameservers = vec![(s("addresses"), vec![s("8.8.8.8"), s("1.1.1.1")])];
    let mut netplan = make_netplan(vec![(
        s("eth0"),
        Nic::new(None, None, None, Some(nameservers), None),
    )]);
    let to_delete = NicOutput::new(None, None, None, Some(vec![s("9.9.9.9")]));

    netplan
        .delete(&s("eth0"), &to_delete)
        .expect("deleting absent nameserver should still succeed");

    let (_, nic) = &netplan.network.ethernets[0];
    assert!(nic.nameservers.is_some(), "nameservers should remain unchanged");
    let addresses = nic.nameserver("addresses").expect("addresses key should remain unchanged");
    assert_eq!(addresses, &vec![s("8.8.8.8"), s("1.1.1.1")]);
}

#[test]
fn delete_keeps_nameservers_none_when_interface_has_no_nameservers() {
    let mut netplan = make_netplan(vec![(s("eth0"), Nic::new(None, None, None, None, None))]);
    let to_delete = NicOutput::new(None, None, None, Some(vec![s("8.8.8.8")]));

    netplan
        .delete(&s("eth0"), &to_delete)
        .expect("deleting nameserver from none should succeed");

    let (_, nic) = &netplan.network.ethernets[0];
    assert!(nic.nameservers.is_none());
}

#[test]
fn set_interface_updates_existing() {
    let mut netplan = make_netplan(vec![(
        s("eth0"),
        Nic::new(Some(vec![s("10.0.0.1/24")]), None, None, None, None),
    )]);
    let new_nic = Nic::new(
        Some(vec![s("192.168.1.1/24")]),
        Some(false),
        Some(s("192.168.1.254")),
        None,
        None,
    );

    netplan.set_interface(&s("eth0"), new_nic);

    assert_eq!(netplan.network.ethernets.len(), 1);
    let (_, nic) = &netplan.network.ethernets[0];
    assert_eq!(nic.addresses, Some(vec![s("192.168.1.1/24")]));
    assert_eq!(nic.gateway4, Some(s("192.168.1.254")));
}

#[test]
fn set_interface_adds_new_and_sorts() {
    let mut netplan = make_netplan(vec![(s("eth1"), Nic::new(None, None, None, None, None))]);
    let new_nic = Nic::new(Some(vec![s("10.0.0.1/24")]), None, None, None, None);

    netplan.set_interface(&s("eth0"), new_nic);

    assert_eq!(netplan.network.ethernets.len(), 2);
    assert_eq!(names(&netplan), vec!["eth0", "eth1"]);
}

#[test]
fn set_interface_orders_by_bytes() {
    let mut netplan = make_netplan(vec![]);
    for name in ["eth10", "Eth0", "eth2", "br0", "eth1"] {
        netplan.set_interface(&s(name), Nic::new(None, None, None, None, None));
    }
    assert_eq!(names(&netplan), vec!["Eth0", "br0", "eth1", "eth10", "eth2"]);
}

#[test]
fn init_interface_creates_empty_config() {
    let mut netplan = make_netplan(vec![]);

    netplan.init_interface(&s("eth0"));

    assert_eq!(netplan.network.ethernets.len(), 1);
    let (name, nic) = &netplan.network.ethernets[0];
    assert_eq!(name, "eth0");
    assert!(nic.addresses.is_none());
    assert!(nic.dhcp4.is_none());
    assert!(nic.gateway4.is_none());
    assert!(nic.nameservers.is_none());
}

#[test]
fn init_interface_resets_existing_interface_fields() {
    let nameservers = vec![(s("addresses"), vec![s("8.8.8.8")])];
    let mut netplan = make_netplan(vec![(
        s("eth0"),
        Nic::new(
            Some(vec![s("10.0.0.1/24")]),
            Some(false),
            Some(s("10.0.0.254")),
            Some(nameservers),
            None,
        ),
    )]);

    netplan.init_interface(&s("eth0"));

    let (_, nic) = &netplan.network.ethernets[0];
    assert!(nic.addresses.is_none());
    assert!(nic.dhcp4.is_none());
    assert!(nic.gateway4.is_none());
    assert!(nic.nameservers.is_none());
}

fn bridge(interfaces: &str, addresses: &str, gateway4: Option<&str>, search: Option<&str>, ns: &str) -> roxy::netplan::Bridge {
    roxy::netplan::Bridge {
        interfaces: vec![s(interfaces)],
        addresses: vec![s(addresses)],
        gateway4: gateway4.map(s),
        nameservers: roxy::netplan::Address {
            search: search.map(|x| vec![s(x)]),
            addresses: Some(vec![s(ns)]),
        },
    }
}

fn make_netplan_with_bridges(bridges: Option<Vec<(String, roxy::netplan::Bridge)>>) -> NetplanYaml {
    let mut n = make_netplan(vec![]);
    n.network.bridges = bridges;
    n
}

fn find_bridge<'a>(n: &'a NetplanYaml, name: &str) -> Option<&'a roxy::netplan::Bridge> {
    n.network.bridges.as_ref()?.iter().find(|(k, _)| k == name).map(|(_, b)| b)
}

#[test]
fn merge_overwrites_and_inserts_bridges() {
    let base_bridges = vec![(
        s("br0"),
        bridge("eth0", "10.0.0.10/24", Some("10.0.0.1"), None, "8.8.8.8"),
    )];
    let new_bridges = vec![
        (s("br0"), bridge("eth1", "192.168.1.10/24", Some("192.168.1.1"), None, "1.1.1.1")),
        (s("br1"), bridge("eth2", "172.16.0.10/24", None, Some("example.local"), "9.9.9.9")),
    ];
    let mut base = make_netplan_with_bridges(Some(base_bridges));
    let new = make_netplan_with_bridges(Some(new_bridges));

    base.merge(new);

    let bridges = base.network.bridges.as_ref().expect("bridges should remain present after merge");
    assert_eq!(bridges.len(), 2);
    let br0 = find_bridge(&base, "br0").expect("bridge br0 should be overwritten by new config");
    assert_eq!(br0.interfaces, vec![s("eth1")]);
    assert_eq!(br0.gateway4, Some(s("192.168.1.1")));
    let br1 = find_bridge(&base, "br1").expect("bridge br1 should be inserted from new config");
    assert_eq!(br1.addresses, vec![s("172.16.0.10/24")]);
}

#[test]
fn merge_preserves_existing_bridges_when_new_has_none() {
    let base_bridges = vec![(
        s("br0"),
        bridge("eth0", "10.0.0.10/24", Some("10.0.0.1"), Some("example.local"), "8.8.8.8"),
    )];
    let mut base = make_netplan_with_bridges(Some(base_bridges));
    let new = make_netplan_with_bridges(None);

    base.merge(new);

    let bridges = base
        .network
        .bridges
        .as_ref()
        .expect("base bridges should be preserved when new has none");
    assert_eq!(bridges.len(), 1);
    let br0 = find_bridge(&base, "br0").expect("existing bridge should remain after merge");
    assert_eq!(br0.interfaces, vec![s("eth0")]);
}

#[test]
fn merge_preserves_unmentioned_existing_bridge_entries() {
    let base_bridges = vec![
        (s("br0"), bridge("eth0", "10.0.0.10/24", Some("10.0.0.1"), None, "8.8.8.8")),
        (s("br9"), bridge("eth9", "172.16.9.10/24", None, Some("keep.local"), "9.9.9.9")),
    ];
    let new_bridges = vec![(
        s("br0"),
        bridge("eth1", "192.168.1.10/24", Some("192.168.1.1"), None, "1.1.1.1"),
    )];
    let mut base = make_netplan_with_bridges(Some(base_bridges));
    let new = make_netplan_with_bridges(Some(new_bridges));
    base.merge(new);

    let bridges = base.network.bridges.as_ref().expect("base bridges should remain present");
    assert_eq!(bridges.len(), 2);
    let br9 = find_bridge(&base, "br9").expect("unmentioned existing bridge should not be removed");
    assert_eq!(br9.interfaces, vec![s("eth9")]);
}

#[test]
fn fragment_names_sort_bytewise() {
    let names = vec![s("50-cloud.yaml"), s("01-netcfg.yaml"), s("99-z.yaml"), s("01-Netcfg.yaml"), s("01-netcfg.yaml")];
    assert_eq!(
        roxy::order::sort_names(&names),
        vec![s("01-Netcfg.yaml"), s("01-netcfg.yaml"), s("01-netcfg.yaml"), s("50-cloud.yaml"), s("99-z.yaml")]
    );
    assert!(roxy::order::sort_names(&vec![]).is_empty());
    assert!(roxy::order::name_less(&s("eth1"), &s("eth10")));
    assert!(!roxy::order::name_less(&s("eth2"), &s("eth10")));
    assert!(!roxy::order::name_less(&s("eth0"), &s("eth0")));
}

#[test]
fn merge_inserts_bridges_into_document_without_bridges() {
    let mut base = make_netplan_with_bridges(None);
    let new_bridges = vec![
        (s("br0"), bridge("eth1", "192.168.1.10/24", None, None, "1.1.1.1")),
        (s("br0"), bridge("eth2", "192.168.2.10/24", None, None, "1.1.1.1")),
    ];
    base.merge(make_netplan_with_bridges(Some(new_bridges)));
    let bridges = base.network.bridges.as_ref().expect("fragment bridges are kept");
    assert_eq!(bridges.len(), 1);
    assert_eq!(find_bridge(&base, "br0").expect("br0").interfaces, vec![s("eth2")]);
}

#[test]
fn nameserver_key_check() {
    let ok = make_netplan(vec![(s("eth0"), Nic::new(None, None, None, Some(vec![(s("addresses"), vec![]), (s("search"), vec![])]), None))]);
    assert!(ok.nameserver_keys_distinct());
    let bad = make_netplan(vec![(s("eth0"), Nic::new(None, None, None, Some(vec![(s("search"), vec![]), (s("search"), vec![])]), None))]);
    assert!(!bad.nameserver_keys_distinct());
}
