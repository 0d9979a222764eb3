use roxy::interface::{Nic, NicOutput};

fn s(x: &str) -> String {
    x.to_string()
}

#[test]
fn test_nic_output_to_from_roundtrip() {
    let output = NicOutput::new(
        Some(vec![s("10.0.0.1/24"), s("10.0.0.2/24")]),
        Some(true),
        Some(s("10.0.0.254")),
        Some(vec![s("8.8.8.8"), s("1.1.1.1")]),
    );

    let nic = output.to();
    assert_eq!(nic.addresses, Some(vec![s("10.0.0.1/24"), s("10.0.0.2/24")]));
    assert_eq!(nic.dhcp4, Some(true));
    assert_eq!(nic.gateway4, Some(s("10.0.0.254")));
    assert_eq!(nic.optional, None);

    assert!(nic.nameservers.is_some(), "nameservers should be set");
    assert_eq!(nic.nameserver("addresses"), Some(&vec![s("8.8.8.8"), s("1.1.1.1")]));
    assert_eq!(nic.nameserver("search"), Some(&Vec::new()));

    let roundtrip = NicOutput::from(&nic);
    assert_eq!(roundtrip.addresses, output.addresses);
    assert_eq!(roundtrip.dhcp4, output.dhcp4);
    assert_eq!(roundtrip.gateway4, output.gateway4);
    assert_eq!(roundtrip.nameservers, output.nameservers);
}

#[test]
fn test_nic_output_display_full() {
    let output = NicOutput::new(
        Some(vec![s("10.0.0.1/24")]),
        Some(true),
        Some(s("10.0.0.254")),
        Some(vec![s("8.8.8.8")]),
    );

    let rendered = output.to_string();
    assert_eq!(
        rendered,
        "\taddresses: [\"10.0.0.1/24\"]\n\tdhcp4: true\n\tgateway4: 10.0.0.254\n\tnameservers: [\"8.8.8.8\"]"
    );
}

#[test]
fn test_nic_output_display_empty() {
    let output = NicOutput::new(None, None, None, None);
    let rendered = output.to_string();
    assert_eq!(rendered, "\taddresses: -\n\tdhcp4: -\n\tgateway4: -\n\tnameservers: -");
}

#[test]
fn nic_output_display_dhcp_false() {
    let output = NicOutput::new(None, Some(false), None, Some(vec![]));
    assert_eq!(output.to_string(), "\taddresses: -\n\tdhcp4: false\n\tgateway4: -\n\tnameservers: []");
}

#[test]
fn test_nic_output_to_without_nameservers() {
    let output = NicOutput::new(
        Some(vec![s("10.0.0.1/24")]),
        Some(false),
        Some(s("10.0.0.254")),
        None,
    );
    let nic = output.to();

    assert_eq!(nic.addresses, output.addresses);
    assert_eq!(nic.dhcp4, output.dhcp4);
    assert_eq!(nic.gateway4, output.gateway4);
    assert_eq!(nic.nameservers, None);
    assert_eq!(nic.optional, None);
}

#[test]
fn test_nic_output_from_missing_nameserver_addresses() {
    let nameservers = vec![(s("search"), vec![s("example.local")])];

    let nic = Nic::new(None, None, None, Some(nameservers), None);
    let output = NicOutput::from(&nic);

    assert_eq!(output.nameservers, None);
}

#[test]
fn test_nic_output_from_without_nameservers() {
    let nic = Nic::new(
        Some(vec![s("10.0.0.1/24")]),
        Some(true),
        Some(s("10.0.0.254")),
        None,
        None,
    );
    let output = NicOutput::from(&nic);

    assert_eq!(output.addresses, nic.addresses);
    assert_eq!(output.dhcp4, nic.dhcp4);
    assert_eq!(output.gateway4, nic.gateway4);
    assert_eq!(output.nameservers, None);
}

#[test]
fn projection_round_trip_with_all_fields_absent() {
    let output = NicOutput::new(None, None, None, None);
    let back = NicOutput::from(&output.to());
    assert_eq!(back.addresses, None);
    assert_eq!(back.dhcp4, None);
    assert_eq!(back.gateway4, None);
    assert_eq!(back.nameservers, None);
}

#[test]
fn projection_drops_boot_optional_flag() {
    let nic = Nic::new(
        None,
        Some(false),
        None,
        Some(vec![(s("addresses"), vec![s("9.9.9.9")]), (s("search"), vec![s("lan")])]),
        Some(true),
    );
    let output = NicOutput::from(&nic);
    assert_eq!(output.nameservers, Some(vec![s("9.9.9.9")]));
    assert_eq!(output.dhcp4, Some(false));
    assert_eq!(output.to().optional, None);
}

#[test]
fn render_fields_uses_given_list_texts() {
    let r = roxy::interface::render_fields(Some(s("L1")), None, &Some(s("gw")), None);
    assert_eq!(r, "\taddresses: L1\n\tdhcp4: -\n\tgateway4: gw\n\tnameservers: -");
}
