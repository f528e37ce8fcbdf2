//! Selection of the host-gateway address.

use openshell_supervisor_network::host_gateway::{
    host_alias_addresses, resolution, resolve, select_address, HostAddress, HostGatewayError,
    HostsFile, Resolution, ResolveError,
};

/// Reads the address texts that the tests use.
fn parse(text: &str) -> Option<HostAddress> {
    if let Some(mapped) = text.strip_prefix("::ffff:") {
        if let Some(HostAddress::V4(a, b, c, d)) = parse(mapped) {
            let high = u16::from(a) * 256 + u16::from(b);
            let low = u16::from(c) * 256 + u16::from(d);
            return Some(HostAddress::V6(0, 0, 0, 0, 0, 0xffff, high, low));
        }
    }
    match text {
        "fd00::254" => return Some(HostAddress::V6(0xfd00, 0, 0, 0, 0, 0, 0, 0x254)),
        "fd00::253" => return Some(HostAddress::V6(0xfd00, 0, 0, 0, 0, 0, 0, 0x253)),
        "fd00:ec2::254" => return Some(HostAddress::V6(0xfd00, 0xec2, 0, 0, 0, 0, 0, 0x254)),
        "::1" => return Some(HostAddress::V6(0, 0, 0, 0, 0, 0, 0, 1)),
        "::" => return Some(HostAddress::V6(0, 0, 0, 0, 0, 0, 0, 0)),
        "ff02::1" => return Some(HostAddress::V6(0xff02, 0, 0, 0, 0, 0, 0, 1)),
        _ => {}
    }
    let parts: Vec<u8> = text.split('.').filter_map(|part| part.parse().ok()).collect();
    match parts[..] {
        [a, b, c, d] => Some(HostAddress::V4(a, b, c, d)),
        _ => None,
    }
}

fn select(hosts: &str) -> Result<Option<HostAddress>, HostGatewayError> {
    let addresses = host_alias_addresses(hosts);
    select_address(&addresses.iter().map(|text| parse(text)).collect())
}

#[test]
fn configuration_activation_host_gateway_backend_pin_is_authoritative() {
    let pin = parse("192.168.65.254").unwrap();
    let unreadable = HostsFile::Failed("is a directory".to_string());
    assert_eq!(resolve_hosts(Some(pin), &unreadable), Ok(Some(pin)));
    assert_eq!(resolution(Some(pin)), Resolution::Pinned(pin));
    assert_eq!(resolution(None), Resolution::ReadHosts);
}

#[test]
fn configuration_activation_host_gateway_reads_trusted_hosts() {
    let hosts = HostsFile::Contents("192.168.65.254 host.openshell.internal\n".to_string());
    let pin = resolve_hosts(None, &hosts).unwrap();
    assert_eq!(pin, parse("192.168.65.254"));
}

#[test]
fn configuration_activation_host_gateway_dual_stack_is_order_independent() {
    for hosts in [
        "192.168.65.254 host.openshell.internal\nfd00::254 host.openshell.internal\n",
        "fd00::254 host.openshell.internal\n192.168.65.254 host.openshell.internal\n",
    ] {
        assert_eq!(select(hosts).unwrap(), parse("192.168.65.254"));
    }
    assert_eq!(
        select("fd00::254 host.openshell.internal\n").unwrap(),
        parse("fd00::254")
    );
}

#[test]
fn configuration_activation_host_gateway_parses_aliases_and_canonical_duplicates() {
    let hosts = "# 127.0.0.1 host.openshell.internal\n\
        127.0.0.1 localhost\n\
        192.168.65.254 another HOST.OPENSHELL.INTERNAL. # driver alias\n\
        ::ffff:192.168.65.254 host.openshell.internal\n";
    assert_eq!(select(hosts).unwrap(), parse("192.168.65.254"));
}

#[test]
fn configuration_activation_host_gateway_missing_alias_remains_unavailable() {
    assert_eq!(resolve_hosts(None, &HostsFile::NotFound).unwrap(), None);
    assert_eq!(
        select("127.0.0.1 localhost\n192.168.65.254 host.openshell.internal.example\n").unwrap(),
        None
    );
}

#[test]
fn configuration_activation_host_gateway_rejects_ambiguous_families() {
    for hosts in [
        "192.168.65.253 host.openshell.internal\n192.168.65.254 host.openshell.internal\n",
        "fd00::253 host.openshell.internal\nfd00::254 host.openshell.internal\n",
        "192.168.65.254 host.openshell.internal\nfd00::253 host.openshell.internal\nfd00::254 host.openshell.internal\n",
    ] {
        assert!(select(hosts).unwrap_err().message().contains("ambiguous"));
    }
}

#[test]
fn configuration_activation_host_gateway_rejects_unsafe_and_mapped_addresses() {
    for address in [
        "169.254.169.254",
        "::ffff:169.254.169.254",
        "fd00:ec2::254",
        "127.0.0.1",
        "::1",
        "::ffff:127.0.0.1",
        "0.0.0.0",
        "0.1.2.3",
        "::",
        "::ffff:0.0.0.0",
        "224.0.0.1",
        "ff02::1",
        "::ffff:224.0.0.1",
        "255.255.255.255",
        "240.0.0.1",
    ] {
        let hosts =
            format!("192.168.65.254 host.openshell.internal\n{address} host.openshell.internal\n");
        assert!(
            select(&hosts).unwrap_err().message().contains("unsafe"),
            "{address}"
        );
    }
}

#[test]
fn configuration_activation_host_gateway_rejects_invalid_or_unreadable_mapping() {
    assert!(select("invalid host.openshell.internal\n")
        .unwrap_err()
        .message()
        .contains("invalid address"));
    let unreadable = HostsFile::Failed("is a directory".to_string());
    assert!(resolve_hosts(None, &unreadable).is_err());
}

fn resolve_hosts(pin: Option<HostAddress>, hosts: &HostsFile) -> Result<Option<HostAddress>, ResolveError> {
    let table = match hosts {
        HostsFile::Contents(contents) => host_alias_addresses(contents)
            .into_iter()
            .map(|text| {
                let parsed = parse(&text);
                (text, parsed)
            })
            .collect(),
        _ => vec![],
    };
    resolve(pin, hosts, &table)
}

#[test]
fn reading_the_hosts_file_decides_without_a_pin() {
    let pin = parse("192.168.65.254");
    let failed = HostsFile::Failed("permission denied".to_string());
    let contents = HostsFile::Contents("10.0.0.7 host.openshell.internal\n".to_string());
    for hosts in [&HostsFile::NotFound, &failed, &contents] {
        assert_eq!(resolve_hosts(pin, hosts), Ok(pin));
    }
    assert_eq!(resolve_hosts(None, &HostsFile::NotFound), Ok(None));
    let error = resolve_hosts(None, &failed).unwrap_err();
    assert_eq!(error, ResolveError::Read("permission denied".to_string()));
    assert_eq!(error.message(), "read supervisor host-gateway mapping");
    assert_eq!(resolve_hosts(None, &contents), Ok(parse("10.0.0.7")));
    let unmapped = HostsFile::Contents("10.0.0.7 other.internal\n".to_string());
    assert_eq!(resolve_hosts(None, &unmapped), Ok(None));
    let invalid = HostsFile::Contents("invalid host.openshell.internal\n".to_string());
    let error = resolve_hosts(None, &invalid).unwrap_err();
    assert_eq!(error, ResolveError::Mapping(HostGatewayError::InvalidAddress));
    assert_eq!(error.message(), "supervisor host-gateway alias has an invalid address");
}

#[test]
fn refusal_does_not_depend_on_the_order() {
    for hosts in [
        "10.0.0.7 host.openshell.internal\n10.0.0.8 host.openshell.internal\n",
        "10.0.0.8 host.openshell.internal\n10.0.0.7 host.openshell.internal\n",
    ] {
        assert_eq!(select(hosts), Err(HostGatewayError::AmbiguousIpv4));
    }
}
