use proxmox_tui_installer::ip::IpAddress;
use proxmox_tui_installer::options::NetworkCandidate;
use proxmox_tui_installer::validate::{validate_network, NetworkError};

fn candidate(fqdn: &str, address: &str, gateway: &str, dns: &str) -> NetworkCandidate {
    NetworkCandidate {
        interface_name: "eth0".to_owned(),
        fqdn: fqdn.to_owned(),
        address_text: address.to_owned(),
        gateway_text: gateway.to_owned(),
        dns_text: dns.to_owned(),
    }
}

#[test]
fn well_formed_network_is_accepted() {
    let r = validate_network(candidate("node1.example.com", "192.168.0.10/24", "192.168.0.1", "1.1.1.1"))
        .unwrap();
    assert_eq!(r.interface_name, "eth0");
    assert_eq!(r.fqdn, "node1.example.com");
    assert_eq!(r.address.addr, IpAddress::V4(192, 168, 0, 10));
    assert_eq!(r.address.prefix_len, 24);
    assert_eq!(r.gateway, IpAddress::V4(192, 168, 0, 1));
    assert_eq!(r.dns_server, IpAddress::V4(1, 1, 1, 1));
}

#[test]
fn purely_numeric_fqdn_is_rejected() {
    let r = validate_network(candidate("12345", "192.168.0.10/24", "192.168.0.1", "1.1.1.1"));
    assert_eq!(r.unwrap_err(), NetworkError::NumericFqdn);
}

#[test]
fn mixed_alphanumeric_fqdn_is_accepted() {
    let r = validate_network(candidate("node1.example.com", "10.0.0.2/8", "10.0.0.1", "10.0.0.1"));
    assert!(r.is_ok());
}

#[test]
fn gateway_family_mismatch_is_rejected() {
    let r = validate_network(
        candidate("node1.example.com", "192.168.0.10/24", "0:0:0:0:0:0:0:1", "1.1.1.1"),
    );
    assert_eq!(r.unwrap_err(), NetworkError::GatewayFamilyMismatch);
}

#[test]
fn dns_family_mismatch_is_rejected() {
    let r = validate_network(
        candidate("node1.example.com", "192.168.0.10/24", "192.168.0.1", "0:0:0:0:0:0:0:1"),
    );
    assert_eq!(r.unwrap_err(), NetworkError::DnsFamilyMismatch);
}

#[test]
fn parse_failures_come_before_family_rules() {
    // A malformed host address is reported first, whatever else is
    // wrong with the candidate.
    let r = validate_network(candidate("12345", "not-a-cidr", "bad", "bad"));
    assert_eq!(r.unwrap_err(), NetworkError::BadAddress);
    let r = validate_network(candidate("12345", "192.168.0.10/24", "bad", "bad"));
    assert_eq!(r.unwrap_err(), NetworkError::BadGateway);
    let r = validate_network(candidate("12345", "192.168.0.10/24", "192.168.0.1", "bad"));
    assert_eq!(r.unwrap_err(), NetworkError::BadDns);
}

#[test]
fn all_ipv6_network_is_accepted() {
    let r = validate_network(
        candidate(
            "node1.example.com",
            "2001:db8:0:0:0:0:0:10/64",
            "2001:db8:0:0:0:0:0:1",
            "2001:db8:0:0:0:0:0:53",
        ),
    )
        .unwrap();
    assert_eq!(r.address.addr, IpAddress::V6(0x2001, 0xdb8, 0, 0, 0, 0, 0, 0x10));
    assert_eq!(r.gateway, IpAddress::V6(0x2001, 0xdb8, 0, 0, 0, 0, 0, 1));
}

#[test]
fn network_error_messages() {
    assert_eq!(
        NetworkError::GatewayFamilyMismatch.message(),
        "host and gateway IP address version must not differ"
    );
    assert_eq!(
        NetworkError::DnsFamilyMismatch.message(),
        "host and DNS IP address version must not differ"
    );
    assert_eq!(NetworkError::NumericFqdn.message(), "hostname cannot be purely numeric");
}
