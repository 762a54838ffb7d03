use lightkeeper::configuration::HostSetting;
use lightkeeper::error::ErrorKind;
use lightkeeper::host::{parse_ipv4, Host, IpAddress};

fn v4(s: &str) -> Option<(u8, u8, u8, u8)> {
    match parse_ipv4(s) {
        Some(IpAddress::V4(a, b, c, d)) => Some((a, b, c, d)),
        _ => None,
    }
}

#[test]
fn dotted_decimal_addresses() {
    assert_eq!(v4("10.0.0.1"), Some((10, 0, 0, 1)));
    assert_eq!(v4("255.255.255.255"), Some((255, 255, 255, 255)));
    assert_eq!(v4("0.0.0.0"), Some((0, 0, 0, 0)));
    for bad in ["256.0.0.1", "1.2.3", "1.2.3.4.", "01.2.3.4", "1..2.3", "", "a.b.c.d", "1.2.3.4 ", "+1.2.3.4", "1234.1.1.1"] {
        assert_eq!(v4(bad), None, "{}", bad);
    }
}

#[test]
fn new_host_checks_name_and_parses_address() {
    let h = Host::new("web-1", "192.168.0.10", "", &vec![HostSetting::UseSudo]).unwrap();
    assert_eq!(h.name, "web-1");
    assert!(matches!(h.ip_address, IpAddress::V4(192, 168, 0, 10)));
    assert_eq!(h.settings, vec![HostSetting::UseSudo]);
    assert_eq!(h.get_address(), "192.168.0.10");

    let bad_ip = Host::new("web", "not-an-ip", "web.example.com", &Vec::new()).unwrap();
    assert!(matches!(bad_ip.ip_address, IpAddress::V4(0, 0, 0, 0)));
    assert_eq!(bad_ip.get_address(), "web.example.com");

    let e = Host::new("web_1", "10.0.0.1", "", &Vec::new()).unwrap_err();
    assert_eq!(e.kind, ErrorKind::InvalidConfig);
    assert_eq!(e.message, "Invalid host name");
}

#[test]
fn resolving_when_address_missing() {
    let mut h = Host::empty("db", &Vec::new());
    assert_eq!(h.needs_resolving(), Err(String::from("Host db does not have FQDN or IP address defined.")));
    h.fqdn = String::from("db.example.com");
    assert_eq!(h.needs_resolving(), Ok(true));
    assert_eq!(h.set_resolved(None), Err(String::from("Failed to resolve db.example.com: No addresses found.")));
    assert_eq!(h.set_resolved(Some(IpAddress::V4(10, 1, 2, 3))), Ok(()));
    assert_eq!(h.needs_resolving(), Ok(false));
    h.fqdn = String::new();
    assert_eq!(h.get_address(), "10.1.2.3");
    h.ip_address = IpAddress::V6(String::from("::1"));
    assert_eq!(h.get_address(), "::1");
}
