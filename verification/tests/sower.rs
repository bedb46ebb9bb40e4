use barley::Sower;

#[test]
fn test_parse_dnsmasq() {
    let ip = Sower::parse_dnsmasq("pxe-service=net:ipxe, X86PC,, http://127.0.0.1:8000/seed.ipxe");
    let ip = ip.unwrap();
    assert_eq!(ip, "127.0.0.1");
    let parts: Vec<u8> = ip.split('.').map(|p| p.parse().unwrap()).collect();
    assert_eq!(parts.len(), 4);
}

#[test]
fn parse_dnsmasq_finds_nothing_without_an_address() {
    assert_eq!(Sower::parse_dnsmasq("dhcp-range=127.0.0.1,proxy"), None);
    assert_eq!(Sower::parse_dnsmasq(""), None);
    assert_eq!(Sower::parse_dnsmasq("http://127.0.0.1/seed.ipxe"), None);
}

#[test]
fn parse_dnsmasq_takes_the_first_address_and_the_shortest_host() {
    assert_eq!(
        Sower::parse_dnsmasq("a=http://10.1.2.3:80/x\nb=http://10.9.9.9:81/y"),
        Some("10.1.2.3".to_string())
    );
    assert_eq!(Sower::parse_dnsmasq("http://[::1]:8000/"), Some("[::1]".to_string()));
    assert_eq!(Sower::parse_dnsmasq("http://host:x http://h2:1/"), Some("host:x http://h2".to_string()));
}
