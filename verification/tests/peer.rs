use darwin_vxlan::addr::{IpAddr, IpCidr, SocketAddr};
use darwin_vxlan::cli::{Args, DEFAULT_MTU};
use darwin_vxlan::peer::{parse_mac, PeerFields, PeerSpec};

/// The address that a dotted quad denotes.
fn quad(text: &str) -> Option<IpAddr> {
    let octets: Vec<u8> = text.split('.').filter_map(|octet| octet.parse().ok()).collect();
    if octets.len() == 4 && text.split('.').count() == 4 {
        Some(IpAddr::V4(u32::from_be_bytes([octets[0], octets[1], octets[2], octets[3]])))
    } else {
        None
    }
}

/// Reads a peer as a caller does: cut, read the addresses, put together.
fn peer(value: &str) -> Result<PeerSpec, String> {
    match PeerFields::split(value) {
        None => PeerSpec::from_str(value, None, None),
        Some(PeerFields::Mapped { pod_cidr, underlay }) => {
            let pod_addr = pod_cidr.split('/').next().and_then(quad);
            PeerSpec::from_str(value, pod_addr, quad(underlay))
        }
        Some(PeerFields::Vtep { underlay, .. }) => PeerSpec::from_str(value, None, quad(underlay)),
    }
}

#[test]
fn args_parse_peer_mappings() {
    let peer_specs: Vec<PeerSpec> = ["10.42.1.0/24=192.168.1.111", "10.42.2.0/24=192.168.1.112"]
        .iter()
        .map(|value| peer(value).unwrap())
        .collect();
    assert_eq!(
        peer_specs,
        vec![
            PeerSpec {
                underlay: quad("192.168.1.111").unwrap(),
                pod_cidr: Some(IpCidr { addr: quad("10.42.1.0").unwrap(), prefix_len: 24 }),
                vtep_mac: None,
            },
            PeerSpec {
                underlay: quad("192.168.1.112").unwrap(),
                pod_cidr: Some(IpCidr { addr: quad("10.42.2.0").unwrap(), prefix_len: 24 }),
                vtep_mac: None,
            },
        ]
    );
    let a = Args {
        vni: 1,
        local: quad("192.168.1.10").unwrap(),
        remotes: Vec::new(),
        peer_specs,
        port: 8472,
        mtu: DEFAULT_MTU,
        bridge_ipv4: None,
        bridge_ipv6: None,
    };
    assert!(a.remotes.is_empty());
    assert_eq!(a.port, 8472);
    let endpoints: Vec<SocketAddr> = a.vtep_peers().iter().map(|peer| peer.endpoint).collect();
    assert_eq!(endpoints, vec![
        SocketAddr::new(quad("192.168.1.111").unwrap(), 8472),
        SocketAddr::new(quad("192.168.1.112").unwrap(), 8472),
    ]);
}

#[test]
fn args_invalid_peer_mapping_fails() {
    let result = peer("not-a-cidr=192.168.1.111");
    assert!(result.is_err());
    assert_eq!(
        result.unwrap_err(),
        "invalid peer CIDR not-a-cidr: \
         'not-a-cidr' is not valid CIDR notation (expected addr/prefixlen)",
    );
}

#[test]
fn peer_with_a_mac_address() {
    assert_eq!(peer("192.168.1.111,aa:BB:0c:+d:00:ff").unwrap(), PeerSpec {
        underlay: quad("192.168.1.111").unwrap(),
        pod_cidr: None,
        vtep_mac: Some([0xaa, 0xbb, 0x0c, 0x0d, 0x00, 0xff]),
    });
}

#[test]
fn peer_errors_are_exact() {
    let cases = [
        ("192.168.1.111", "expected POD_CIDR=UNDERLAY_IP"),
        ("", "expected POD_CIDR=UNDERLAY_IP"),
        ("10.42.1.0/24=nowhere", "invalid underlay IP address: nowhere"),
        ("x.y/24=nowhere", "invalid peer CIDR x.y/24: invalid IP address"),
        ("10.42.1.0/33=192.168.1.1", "invalid peer CIDR 10.42.1.0/33: invalid prefix length"),
        ("10.42.1.0/=192.168.1.1", "invalid peer CIDR 10.42.1.0/: invalid prefix length"),
        ("nowhere,00:11:22:33:44:55", "invalid underlay IP address: nowhere"),
        ("192.168.1.1,00:11:22:33:44", "invalid VTEP MAC address: 00:11:22:33:44"),
        ("192.168.1.1,0:11:22:33:44:555", "invalid VTEP MAC address: 0:11:22:33:44:555"),
        ("192.168.1.1,0g:11:22:33:44:55", "invalid VTEP MAC address: 0g:11:22:33:44:55"),
    ];
    for (value, message) in cases {
        assert_eq!(peer(value).unwrap_err(), message, "{}", value);
    }
}

#[test]
fn the_equals_sign_goes_first() {
    match PeerFields::split("a,b=c,d=e") {
        Some(PeerFields::Mapped { pod_cidr, underlay }) => {
            assert_eq!((pod_cidr, underlay), ("a,b", "c,d=e"));
        }
        other => panic!("not a mapping: {:?}", other),
    }
    match PeerFields::split("a,b,c") {
        Some(PeerFields::Vtep { underlay, mac }) => assert_eq!((underlay, mac), ("a", "b,c")),
        other => panic!("not an endpoint: {:?}", other),
    }
    assert!(PeerFields::split("abc").is_none());
}

#[test]
fn mac_octets_agree_with_std() {
    let chars = ['0', '9', 'a', 'f', 'A', 'F', 'g', 'G', '+', '-', ' ', '/', ':', '`', '@', '\u{e9}'];
    for a in chars {
        for b in chars {
            let octet = format!("{}{}", a, b);
            let expected = if octet.contains(':') || octet.len() != 2 {
                None
            } else {
                u8::from_str_radix(&octet, 16).ok()
            };
            let mac = format!("01:02:03:04:05:{}", octet);
            assert_eq!(
                parse_mac(&mac),
                expected.map(|last| [1, 2, 3, 4, 5, last]),
                "{}",
                mac,
            );
        }
    }
}

#[test]
fn prefix_lengths_fit_the_address() {
    let v4 = Some(IpAddr::V4(0x0a2a_0000));
    let v6 = Some(IpAddr::V6(1));
    assert_eq!(IpCidr::from_str("x/32", v4).unwrap().prefix_len, 32);
    assert_eq!(IpCidr::from_str("x/+08", v4).unwrap().prefix_len, 8);
    assert_eq!(IpCidr::from_str("x/128", v6).unwrap(), IpCidr {
        addr: IpAddr::V6(1),
        prefix_len: 128,
    });
    for text in ["x/33", "x/-1", "x/", "x/+", "x/1 ", "x/4294967328", "x/99999999999999999999"] {
        assert_eq!(IpCidr::from_str(text, v4).unwrap_err(), "invalid prefix length", "{}", text);
    }
    assert_eq!(IpCidr::from_str("x/129", v6).unwrap_err(), "invalid prefix length");
    assert_eq!(IpCidr::from_str("x/8", None).unwrap_err(), "invalid IP address");
}
