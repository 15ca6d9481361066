use darwin_vxlan::addr::{IpAddr, IpCidr, SocketAddr, VtepPeer};
use darwin_vxlan::cli::{Args, DEFAULT_MTU, DEFAULT_VXLAN_PORT};
use darwin_vxlan::error::TunnelError;
use darwin_vxlan::peer::PeerSpec;
use darwin_vxlan::setup::SetupAction;

fn v4(a: u8, b: u8, c: u8, d: u8) -> IpAddr {
    IpAddr::V4(u32::from_be_bytes([a, b, c, d]))
}

fn args(vni: u32, local: IpAddr, remotes: Vec<IpAddr>) -> Args {
    Args {
        vni,
        local,
        remotes,
        peer_specs: Vec::new(),
        port: DEFAULT_VXLAN_PORT,
        mtu: DEFAULT_MTU,
        bridge_ipv4: None,
        bridge_ipv6: None,
    }
}

#[test]
fn defaults_are_the_standard_ones() {
    assert_eq!(DEFAULT_VXLAN_PORT, 4789);
    assert_eq!(DEFAULT_MTU, 1450);
}

#[test]
fn args_missing_remote_fails() {
    let result = args(1, v4(0, 0, 0, 0), Vec::new()).run_until();
    assert!(result.is_err());
    assert!(matches!(result, Err(TunnelError::NoRemotes)));
}

#[test]
fn oversized_network_is_refused() {
    let result = args(0x0100_0000, v4(0, 0, 0, 0), vec![v4(1, 2, 3, 4)]).run_until();
    assert!(matches!(result, Err(TunnelError::VniOutOfRange(0x0100_0000))));
}

#[test]
fn missing_remotes_are_reported_before_the_network() {
    let result = args(0x0100_0000, v4(0, 0, 0, 0), Vec::new()).run_until();
    assert!(matches!(result, Err(TunnelError::NoRemotes)));
}

#[test]
fn one_remote_binds_the_common_port() {
    let mut a = args(1, v4(192, 168, 1, 10), vec![v4(192, 168, 1, 11)]);
    a.port = 8472;
    match a.run_until().unwrap().action() {
        SetupAction::Bind(addr) => assert_eq!(addr, SocketAddr::new(v4(192, 168, 1, 10), 8472)),
        other => panic!("not bound first: {:?}", other),
    }
}

#[test]
fn described_peers_come_before_the_others() {
    let network = IpCidr { addr: v4(10, 42, 1, 0), prefix_len: 24 };
    let mut a = args(1, v4(0, 0, 0, 0), vec![v4(1, 1, 1, 1), v4(2, 2, 2, 2)]);
    a.peer_specs.push(PeerSpec {
        underlay: v4(3, 3, 3, 3),
        pod_cidr: Some(network),
        vtep_mac: None,
    });
    a.peer_specs.push(PeerSpec {
        underlay: v4(4, 4, 4, 4),
        pod_cidr: None,
        vtep_mac: Some([1, 2, 3, 4, 5, 6]),
    });
    let port = DEFAULT_VXLAN_PORT;
    assert_eq!(a.vtep_peers(), vec![
        VtepPeer {
            endpoint: SocketAddr::new(v4(3, 3, 3, 3), port),
            pod_cidr: Some(network),
            vtep_mac: None,
        },
        VtepPeer {
            endpoint: SocketAddr::new(v4(4, 4, 4, 4), port),
            pod_cidr: None,
            vtep_mac: Some([1, 2, 3, 4, 5, 6]),
        },
        VtepPeer {
            endpoint: SocketAddr::new(v4(1, 1, 1, 1), port),
            pod_cidr: None,
            vtep_mac: None,
        },
        VtepPeer {
            endpoint: SocketAddr::new(v4(2, 2, 2, 2), port),
            pod_cidr: None,
            vtep_mac: None,
        },
    ]);
    assert!(a.run_until().is_ok());
}
