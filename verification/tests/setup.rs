use darwin_vxlan::addr::{IpAddr, SocketAddr, VtepPeer};
use darwin_vxlan::error::TunnelError;
use darwin_vxlan::ifconfig::RunOutcome;
use darwin_vxlan::setup::{
    Outcome, SetupAction, SetupEvent, TunnelSetup, VmnetInfo, VxlanTunnel,
};

const LOCAL: IpAddr = IpAddr::V4(0x7f00_0001);

const INFO: VmnetInfo = VmnetInfo {
    notify_fd: 3,
    shutdown_write_fd: 4,
    shutdown_read_fd: 5,
    max_packet_size: 1468,
};

/// A host on which a tunnel is built: its bridges, what fails on it, and what
/// was done to it.
struct Host {
    bridges: Vec<String>,
    addresses: Vec<String>,
    vmnet_bridge: Option<String>,
    delay: u32,
    bind_error: Option<String>,
    vmnet_fails: bool,
    other_bridge: Option<String>,
    failing: Vec<String>,
    not_run: Vec<String>,
    log: Vec<String>,
}

impl Host {
    fn with_bridges(bridges: &[&str]) -> Host {
        Host {
            bridges: bridges.iter().map(|name| name.to_string()).collect(),
            addresses: vec!["192.168.64.1".to_string()],
            vmnet_bridge: None,
            delay: 0,
            bind_error: None,
            vmnet_fails: false,
            other_bridge: None,
            failing: Vec::new(),
            not_run: Vec::new(),
            log: Vec::new(),
        }
    }

    fn listing(&mut self) -> Vec<u8> {
        let mut text = "lo0: flags=8049\n\tinet 127.0.0.1 netmask 0xff000000\n".to_string();
        for name in &self.bridges {
            text.push_str(&format!("{}: flags=8863\n\tether 00:00:00:00:00:00\n", name));
        }
        if let Some(name) = &self.vmnet_bridge {
            if self.delay == 0 {
                text.push_str(&format!("{}: flags=8863\n", name));
            } else {
                self.delay -= 1;
            }
        }
        text.into_bytes()
    }

    fn description(&self, name: &str) -> Vec<u8> {
        let mut text = format!("{}: flags=8863\n", name);
        for addr in &self.addresses {
            text.push_str(&format!("\tinet {} netmask 0xffffff00\n\tinet6 fe80::1\n", addr));
        }
        text.into_bytes()
    }

    fn run(&mut self, args: &[String]) -> RunOutcome {
        let command = args.join(" ");
        self.log.push(command.clone());
        if self.not_run.contains(&command) {
            return RunOutcome::NotRun("denied".to_string());
        }
        if self.failing.contains(&command) {
            return RunOutcome::Exited { success: false, status: "exit status: 1".to_string() };
        }
        match args[args.len() - 1].as_str() {
            "create" => self.bridges.push(args[0].clone()),
            "destroy" => self.bridges.retain(|name| *name != args[0]),
            "delete" => self.addresses.retain(|addr| *addr != args[2]),
            "alias" => self.addresses.push(args[2].clone()),
            other => panic!("unknown command {}", other),
        }
        RunOutcome::Exited { success: true, status: "exit status: 0".to_string() }
    }

    fn start(&mut self) -> SetupEvent {
        if self.vmnet_fails {
            return SetupEvent::NotStarted;
        }
        let free = (100..).map(|unit| format!("bridge{}", unit)).find(|name| !self.bridges.contains(name));
        self.vmnet_bridge = self.other_bridge.clone().or(free);
        SetupEvent::Started(INFO)
    }

    fn perform(&mut self, action: SetupAction) -> SetupEvent {
        match action {
            SetupAction::Bind(_) => {
                self.log.push("bind".to_string());
                match &self.bind_error {
                    Some(error) => SetupEvent::NotBound(error.clone()),
                    None => SetupEvent::Bound,
                }
            }
            SetupAction::Query(args) => {
                if args == ["-a"] {
                    SetupEvent::Printed(Some(self.listing()))
                } else {
                    SetupEvent::Printed(Some(self.description(&args[0])))
                }
            }
            SetupAction::Run(args) => SetupEvent::Ran(self.run(&args)),
            SetupAction::StartVmnet(mtu) => {
                self.log.push(format!("start {}", mtu));
                self.start()
            }
            SetupAction::Sleep(ms) => {
                self.log.push(format!("sleep {}", ms));
                SetupEvent::Slept
            }
            SetupAction::StopVmnet => {
                self.log.push("stop".to_string());
                self.vmnet_bridge = None;
                SetupEvent::Stopped
            }
            SetupAction::Done => panic!("nothing to do"),
        }
    }

    fn build(&mut self, setup: TunnelSetup) -> Outcome {
        let mut setup = setup;
        loop {
            match setup.action() {
                SetupAction::Done => return setup.into_outcome().unwrap(),
                action => setup = setup.handle(self.perform(action)),
            }
        }
    }
}

fn tunnel(vni: u32, ipv4: Option<&str>, ipv6: Option<&str>) -> TunnelSetup {
    VxlanTunnel::new(vni, LOCAL, LOCAL, 4789, 1450, ipv4, ipv6).unwrap()
}

#[test]
fn network_199_gets_bridge199_and_leaves_no_temporary_bridge() {
    let mut host = Host::with_bridges(&["bridge0", "bridge150"]);
    let built = host.build(tunnel(199, None, None)).unwrap();
    assert_eq!(built.vni, 199);
    assert_eq!(built.bridge_name, "bridge199");
    assert_eq!(built.remote_addrs, vec![SocketAddr::new(LOCAL, 4789)]);
    assert_eq!(built.vmnet, INFO);
    assert_eq!(host.bridges, vec!["bridge0", "bridge150"]);
    assert_eq!(host.vmnet_bridge.as_deref(), Some("bridge199"));
    let created: Vec<&String> = host.log.iter().filter(|c| c.ends_with(" create")).collect();
    let destroyed: Vec<&String> = host.log.iter().filter(|c| c.ends_with(" destroy")).collect();
    assert_eq!(created.len(), 98);
    assert_eq!(created[0], "bridge100 create");
    assert_eq!(created[97], "bridge198 create");
    assert_eq!(destroyed.len(), 98);
    assert_eq!(destroyed[0], "bridge198 destroy");
    assert_eq!(destroyed[97], "bridge100 destroy");
    assert!(!host.log.contains(&"stop".to_string()));
}

#[test]
fn steps_of_a_whole_construction() {
    let mut host = Host::with_bridges(&["bridge100"]);
    host.delay = 2;
    let built = host.build(tunnel(102, Some("10.0.0.1/24"), Some("fd00::1/64"))).unwrap();
    assert_eq!(built.bridge_name, "bridge102");
    assert_eq!(host.log, vec![
        "bind",
        "bridge101 create",
        "start 1450",
        "sleep 100",
        "sleep 100",
        "bridge102 inet 192.168.64.1 delete",
        "bridge102 inet 10.0.0.1/24 alias",
        "bridge102 inet6 fd00::1 prefixlen 64 alias",
        "bridge101 destroy",
    ]);
    assert_eq!(host.addresses, vec!["10.0.0.1/24", "fd00::1"]);
}

#[test]
fn small_networks_take_the_bridge_that_vmnet_selects() {
    let mut host = Host::with_bridges(&["bridge0", "bridge100"]);
    let built = host.build(tunnel(1, None, None)).unwrap();
    assert_eq!(built.vni, 1);
    assert_eq!(built.bridge_name, "bridge101");
    assert_eq!(host.log, vec!["bind", "start 1450", "bridge101 inet 192.168.64.1 delete"]);
}

#[test]
fn tunnel_new_binds_explicit_flannel_port() {
    let setup = VxlanTunnel::new(1, LOCAL, LOCAL, 8472, 1450, None, None).unwrap();
    match setup.action() {
        SetupAction::Bind(addr) => assert_eq!(addr.port, 8472),
        other => panic!("not bound first: {:?}", other),
    }
    let built = Host::with_bridges(&[]).build(setup).unwrap();
    assert_eq!(built.remote_addrs, vec![SocketAddr::new(LOCAL, 8472)]);
}

#[test]
fn tunnel_new_with_remotes_rejects_empty_peer_list() {
    let result = VxlanTunnel::new_with_remotes(
        1,
        SocketAddr::new(LOCAL, 0),
        Vec::new(),
        1450,
        None,
        None,
    );
    assert!(result.is_err());
    assert!(matches!(result, Err(TunnelError::NoRemotes)));
}

#[test]
fn peers_become_remotes_in_order() {
    let endpoints = [SocketAddr::new(IpAddr::V4(1), 9), SocketAddr::new(IpAddr::V6(2), 10)];
    let peers: Vec<VtepPeer> = endpoints
        .iter()
        .map(|endpoint| VtepPeer { endpoint: *endpoint, pod_cidr: None, vtep_mac: None })
        .collect();
    let local = SocketAddr::new(LOCAL, 9);
    let setup = VxlanTunnel::new_with_peers(1, local, peers, 1450, None, None).unwrap();
    let built = Host::with_bridges(&[]).build(setup).unwrap();
    assert_eq!(built.remote_addrs, endpoints.to_vec());
    let refused = VxlanTunnel::new_with_peers(1, local, Vec::new(), 1450, None, None);
    assert!(matches!(refused, Err(TunnelError::NoRemotes)));
}

#[test]
fn tunnel_new_fails_when_ctx_null() {
    let mut host = Host::with_bridges(&[]);
    host.vmnet_fails = true;
    let result = host.build(tunnel(1, None, None));
    assert!(result.is_err());
    assert!(matches!(result, Err(TunnelError::VmnetUnavailable)));
    assert_eq!(host.log, vec!["bind", "start 1450"]);
}

#[test]
fn a_failed_start_releases_the_reservation() {
    let mut host = Host::with_bridges(&[]);
    host.vmnet_fails = true;
    assert!(host.build(tunnel(102, None, None)).is_err());
    assert_eq!(host.log, vec![
        "bind",
        "bridge100 create",
        "bridge101 create",
        "start 1450",
        "bridge101 destroy",
        "bridge100 destroy",
    ]);
    assert!(host.bridges.is_empty());
}

#[test]
fn tunnel_new_propagates_ipv4_assignment_error() {
    let mut host = Host::with_bridges(&[]);
    host.failing.push("bridge100 inet 10.0.0.1/24 alias".to_string());
    let result = host.build(tunnel(1, Some("10.0.0.1/24"), None));
    assert!(result.is_err());
    assert_eq!(result.unwrap_err().message(), "Failed to assign IPv4 10.0.0.1/24 to bridge100");
    assert_eq!(host.log.last().unwrap(), "stop");
}

#[test]
fn tunnel_new_propagates_ipv6_assignment_error() {
    let mut host = Host::with_bridges(&[]);
    host.not_run.push("bridge100 inet6 fd00::1 prefixlen 64 alias".to_string());
    let result = host.build(tunnel(1, None, Some("fd00::1/64")));
    assert!(result.is_err());
    assert_eq!(result.unwrap_err().message(), "ifconfig inet6 failed: denied");
    assert_eq!(host.log.last().unwrap(), "stop");
}

#[test]
fn an_ipv6_address_without_prefix_length_fails_without_a_command() {
    let mut host = Host::with_bridges(&[]);
    let result = host.build(tunnel(101, None, Some("fd00::1")));
    assert!(matches!(result, Err(TunnelError::InvalidCidr(_))));
    assert_eq!(host.log, vec![
        "bind",
        "bridge100 create",
        "start 1450",
        "bridge101 inet 192.168.64.1 delete",
        "stop",
        "bridge100 destroy",
    ]);
}

#[test]
fn a_failed_bind_does_nothing_else() {
    let mut host = Host::with_bridges(&[]);
    host.bind_error = Some("Address already in use".to_string());
    let error = host.build(tunnel(199, None, None)).unwrap_err();
    assert_eq!(error.message(), "Failed to bind UDP socket: Address already in use");
    assert_eq!(host.log, vec!["bind"]);
}

#[test]
fn an_existing_bridge_is_left_alone() {
    let mut host = Host::with_bridges(&["bridge137"]);
    let result = host.build(tunnel(137, None, None));
    assert!(matches!(result, Err(TunnelError::BridgeExists(_))));
    assert_eq!(host.log, vec!["bind"]);
    assert_eq!(host.bridges, vec!["bridge137"]);
}

#[test]
fn a_network_beyond_the_forced_range_is_refused() {
    let mut host = Host::with_bridges(&[]);
    let result = host.build(tunnel(4096, None, None));
    assert!(matches!(result, Err(TunnelError::TooManyBridges(4096))));
    assert_eq!(host.log, vec!["bind"]);
}

#[test]
fn a_failed_reservation_destroys_what_it_created() {
    let mut host = Host::with_bridges(&[]);
    host.failing.push("bridge102 create".to_string());
    let error = host.build(tunnel(110, None, None)).unwrap_err();
    assert_eq!(error.message(), "failed to create temporary bridge102 (exit exit status: 1)");
    assert_eq!(host.log, vec![
        "bind",
        "bridge100 create",
        "bridge101 create",
        "bridge102 create",
        "bridge101 destroy",
        "bridge100 destroy",
    ]);

    let mut host = Host::with_bridges(&[]);
    host.not_run.push("bridge100 create".to_string());
    let error = host.build(tunnel(110, None, None)).unwrap_err();
    assert_eq!(error.message(), "create temporary bridge100: denied");
    assert_eq!(host.log, vec!["bind", "bridge100 create"]);
}

#[test]
fn another_bridge_than_the_forced_one_is_refused() {
    let mut host = Host::with_bridges(&[]);
    host.other_bridge = Some("bridge500".to_string());
    match host.build(tunnel(101, None, None)) {
        Err(TunnelError::UnexpectedBridge { created, vni }) => {
            assert_eq!(created, "bridge500");
            assert_eq!(vni, 101);
        }
        other => panic!("not refused: {:?}", other),
    }
    assert_eq!(host.log, vec![
        "bind",
        "bridge100 create",
        "start 1450",
        "stop",
        "bridge100 destroy",
    ]);
}

#[test]
fn the_wait_for_a_bridge_ends() {
    let mut host = Host::with_bridges(&[]);
    host.delay = 1000;
    let result = host.build(tunnel(1, None, None));
    assert!(matches!(result, Err(TunnelError::BridgeNotFound)));
    assert_eq!(host.log.iter().filter(|c| *c == "sleep 100").count(), 29);
    assert_eq!(host.log.last().unwrap(), "stop");

    let mut host = Host::with_bridges(&[]);
    host.delay = 29;
    assert!(host.build(tunnel(1, None, None)).is_ok());
}

#[test]
fn a_failed_removal_is_ignored() {
    let mut host = Host::with_bridges(&[]);
    host.failing.push("bridge100 inet 192.168.64.1 delete".to_string());
    assert!(host.build(tunnel(1, None, None)).is_ok());
}

#[test]
fn a_failed_destruction_does_not_keep_the_others_back() {
    let mut host = Host::with_bridges(&[]);
    host.failing.push("bridge101 destroy".to_string());
    assert!(host.build(tunnel(102, None, None)).is_ok());
    assert_eq!(host.log.last().unwrap(), "bridge100 destroy");
}

#[test]
fn an_event_that_answers_nothing_changes_nothing() {
    let setup = tunnel(1, None, None).handle(SetupEvent::Slept).handle(SetupEvent::Stopped);
    assert!(matches!(setup.action(), SetupAction::Bind(_)));
    assert!(setup.into_outcome().is_none());
}
