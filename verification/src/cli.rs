//! From the command line to a tunnel.

use crate::addr::{IpAddr, SocketAddr, VtepPeer};
use crate::error::TunnelError;
use crate::peer::PeerSpec;
use crate::setup::{
    begins, endpoints, opt_str_view, opt_view, TunnelConfigView, TunnelSetup, VxlanTunnel,
};
use vstd::prelude::*;

verus! {

/// The UDP port that VXLAN uses by default.
pub const DEFAULT_VXLAN_PORT: u16 = 4789;

/// The MTU of the bridge by default.
pub const DEFAULT_MTU: u32 = 1450;

/// The command line.
#[derive(Debug)]
pub struct Args {
    /// The network.
    pub vni: u32,
    /// The address of the local UDP socket.
    pub local: IpAddr,
    /// Remote endpoints of which nothing more is known.
    pub remotes: Vec<IpAddr>,
    /// Remote endpoints and what lies behind them.
    pub peer_specs: Vec<PeerSpec>,
    /// The UDP port of the local socket and of every remote endpoint.
    pub port: u16,
    /// The MTU of the bridge.
    pub mtu: u32,
    /// The IPv4 address of the bridge, in CIDR notation.
    pub bridge_ipv4: Option<String>,
    /// The IPv6 address of the bridge, in CIDR notation.
    pub bridge_ipv6: Option<String>,
}

/// The peer that `spec` names, at `port`.
pub open spec fn peer_at(spec: PeerSpec, port: u16) -> VtepPeer {
    VtepPeer {
        endpoint: SocketAddr { ip: spec.underlay, port },
        pod_cidr: spec.pod_cidr,
        vtep_mac: spec.vtep_mac,
    }
}

/// The peer of which only the address is known, at `port`.
pub open spec fn remote_at(ip: IpAddr, port: u16) -> VtepPeer {
    VtepPeer { endpoint: SocketAddr { ip, port }, pod_cidr: None, vtep_mac: None }
}

impl Args {
    /// All peers: first those that are described, then the others, each in
    /// the order of the command line, all at the same port.
    pub open spec fn peers(self) -> Seq<VtepPeer> {
        self.peer_specs@.map_values(|spec: PeerSpec| peer_at(spec, self.port))
            + self.remotes@.map_values(|ip: IpAddr| remote_at(ip, self.port))
    }

    /// The tunnel that the command line asks for.
    pub open spec fn config(self) -> TunnelConfigView {
        TunnelConfigView {
            vni: self.vni,
            local_addr: SocketAddr { ip: self.local, port: self.port },
            remote_addrs: endpoints(self.peers()),
            mtu: self.mtu,
            bridge_ipv4: opt_view(self.bridge_ipv4),
            bridge_ipv6: opt_view(self.bridge_ipv6),
        }
    }

    /// All peers of the tunnel.
    pub fn vtep_peers(&self) -> (r: Vec<VtepPeer>)
        ensures
            r@ == self.peers(),
    {
        let mut r: Vec<VtepPeer> = Vec::new();
        let mut i: usize = 0;
        while i < self.peer_specs.len()
            invariant
                i <= self.peer_specs@.len(),
                r@.len() == i,
                forall|j: int| 0 <= j < i ==> r@[j] == peer_at(self.peer_specs@[j], self.port),
            decreases self.peer_specs@.len() - i,
        {
            let spec = &self.peer_specs[i];
            r.push(
                VtepPeer {
                    endpoint: SocketAddr::new(spec.underlay, self.port),
                    pod_cidr: spec.pod_cidr,
                    vtep_mac: spec.vtep_mac,
                },
            );
            i += 1;
        }
        let mut k: usize = 0;
        while k < self.remotes.len()
            invariant
                k <= self.remotes@.len(),
                r@.len() == self.peer_specs@.len() + k,
                forall|j: int|
                    0 <= j < self.peer_specs@.len() ==> r@[j] == peer_at(
                        self.peer_specs@[j],
                        self.port,
                    ),
                forall|j: int|
                    0 <= j < k ==> #[trigger] r@[self.peer_specs@.len() + j] == remote_at(
                        self.remotes@[j],
                        self.port,
                    ),
            decreases self.remotes@.len() - k,
        {
            let ghost prior = r@;
            r.push(
                VtepPeer {
                    endpoint: SocketAddr::new(self.remotes[k], self.port),
                    pod_cidr: None,
                    vtep_mac: None,
                },
            );
            assert(forall|j: int| 0 <= j < prior.len() ==> r@[j] == prior[j]);
            k += 1;
        }
        assert(r@ =~= self.peers()) by {
            let n = self.peer_specs@.len();
            assert forall|j: int| 0 <= j < r@.len() implies r@[j] == self.peers()[j] by {
                if j >= n {
                    assert(r@[n + (j - n)] == remote_at(self.remotes@[j - n], self.port));
                }
            }
        }
        r
    }

    /// Starts the construction of the tunnel that the command line asks for.
    pub fn run_until(&self) -> (r: Result<TunnelSetup, TunnelError>)
        ensures
            begins(r, self.config()),
    {
        let bridge_ipv4 = borrowed(&self.bridge_ipv4);
        let bridge_ipv6 = borrowed(&self.bridge_ipv6);
        if self.peer_specs.len() == 0 && self.remotes.len() == 1 {
            assert(endpoints(self.peers()) =~= seq![
                SocketAddr { ip: self.remotes@[0], port: self.port },
            ]);
            VxlanTunnel::new(
                self.vni,
                self.local,
                self.remotes[0],
                self.port,
                self.mtu,
                bridge_ipv4,
                bridge_ipv6,
            )
        } else {
            VxlanTunnel::new_with_peers(
                self.vni,
                SocketAddr::new(self.local, self.port),
                self.vtep_peers(),
                self.mtu,
                bridge_ipv4,
                bridge_ipv6,
            )
        }
    }
}

/// A string slice for an optional string.
fn borrowed(s: &Option<String>) -> (r: Option<&str>)
    ensures
        opt_str_view(r) == opt_view(*s),
{
    match s {
        Some(t) => Some(t.as_str()),
        None => None,
    }
}

/// One port serves the whole tunnel: the local socket is bound to it and every
/// remote endpoint is sent to at it.
pub proof fn law_one_port(args: Args)
    ensures
        args.config().local_addr.port == args.port,
        forall|i: int|
            0 <= i < args.config().remote_addrs.len()
                ==> #[trigger] args.config().remote_addrs[i].port == args.port,
        args.config().remote_addrs.len() == args.peer_specs@.len() + args.remotes@.len(),
{
    let peers = args.peers();
    let n = args.peer_specs@.len();
    assert forall|i: int| 0 <= i < args.config().remote_addrs.len() implies
        #[trigger] args.config().remote_addrs[i].port == args.port by {
        assert(args.config().remote_addrs[i] == peers[i].endpoint);
        if i < n {
            assert(peers[i] == peer_at(args.peer_specs@[i], args.port));
        } else {
            assert(peers[i] == remote_at(args.remotes@[i - n], args.port));
        }
    }
}

/// Whom the tunnel sends to: in order, the underlay address of every peer that
/// is described and then every remote address, each at the port, and nobody
/// else.
pub proof fn law_tunnel_sends_to_those_named(args: Args)
    ensures
        args.config().remote_addrs.len() == args.peer_specs@.len() + args.remotes@.len(),
        forall|i: int|
            0 <= i < args.peer_specs@.len() ==> {
                &&& (#[trigger] args.config().remote_addrs[i]).ip == args.peer_specs@[i].underlay
                &&& args.config().remote_addrs[i].port == args.port
            },
        forall|i: int|
            args.peer_specs@.len() <= i < args.config().remote_addrs.len() ==> {
                &&& (#[trigger] args.config().remote_addrs[i]).ip == args.remotes@[i
                    - args.peer_specs@.len()]
                &&& args.config().remote_addrs[i].port == args.port
            },
{
    let peers = args.peers();
    let n = args.peer_specs@.len();
    assert forall|i: int| 0 <= i < n implies {
        &&& (#[trigger] args.config().remote_addrs[i]).ip == args.peer_specs@[i].underlay
        &&& args.config().remote_addrs[i].port == args.port
    } by {
        assert(args.config().remote_addrs[i] == peers[i].endpoint);
        assert(peers[i] == peer_at(args.peer_specs@[i], args.port));
    }
    assert forall|i: int| n <= i < args.config().remote_addrs.len() implies {
        &&& (#[trigger] args.config().remote_addrs[i]).ip == args.remotes@[i - n]
        &&& args.config().remote_addrs[i].port == args.port
    } by {
        assert(args.config().remote_addrs[i] == peers[i].endpoint);
        assert(peers[i] == remote_at(args.remotes@[i - n], args.port));
    }
}

/// A point-to-point tunnel: with one remote address and no described peer, that
/// address is the only one that is sent to.
pub proof fn law_point_to_point(args: Args)
    requires
        args.peer_specs@.len() == 0,
        args.remotes@.len() == 1,
    ensures
        args.config().remote_addrs.len() == 1,
        args.config().remote_addrs[0].ip == args.remotes@[0],
        args.config().remote_addrs[0].port == args.port,
{
    law_tunnel_sends_to_those_named(args);
}

/// The rest of the command line reaches the tunnel unchanged: the network, the
/// local address, the MTU and the addresses of the bridge.
pub proof fn law_command_line_is_obeyed(args: Args)
    ensures
        args.config().vni == args.vni,
        args.config().local_addr.ip == args.local,
        args.config().local_addr.port == args.port,
        args.config().mtu == args.mtu,
        args.bridge_ipv4 matches Some(cidr) ==> args.config().bridge_ipv4 == Some(cidr@),
        args.bridge_ipv4 is None ==> args.config().bridge_ipv4 is None,
        args.bridge_ipv6 matches Some(cidr) ==> args.config().bridge_ipv6 == Some(cidr@),
        args.bridge_ipv6 is None ==> args.config().bridge_ipv6 is None,
{
}

/// A peer keeps what is known of it: the pod network and the MAC address of a
/// described one, and nothing of the others.
pub proof fn law_peers_keep_what_is_known(args: Args, i: int)
    requires
        0 <= i < args.peer_specs@.len() + args.remotes@.len(),
    ensures
        args.peers().len() == args.peer_specs@.len() + args.remotes@.len(),
        i < args.peer_specs@.len() ==> {
            &&& args.peers()[i].endpoint.ip == args.peer_specs@[i].underlay
            &&& args.peers()[i].pod_cidr == args.peer_specs@[i].pod_cidr
            &&& args.peers()[i].vtep_mac == args.peer_specs@[i].vtep_mac
        },
        i >= args.peer_specs@.len() ==> {
            &&& args.peers()[i].endpoint.ip == args.remotes@[i - args.peer_specs@.len()]
            &&& args.peers()[i].pod_cidr is None
            &&& args.peers()[i].vtep_mac is None
        },
        args.peers()[i].endpoint.port == args.port,
{
}

/// The port and the MTU that are used unless others are given.
pub proof fn law_defaults()
    ensures
        DEFAULT_VXLAN_PORT == 4789,
        DEFAULT_MTU == 1450,
{
}

} // verus!
