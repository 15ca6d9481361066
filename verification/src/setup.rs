//! The construction of a tunnel.
//!
//! Building a tunnel alternates decisions with actions on the outside world:
//! binding a socket, running `ifconfig`, starting vmnet. [`TunnelSetup`] holds
//! the decisions. It names the action that is due and is handed what came of
//! it, until the tunnel is ready or has failed and everything that was only
//! needed on the way is released again.

use crate::addr::{IpAddr, SocketAddr, VtepPeer};
use crate::bridge::{
    bridge_name, bridge_name_for_vni, first_new, is_forced, reservation, reserve_bridge_units,
    wait_for_new_bridge, BridgeReservations, WaitStep, VMNET_BRIDGE_BASE, VMNET_MAX_FORCED_VNI,
    WAIT_ATTEMPTS, WAIT_PAUSE_MS,
};
use crate::error::{TunnelError, TunnelErrorView};
use crate::ifconfig::{
    all_removals, assign_inet4, assign_inet4_args, assign_inet6, assign_inet6_args, commands_view,
    create_args, create_interface_args, delete_args, destroy_args, destroy_interface_args, inet4_args,
    inet4_assigned, inet6_args, inet6_assigned, list_args, list_bridge_interfaces,
    list_interfaces_args, listed_bridges, output_view, parse_cidr, remove_all_inet4, show_args,
    show_interface_args, RunOutcome, RunOutcomeView,
};
use crate::packet::VXLAN_MAX_VNI;
use crate::text::{cut, same_text, strings_view};
use vstd::pervasive::unreached;
use vstd::prelude::*;

verus! {

/// What a tunnel is to be.
#[derive(Debug)]
pub struct TunnelConfig {
    /// The network.
    pub vni: u32,
    /// Where the UDP socket is bound.
    pub local_addr: SocketAddr,
    /// Where every Ethernet frame is sent.
    pub remote_addrs: Vec<SocketAddr>,
    /// The MTU that vmnet is asked for.
    pub mtu: u32,
    /// The IPv4 address of the bridge, in CIDR notation.
    pub bridge_ipv4: Option<String>,
    /// The IPv6 address of the bridge, in CIDR notation.
    pub bridge_ipv6: Option<String>,
}

/// `TunnelConfig` with its texts as character sequences.
pub struct TunnelConfigView {
    pub vni: u32,
    pub local_addr: SocketAddr,
    pub remote_addrs: Seq<SocketAddr>,
    pub mtu: u32,
    pub bridge_ipv4: Option<Seq<char>>,
    pub bridge_ipv6: Option<Seq<char>>,
}

/// The view of an optional string.
pub open spec fn opt_view(s: Option<String>) -> Option<Seq<char>> {
    match s {
        Some(t) => Some(t@),
        None => None,
    }
}

impl View for TunnelConfig {
    type V = TunnelConfigView;

    open spec fn view(&self) -> TunnelConfigView {
        TunnelConfigView {
            vni: self.vni,
            local_addr: self.local_addr,
            remote_addrs: self.remote_addrs@,
            mtu: self.mtu,
            bridge_ipv4: opt_view(self.bridge_ipv4),
            bridge_ipv6: opt_view(self.bridge_ipv6),
        }
    }
}

/// What vmnet reports when it has started.
#[derive(Debug, Clone, Copy, PartialEq, Eq, Structural)]
pub struct VmnetInfo {
    /// Readable while packets are available.
    pub notify_fd: i32,
    /// Where a byte is written to stop the reader.
    pub shutdown_write_fd: i32,
    /// Where the reader sees that byte.
    pub shutdown_read_fd: i32,
    /// The size of the largest packet.
    pub max_packet_size: usize,
}

/// A tunnel that is ready to run.
#[derive(Debug)]
pub struct VxlanTunnel {
    /// The network.
    pub vni: u32,
    /// Where every Ethernet frame is sent.
    pub remote_addrs: Vec<SocketAddr>,
    /// What vmnet reported.
    pub vmnet: VmnetInfo,
    /// The bridge that vmnet created.
    pub bridge_name: String,
}

/// `VxlanTunnel` with its texts as character sequences.
pub struct VxlanTunnelView {
    pub vni: u32,
    pub remote_addrs: Seq<SocketAddr>,
    pub vmnet: VmnetInfo,
    pub bridge_name: Seq<char>,
}

impl View for VxlanTunnel {
    type V = VxlanTunnelView;

    open spec fn view(&self) -> VxlanTunnelView {
        VxlanTunnelView {
            vni: self.vni,
            remote_addrs: self.remote_addrs@,
            vmnet: self.vmnet,
            bridge_name: self.bridge_name@,
        }
    }
}

/// How the construction ended.
pub type Outcome = Result<VxlanTunnel, TunnelError>;

/// `Outcome` with its texts as character sequences.
pub type OutcomeView = Result<VxlanTunnelView, TunnelErrorView>;

/// The view of an outcome.
pub open spec fn outcome_view(outcome: Outcome) -> OutcomeView {
    match outcome {
        Ok(tunnel) => Ok(tunnel@),
        Err(error) => Err(error@),
    }
}

/// An action on the outside world.
#[derive(Debug)]
pub enum SetupAction {
    /// Bind the UDP socket.
    Bind(SocketAddr),
    /// Run `ifconfig` with these arguments and read what it prints.
    Query(Vec<String>),
    /// Run `ifconfig` with these arguments.
    Run(Vec<String>),
    /// Start vmnet with this MTU.
    StartVmnet(u32),
    /// Wait for so many milliseconds.
    Sleep(u64),
    /// Stop vmnet.
    StopVmnet,
    /// Nothing: the outcome is there.
    Done,
}

/// `SetupAction` with its texts as character sequences.
pub enum SetupActionView {
    Bind(SocketAddr),
    Query(Seq<Seq<char>>),
    Run(Seq<Seq<char>>),
    StartVmnet(u32),
    Sleep(u64),
    StopVmnet,
    Done,
}

impl View for SetupAction {
    type V = SetupActionView;

    open spec fn view(&self) -> SetupActionView {
        match *self {
            SetupAction::Bind(addr) => SetupActionView::Bind(addr),
            SetupAction::Query(args) => SetupActionView::Query(strings_view(args@)),
            SetupAction::Run(args) => SetupActionView::Run(strings_view(args@)),
            SetupAction::StartVmnet(mtu) => SetupActionView::StartVmnet(mtu),
            SetupAction::Sleep(ms) => SetupActionView::Sleep(ms),
            SetupAction::StopVmnet => SetupActionView::StopVmnet,
            SetupAction::Done => SetupActionView::Done,
        }
    }
}

/// What came of an action.
#[derive(Debug)]
pub enum SetupEvent {
    /// The socket is bound.
    Bound,
    /// The socket could not be bound; what the system says about it.
    NotBound(String),
    /// What a query printed, or nothing where it could not be run.
    Printed(Option<Vec<u8>>),
    /// What came of a command.
    Ran(RunOutcome),
    /// vmnet has started.
    Started(VmnetInfo),
    /// vmnet did not start.
    NotStarted,
    /// The pause is over.
    Slept,
    /// vmnet is stopped.
    Stopped,
}

/// `SetupEvent` with its texts as character sequences.
pub enum SetupEventView {
    Bound,
    NotBound(Seq<char>),
    Printed(Option<Seq<u8>>),
    Ran(RunOutcomeView),
    Started(VmnetInfo),
    NotStarted,
    Slept,
    Stopped,
}

impl View for SetupEvent {
    type V = SetupEventView;

    open spec fn view(&self) -> SetupEventView {
        match *self {
            SetupEvent::Bound => SetupEventView::Bound,
            SetupEvent::NotBound(error) => SetupEventView::NotBound(error@),
            SetupEvent::Printed(output) => SetupEventView::Printed(output_view(output)),
            SetupEvent::Ran(outcome) => SetupEventView::Ran(outcome@),
            SetupEvent::Started(info) => SetupEventView::Started(info),
            SetupEvent::NotStarted => SetupEventView::NotStarted,
            SetupEvent::Slept => SetupEventView::Slept,
            SetupEvent::Stopped => SetupEventView::Stopped,
        }
    }
}

/// Where the construction stands.
#[derive(Debug)]
enum Phase {
    /// The socket is to be bound.
    Bind,
    /// The bridges are to be listed, to see which units are free.
    ListForReserve,
    /// The first of these temporary bridges is to be created.
    Create { pending: Vec<String> },
    /// The bridges are to be listed, to tell later which one is new.
    ListBefore,
    /// vmnet is to be started.
    Start { known: Vec<String> },
    /// The bridges are to be listed, to find the new one.
    Look { known: Vec<String>, attempt: u32 },
    /// A pause before the next listing.
    Pause { known: Vec<String>, attempt: u32 },
    /// The addresses of the new bridge are to be read.
    Show { bridge: String },
    /// The first of these commands, which remove addresses, is to be run.
    Clear { bridge: String, commands: Vec<Vec<String>> },
    /// The IPv4 address is to be assigned.
    Assign4 { bridge: String },
    /// The IPv6 address is to be assigned.
    Assign6 { bridge: String },
    /// vmnet is to be stopped because of this error.
    Stop { error: TunnelError },
    /// The temporary bridge that was created last is to be destroyed.
    Release { outcome: Outcome },
    /// All is done.
    Finished { outcome: Outcome },
}

/// `Phase` with its texts as character sequences.
pub enum PhaseView {
    Bind,
    ListForReserve,
    Create { pending: Seq<Seq<char>> },
    ListBefore,
    Start { known: Seq<Seq<char>> },
    Look { known: Seq<Seq<char>>, attempt: int },
    Pause { known: Seq<Seq<char>>, attempt: int },
    Show { bridge: Seq<char> },
    Clear { bridge: Seq<char>, commands: Seq<Seq<Seq<char>>> },
    Assign4 { bridge: Seq<char> },
    Assign6 { bridge: Seq<char> },
    Stop { error: TunnelErrorView },
    Release { outcome: OutcomeView },
    Finished { outcome: OutcomeView },
}

impl View for Phase {
    type V = PhaseView;

    closed spec fn view(&self) -> PhaseView {
        match *self {
            Phase::Bind => PhaseView::Bind,
            Phase::ListForReserve => PhaseView::ListForReserve,
            Phase::Create { pending } => PhaseView::Create { pending: strings_view(pending@) },
            Phase::ListBefore => PhaseView::ListBefore,
            Phase::Start { known } => PhaseView::Start { known: strings_view(known@) },
            Phase::Look { known, attempt } => PhaseView::Look {
                known: strings_view(known@),
                attempt: attempt as int,
            },
            Phase::Pause { known, attempt } => PhaseView::Pause {
                known: strings_view(known@),
                attempt: attempt as int,
            },
            Phase::Show { bridge } => PhaseView::Show { bridge: bridge@ },
            Phase::Clear { bridge, commands } => PhaseView::Clear {
                bridge: bridge@,
                commands: commands_view(commands@),
            },
            Phase::Assign4 { bridge } => PhaseView::Assign4 { bridge: bridge@ },
            Phase::Assign6 { bridge } => PhaseView::Assign6 { bridge: bridge@ },
            Phase::Stop { error } => PhaseView::Stop { error: error@ },
            Phase::Release { outcome } => PhaseView::Release { outcome: outcome_view(outcome) },
            Phase::Finished { outcome } => PhaseView::Finished { outcome: outcome_view(outcome) },
        }
    }
}

/// What a construction has at its disposal.
#[derive(Debug)]
struct Progress {
    config: TunnelConfig,
    reserved: BridgeReservations,
    vmnet: Option<VmnetInfo>,
}

/// `Progress` with its texts as character sequences.
pub struct ProgressView {
    /// What the tunnel is to be.
    pub config: TunnelConfigView,
    /// The temporary bridges that exist, in the order of creation.
    pub reserved: Seq<Seq<char>>,
    /// What vmnet reported, while it is the construction's to stop.
    pub vmnet: Option<VmnetInfo>,
}

impl View for Progress {
    type V = ProgressView;

    closed spec fn view(&self) -> ProgressView {
        ProgressView { config: self.config@, reserved: self.reserved@, vmnet: self.vmnet }
    }
}

/// The construction of a tunnel, as far as it has got.
#[derive(Debug)]
pub struct TunnelSetup {
    progress: Progress,
    phase: Phase,
}

/// `TunnelSetup` with its texts as character sequences.
pub struct TunnelSetupView {
    /// What the construction has at its disposal.
    pub progress: ProgressView,
    /// Where it stands.
    pub phase: PhaseView,
}

impl View for TunnelSetup {
    type V = TunnelSetupView;

    closed spec fn view(&self) -> TunnelSetupView {
        TunnelSetupView { progress: self.progress@, phase: self.phase@ }
    }
}

impl TunnelConfigView {
    /// There is somewhere to send to, and the identifier fits its field.
    pub open spec fn wf(self) -> bool {
        &&& self.remote_addrs.len() > 0
        &&& self.vni <= VXLAN_MAX_VNI
    }

    /// Whether the tunnel may use a bridge of this name: any below the first
    /// unit of vmnet's allocator, from there on only the one of its network.
    pub open spec fn accepts(self, bridge: Seq<char>) -> bool {
        self.vni < VMNET_BRIDGE_BASE || bridge == bridge_name(self.vni as int)
    }
}

impl ProgressView {
    /// The construction stands at `phase`.
    pub open spec fn at(self, phase: PhaseView) -> TunnelSetupView {
        TunnelSetupView { progress: self, phase }
    }

    /// The construction ends with `outcome` once every temporary bridge is
    /// destroyed.
    pub open spec fn conclude(self, outcome: OutcomeView) -> TunnelSetupView {
        if self.reserved.len() == 0 {
            self.at(PhaseView::Finished { outcome })
        } else {
            self.at(PhaseView::Release { outcome })
        }
    }

    /// The construction fails; vmnet is stopped first, if it runs.
    pub open spec fn fail(self, error: TunnelErrorView) -> TunnelSetupView {
        if self.vmnet is Some {
            self.at(PhaseView::Stop { error })
        } else {
            self.conclude(Err(error))
        }
    }

    /// The temporary bridges in `pending` are created next.
    pub open spec fn create(self, pending: Seq<Seq<char>>) -> TunnelSetupView {
        if pending.len() == 0 {
            self.at(PhaseView::ListBefore)
        } else {
            self.at(PhaseView::Create { pending })
        }
    }

    /// The temporary bridges to create are known, or why there are none.
    pub open spec fn reserve(
        self,
        plan: Result<Seq<Seq<char>>, TunnelErrorView>,
    ) -> TunnelSetupView {
        match plan {
            Ok(pending) => self.create(pending),
            Err(error) => self.fail(error),
        }
    }

    /// The command that was to create the first bridge in `pending` ended.
    pub open spec fn created(
        self,
        pending: Seq<Seq<char>>,
        outcome: RunOutcomeView,
    ) -> TunnelSetupView {
        match outcome {
            RunOutcomeView::NotRun(error) => self.fail(
                TunnelErrorView::CreateNotRun { name: pending[0], error },
            ),
            RunOutcomeView::Exited { success, status } => if success {
                (ProgressView { reserved: self.reserved.push(pending[0]), ..self }).create(
                    pending.drop_first(),
                )
            } else {
                self.fail(TunnelErrorView::CreateFailed { name: pending[0], status })
            },
        }
    }

    /// The bridges were listed to find one that is not in `known`.
    pub open spec fn looked(
        self,
        known: Seq<Seq<char>>,
        attempt: int,
        current: Seq<Seq<char>>,
    ) -> TunnelSetupView {
        match first_new(current, known) {
            Some(bridge) => if self.config.accepts(bridge) {
                self.at(PhaseView::Show { bridge })
            } else {
                self.fail(
                    TunnelErrorView::UnexpectedBridge { created: bridge, vni: self.config.vni },
                )
            },
            None => if attempt + 1 < WAIT_ATTEMPTS {
                self.at(PhaseView::Pause { known, attempt: attempt + 1 })
            } else {
                self.fail(TunnelErrorView::BridgeNotFound)
            },
        }
    }

    /// The addresses that vmnet assigned by itself are removed next.
    pub open spec fn clear(
        self,
        bridge: Seq<char>,
        commands: Seq<Seq<Seq<char>>>,
    ) -> TunnelSetupView {
        if commands.len() == 0 {
            self.address4(bridge)
        } else {
            self.at(PhaseView::Clear { bridge, commands })
        }
    }

    /// The IPv4 address, if there is one, is assigned next.
    pub open spec fn address4(self, bridge: Seq<char>) -> TunnelSetupView {
        if self.config.bridge_ipv4 is Some {
            self.at(PhaseView::Assign4 { bridge })
        } else {
            self.address6(bridge)
        }
    }

    /// The IPv6 address, if there is one, is assigned next.
    pub open spec fn address6(self, bridge: Seq<char>) -> TunnelSetupView {
        match self.config.bridge_ipv6 {
            None => self.ready(bridge),
            Some(cidr) => if cut(cidr, '/') is None {
                self.fail(TunnelErrorView::InvalidCidr(cidr))
            } else {
                self.at(PhaseView::Assign6 { bridge })
            },
        }
    }

    /// The tunnel is ready; vmnet is its own from now on.
    pub open spec fn ready(self, bridge: Seq<char>) -> TunnelSetupView {
        (ProgressView { vmnet: None, ..self }).conclude(
            Ok(
                VxlanTunnelView {
                    vni: self.config.vni,
                    remote_addrs: self.config.remote_addrs,
                    vmnet: self.vmnet->0,
                    bridge_name: bridge,
                },
            ),
        )
    }
}

impl TunnelSetupView {
    /// A construction that has not done anything yet.
    pub open spec fn start(config: TunnelConfigView) -> Self {
        (ProgressView { config, reserved: seq![], vmnet: None }).at(PhaseView::Bind)
    }

    /// What holds of every construction, however far it has got.
    pub open spec fn wf(self) -> bool {
        let config = self.progress.config;
        let running = self.progress.vmnet is Some;
        &&& config.wf()
        &&& match self.phase {
            PhaseView::Bind => !running && self.progress.reserved.len() == 0,
            PhaseView::ListForReserve => {
                &&& !running
                &&& self.progress.reserved.len() == 0
                &&& is_forced(config.vni)
            },
            PhaseView::Create { pending } => !running && pending.len() > 0,
            PhaseView::ListBefore => !running,
            PhaseView::Start { .. } => !running,
            PhaseView::Look { attempt, .. } => running && 0 <= attempt < WAIT_ATTEMPTS,
            PhaseView::Pause { attempt, .. } => running && 0 < attempt < WAIT_ATTEMPTS,
            PhaseView::Show { bridge } => running && config.accepts(bridge),
            PhaseView::Clear { bridge, commands } => {
                &&& running
                &&& config.accepts(bridge)
                &&& commands.len() > 0
                &&& forall|i: int|
                    0 <= i < commands.len() ==> #[trigger] commands[i] == delete_args(
                        bridge,
                        commands[i][2],
                    )
            },
            PhaseView::Assign4 { bridge } => {
                &&& running
                &&& config.accepts(bridge)
                &&& config.bridge_ipv4 is Some
            },
            PhaseView::Assign6 { bridge } => {
                &&& running
                &&& config.accepts(bridge)
                &&& config.bridge_ipv6 matches Some(cidr) && cut(cidr, '/') is Some
            },
            PhaseView::Stop { .. } => running,
            PhaseView::Release { outcome } => {
                &&& !running
                &&& self.progress.reserved.len() > 0
                &&& self.describes(outcome)
            },
            PhaseView::Finished { outcome } => {
                &&& !running
                &&& self.progress.reserved.len() == 0
                &&& self.describes(outcome)
            },
        }
    }

    /// A tunnel that came out is the one that was asked for.
    pub open spec fn describes(self, outcome: OutcomeView) -> bool {
        outcome matches Ok(tunnel) ==> {
            &&& tunnel.vni == self.progress.config.vni
            &&& tunnel.remote_addrs == self.progress.config.remote_addrs
            &&& self.progress.config.accepts(tunnel.bridge_name)
        }
    }

    /// The construction after `event`; an event that does not answer the
    /// action that is due changes nothing.
    pub open spec fn next(self, event: SetupEventView) -> Self {
        let p = self.progress;
        match (self.phase, event) {
            (PhaseView::Bind, SetupEventView::Bound) => if is_forced(p.config.vni) {
                p.at(PhaseView::ListForReserve)
            } else {
                p.reserve(reservation(p.config.vni, seq![]))
            },
            (PhaseView::Bind, SetupEventView::NotBound(error)) => p.fail(
                TunnelErrorView::BindFailed(error),
            ),
            (PhaseView::ListForReserve, SetupEventView::Printed(output)) => p.reserve(
                reservation(p.config.vni, listed_bridges(output)),
            ),
            (PhaseView::Create { pending }, SetupEventView::Ran(outcome)) => p.created(
                pending,
                outcome,
            ),
            (PhaseView::ListBefore, SetupEventView::Printed(output)) => p.at(
                PhaseView::Start { known: listed_bridges(output) },
            ),
            (PhaseView::Start { known }, SetupEventView::Started(info)) => (ProgressView {
                vmnet: Some(info),
                ..p
            }).at(PhaseView::Look { known, attempt: 0 }),
            (PhaseView::Start { .. }, SetupEventView::NotStarted) => p.fail(
                TunnelErrorView::VmnetUnavailable,
            ),
            (PhaseView::Look { known, attempt }, SetupEventView::Printed(output)) => p.looked(
                known,
                attempt,
                listed_bridges(output),
            ),
            (PhaseView::Pause { known, attempt }, SetupEventView::Slept) => p.at(
                PhaseView::Look { known, attempt },
            ),
            (PhaseView::Show { bridge }, SetupEventView::Printed(output)) => p.clear(
                bridge,
                all_removals(bridge, output),
            ),
            (PhaseView::Clear { bridge, commands }, SetupEventView::Ran(_)) => p.clear(
                bridge,
                commands.drop_first(),
            ),
            (PhaseView::Assign4 { bridge }, SetupEventView::Ran(outcome)) => match inet4_assigned(
                bridge,
                p.config.bridge_ipv4->0,
                outcome,
            ) {
                Ok(_) => p.address6(bridge),
                Err(error) => p.fail(error),
            },
            (PhaseView::Assign6 { bridge }, SetupEventView::Ran(outcome)) => match inet6_assigned(
                bridge,
                p.config.bridge_ipv6->0,
                outcome,
            ) {
                Ok(_) => p.ready(bridge),
                Err(error) => p.fail(error),
            },
            (PhaseView::Stop { error }, SetupEventView::Stopped) => (ProgressView {
                vmnet: None,
                ..p
            }).conclude(Err(error)),
            (PhaseView::Release { outcome }, SetupEventView::Ran(_)) => (ProgressView {
                reserved: p.reserved.drop_last(),
                ..p
            }).conclude(outcome),
            _ => self,
        }
    }

    /// The action that is due.
    pub open spec fn action(self) -> SetupActionView {
        let p = self.progress;
        match self.phase {
            PhaseView::Bind => SetupActionView::Bind(p.config.local_addr),
            PhaseView::ListForReserve => SetupActionView::Query(list_args()),
            PhaseView::Create { pending } => SetupActionView::Run(create_args(pending[0])),
            PhaseView::ListBefore => SetupActionView::Query(list_args()),
            PhaseView::Start { .. } => SetupActionView::StartVmnet(p.config.mtu),
            PhaseView::Look { .. } => SetupActionView::Query(list_args()),
            PhaseView::Pause { .. } => SetupActionView::Sleep(WAIT_PAUSE_MS),
            PhaseView::Show { bridge } => SetupActionView::Query(show_args(bridge)),
            PhaseView::Clear { commands, .. } => SetupActionView::Run(commands[0]),
            PhaseView::Assign4 { bridge } => SetupActionView::Run(
                inet4_args(bridge, p.config.bridge_ipv4->0),
            ),
            PhaseView::Assign6 { bridge } => {
                let parts = cut(p.config.bridge_ipv6->0, '/')->0;
                SetupActionView::Run(inet6_args(bridge, parts.0, parts.1))
            },
            PhaseView::Stop { .. } => SetupActionView::StopVmnet,
            PhaseView::Release { .. } => SetupActionView::Run(destroy_args(p.reserved.last())),
            PhaseView::Finished { .. } => SetupActionView::Done,
        }
    }

    /// Every event keeps what holds of a construction, and no event changes
    /// what the tunnel is to be.
    pub proof fn lemma_next_wf(self, event: SetupEventView)
        requires
            self.wf(),
        ensures
            self.next(event).wf(),
            self.next(event).progress.config == self.progress.config,
    {
    }
}

/// Why a tunnel of this configuration is refused at once, if it is.
pub open spec fn refused(config: TunnelConfigView) -> Option<TunnelErrorView> {
    if config.remote_addrs.len() == 0 {
        Some(TunnelErrorView::NoRemotes)
    } else if config.vni > VXLAN_MAX_VNI {
        Some(TunnelErrorView::VniOutOfRange(config.vni))
    } else {
        None
    }
}

/// A copy of a list of endpoints.
pub(crate) fn copied(addrs: &Vec<SocketAddr>) -> (r: Vec<SocketAddr>)
    ensures
        r@ == addrs@,
{
    let mut r: Vec<SocketAddr> = Vec::new();
    let mut i: usize = 0;
    while i < addrs.len()
        invariant
            i <= addrs@.len(),
            r@ == addrs@.take(i as int),
        decreases addrs@.len() - i,
    {
        r.push(addrs[i]);
        i += 1;
        assert(addrs@.take(i as int) =~= addrs@.take(i - 1).push(addrs@[i - 1]));
    }
    assert(addrs@.take(i as int) =~= addrs@);
    r
}

impl Progress {
    fn at(self, phase: Phase) -> (r: TunnelSetup)
        ensures
            r@ == self@.at(phase@),
    {
        TunnelSetup { progress: self, phase }
    }

    fn conclude(self, outcome: Outcome) -> (r: TunnelSetup)
        ensures
            r@ == self@.conclude(outcome_view(outcome)),
    {
        if self.reserved.names.len() == 0 {
            self.at(Phase::Finished { outcome })
        } else {
            self.at(Phase::Release { outcome })
        }
    }

    fn fail(self, error: TunnelError) -> (r: TunnelSetup)
        ensures
            r@ == self@.fail(error@),
    {
        if self.vmnet.is_some() {
            self.at(Phase::Stop { error })
        } else {
            self.conclude(Err(error))
        }
    }

    fn create(self, pending: Vec<String>) -> (r: TunnelSetup)
        ensures
            r@ == self@.create(strings_view(pending@)),
    {
        if pending.len() == 0 {
            self.at(Phase::ListBefore)
        } else {
            self.at(Phase::Create { pending })
        }
    }

    fn reserve(self, existing: &[String]) -> (r: TunnelSetup)
        ensures
            r@ == self@.reserve(reservation(self@.config.vni, strings_view(existing@))),
    {
        match reserve_bridge_units(self.config.vni, existing) {
            Ok(pending) => self.create(pending),
            Err(error) => self.fail(error),
        }
    }

    fn bound(self) -> (r: TunnelSetup)
        ensures
            r@ == self@.at(PhaseView::Bind).next(SetupEventView::Bound),
    {
        if VMNET_BRIDGE_BASE <= self.config.vni && self.config.vni <= VMNET_MAX_FORCED_VNI {
            self.at(Phase::ListForReserve)
        } else {
            let none: Vec<String> = Vec::new();
            assert(strings_view(none@) =~= seq![]);
            self.reserve(none.as_slice())
        }
    }

    fn created(self, pending: Vec<String>, outcome: RunOutcome) -> (r: TunnelSetup)
        requires
            pending@.len() > 0,
        ensures
            r@ == self@.created(strings_view(pending@), outcome@),
    {
        let mut rest = pending;
        let ghost all = strings_view(rest@);
        let name = rest.remove(0);
        assert(strings_view(rest@) =~= all.drop_first());
        assert(name@ == all[0]);
        match outcome {
            RunOutcome::NotRun(error) => self.fail(TunnelError::CreateNotRun { name, error }),
            RunOutcome::Exited { success, status } => if success {
                let mut reserved = self.reserved;
                reserved.add(name);
                (Progress { config: self.config, reserved, vmnet: self.vmnet }).create(rest)
            } else {
                self.fail(TunnelError::CreateFailed { name, status })
            },
        }
    }

    fn looked(self, known: Vec<String>, attempt: u32, output: Option<Vec<u8>>) -> (r: TunnelSetup)
        requires
            self@.config.wf(),
            attempt < WAIT_ATTEMPTS,
        ensures
            r@ == self@.looked(
                strings_view(known@),
                attempt as int,
                listed_bridges(output_view(output)),
            ),
    {
        match wait_for_new_bridge(attempt, &output, known.as_slice()) {
            WaitStep::Found(bridge) => {
                let vni = self.config.vni;
                let accepted = vni < VMNET_BRIDGE_BASE || match bridge_name_for_vni(vni) {
                    Ok(desired) => same_text(bridge.as_str(), desired.as_str()),
                    Err(_) => false,
                };
                if accepted {
                    self.at(Phase::Show { bridge })
                } else {
                    self.fail(TunnelError::UnexpectedBridge { created: bridge, vni })
                }
            },
            WaitStep::Retry => self.at(Phase::Pause { known, attempt: attempt + 1 }),
            WaitStep::GiveUp => self.fail(TunnelError::BridgeNotFound),
        }
    }

    fn clear(self, bridge: String, commands: Vec<Vec<String>>) -> (r: TunnelSetup)
        requires
            self@.vmnet is Some,
        ensures
            r@ == self@.clear(bridge@, commands_view(commands@)),
    {
        if commands.len() == 0 {
            self.address4(bridge)
        } else {
            self.at(Phase::Clear { bridge, commands })
        }
    }

    fn cleared(self, bridge: String, commands: Vec<Vec<String>>) -> (r: TunnelSetup)
        requires
            self@.vmnet is Some,
            commands@.len() > 0,
        ensures
            r@ == self@.clear(bridge@, commands_view(commands@).drop_first()),
    {
        let mut rest = commands;
        let _ = rest.remove(0);
        assert(commands_view(rest@) =~= commands_view(commands@).drop_first());
        self.clear(bridge, rest)
    }

    fn address4(self, bridge: String) -> (r: TunnelSetup)
        requires
            self@.vmnet is Some,
        ensures
            r@ == self@.address4(bridge@),
    {
        if self.config.bridge_ipv4.is_some() {
            self.at(Phase::Assign4 { bridge })
        } else {
            self.address6(bridge)
        }
    }

    fn address6(self, bridge: String) -> (r: TunnelSetup)
        requires
            self@.vmnet is Some,
        ensures
            r@ == self@.address6(bridge@),
    {
        match &self.config.bridge_ipv6 {
            None => self.ready(bridge),
            Some(cidr) => match parse_cidr(cidr.as_str()) {
                Ok(_) => self.at(Phase::Assign6 { bridge }),
                Err(error) => self.fail(error),
            },
        }
    }

    fn ready(self, bridge: String) -> (r: TunnelSetup)
        requires
            self@.vmnet is Some,
        ensures
            r@ == self@.ready(bridge@),
    {
        match self.vmnet {
            Some(info) => {
                let tunnel = VxlanTunnel {
                    vni: self.config.vni,
                    remote_addrs: copied(&self.config.remote_addrs),
                    vmnet: info,
                    bridge_name: bridge,
                };
                (Progress { config: self.config, reserved: self.reserved, vmnet: None }).conclude(
                    Ok(tunnel),
                )
            },
            None => unreached(),
        }
    }

    fn assigned4(self, bridge: String, outcome: RunOutcome) -> (r: TunnelSetup)
        requires
            self@.vmnet is Some,
            self@.config.bridge_ipv4 is Some,
        ensures
            r@ == self@.at(PhaseView::Assign4 { bridge: bridge@ }).next(
                SetupEventView::Ran(outcome@),
            ),
    {
        let result = match &self.config.bridge_ipv4 {
            Some(cidr) => assign_inet4(bridge.as_str(), cidr.as_str(), outcome),
            None => unreached(),
        };
        match result {
            Ok(_) => self.address6(bridge),
            Err(error) => self.fail(error),
        }
    }

    fn assigned6(self, bridge: String, outcome: RunOutcome) -> (r: TunnelSetup)
        requires
            self@.vmnet is Some,
            self@.config.bridge_ipv6 is Some,
        ensures
            r@ == self@.at(PhaseView::Assign6 { bridge: bridge@ }).next(
                SetupEventView::Ran(outcome@),
            ),
    {
        let result = match &self.config.bridge_ipv6 {
            Some(cidr) => assign_inet6(bridge.as_str(), cidr.as_str(), outcome),
            None => unreached(),
        };
        match result {
            Ok(_) => self.ready(bridge),
            Err(error) => self.fail(error),
        }
    }

    fn destroyed(self, outcome: Outcome) -> (r: TunnelSetup)
        requires
            self@.reserved.len() > 0,
        ensures
            r@ == (ProgressView { reserved: self@.reserved.drop_last(), ..self@ }).conclude(
                outcome_view(outcome),
            ),
    {
        let mut reserved = self.reserved;
        let _ = reserved.release();
        (Progress { config: self.config, reserved, vmnet: self.vmnet }).conclude(outcome)
    }
}

impl TunnelSetup {
    /// Starts the construction of a tunnel.
    pub fn start(config: TunnelConfig) -> (r: Result<TunnelSetup, TunnelError>)
        ensures
            begins(r, config@),
    {
        if config.remote_addrs.len() == 0 {
            return Err(TunnelError::NoRemotes);
        }
        match bridge_name_for_vni(config.vni) {
            Ok(_) => {},
            Err(e) => {
                return Err(e);
            },
        }
        let progress = Progress { config, reserved: BridgeReservations::empty(), vmnet: None };
        Ok(progress.at(Phase::Bind))
    }

    /// Takes note of what came of the action that is due; an event that does
    /// not answer it changes nothing.
    pub fn handle(self, event: SetupEvent) -> (r: Self)
        requires
            self@.wf(),
        ensures
            r@ == self@.next(event@),
            r@.wf(),
    {
        proof {
            self@.lemma_next_wf(event@);
        }
        let p = self.progress;
        match (self.phase, event) {
            (Phase::Bind, SetupEvent::Bound) => p.bound(),
            (Phase::Bind, SetupEvent::NotBound(error)) => p.fail(TunnelError::BindFailed(error)),
            (Phase::ListForReserve, SetupEvent::Printed(output)) => {
                let existing = list_bridge_interfaces(&output);
                p.reserve(existing.as_slice())
            },
            (Phase::Create { pending }, SetupEvent::Ran(outcome)) => p.created(pending, outcome),
            (Phase::ListBefore, SetupEvent::Printed(output)) => {
                let known = list_bridge_interfaces(&output);
                p.at(Phase::Start { known })
            },
            (Phase::Start { known }, SetupEvent::Started(info)) => {
                let started = Progress { config: p.config, reserved: p.reserved, vmnet: Some(info) };
                started.at(Phase::Look { known, attempt: 0 })
            },
            (Phase::Start { .. }, SetupEvent::NotStarted) => p.fail(TunnelError::VmnetUnavailable),
            (Phase::Look { known, attempt }, SetupEvent::Printed(output)) => p.looked(
                known,
                attempt,
                output,
            ),
            (Phase::Pause { known, attempt }, SetupEvent::Slept) => p.at(
                Phase::Look { known, attempt },
            ),
            (Phase::Show { bridge }, SetupEvent::Printed(output)) => {
                let commands = remove_all_inet4(bridge.as_str(), &output);
                p.clear(bridge, commands)
            },
            (Phase::Clear { bridge, commands }, SetupEvent::Ran(_)) => p.cleared(bridge, commands),
            (Phase::Assign4 { bridge }, SetupEvent::Ran(outcome)) => p.assigned4(bridge, outcome),
            (Phase::Assign6 { bridge }, SetupEvent::Ran(outcome)) => p.assigned6(bridge, outcome),
            (Phase::Stop { error }, SetupEvent::Stopped) => {
                let stopped = Progress { config: p.config, reserved: p.reserved, vmnet: None };
                stopped.conclude(Err(error))
            },
            (Phase::Release { outcome }, SetupEvent::Ran(_)) => p.destroyed(outcome),
            (phase, _) => p.at(phase),
        }
    }

    /// The action that is due.
    pub fn action(&self) -> (r: SetupAction)
        requires
            self@.wf(),
        ensures
            r@ == self@.action(),
    {
        let config = &self.progress.config;
        match &self.phase {
            Phase::Bind => SetupAction::Bind(config.local_addr),
            Phase::ListForReserve => SetupAction::Query(list_interfaces_args()),
            Phase::Create { pending } => SetupAction::Run(
                create_interface_args(pending[0].as_str()),
            ),
            Phase::ListBefore => SetupAction::Query(list_interfaces_args()),
            Phase::Start { .. } => SetupAction::StartVmnet(config.mtu),
            Phase::Look { .. } => SetupAction::Query(list_interfaces_args()),
            Phase::Pause { .. } => SetupAction::Sleep(WAIT_PAUSE_MS),
            Phase::Show { bridge } => SetupAction::Query(show_interface_args(bridge.as_str())),
            Phase::Clear { commands, .. } => SetupAction::Run(cloned_args(&commands[0])),
            Phase::Assign4 { bridge } => match &config.bridge_ipv4 {
                Some(cidr) => SetupAction::Run(
                    assign_inet4_args(bridge.as_str(), cidr.as_str()),
                ),
                None => unreached(),
            },
            Phase::Assign6 { bridge } => match &config.bridge_ipv6 {
                Some(cidr) => match assign_inet6_args(bridge.as_str(), cidr.as_str()) {
                    Ok(args) => SetupAction::Run(args),
                    Err(_) => unreached(),
                },
                None => unreached(),
            },
            Phase::Stop { .. } => SetupAction::StopVmnet,
            Phase::Release { .. } => {
                let names = &self.progress.reserved.names;
                SetupAction::Run(destroy_interface_args(names[names.len() - 1].as_str()))
            },
            Phase::Finished { .. } => SetupAction::Done,
        }
    }

    /// How the construction ended, if it has.
    pub fn into_outcome(self) -> (r: Option<Outcome>)
        ensures
            match r {
                Some(outcome) => self@.phase == (PhaseView::Finished {
                    outcome: outcome_view(outcome),
                }),
                None => !(self@.phase is Finished),
            },
    {
        match self.phase {
            Phase::Finished { outcome } => Some(outcome),
            _ => None,
        }
    }
}

/// A copy of a list of arguments.
fn cloned_args(args: &Vec<String>) -> (r: Vec<String>)
    ensures
        strings_view(r@) == strings_view(args@),
{
    let mut r: Vec<String> = Vec::new();
    let mut i: usize = 0;
    while i < args.len()
        invariant
            i <= args@.len(),
            r@.len() == i,
            forall|j: int| 0 <= j < i ==> r@[j]@ == args@[j]@,
        decreases args@.len() - i,
    {
        r.push(args[i].clone());
        i += 1;
    }
    assert(strings_view(r@) =~= strings_view(args@));
    r
}

/// Whether `r` is the start of the construction of a tunnel of configuration
/// `config`, or the reason for which it is refused.
pub open spec fn begins(r: Result<TunnelSetup, TunnelError>, config: TunnelConfigView) -> bool {
    match r {
        Ok(setup) => {
            &&& refused(config) is None
            &&& setup@ == TunnelSetupView::start(config)
            &&& setup@.wf()
        },
        Err(e) => refused(config) == Some(e@),
    }
}

/// The view of an optional string slice.
pub open spec fn opt_str_view(s: Option<&str>) -> Option<Seq<char>> {
    match s {
        Some(t) => Some(t@),
        None => None,
    }
}

/// A string of its own for an optional string slice.
fn owned(s: Option<&str>) -> (r: Option<String>)
    ensures
        opt_view(r) == opt_str_view(s),
{
    match s {
        Some(t) => Some(t.to_owned()),
        None => None,
    }
}

impl VxlanTunnel {
    /// Starts the construction of a point-to-point tunnel that uses the same
    /// UDP port for the local bind and its single remote peer.
    pub fn new(
        vni: u32,
        local: IpAddr,
        remote: IpAddr,
        port: u16,
        mtu: u32,
        bridge_ipv4: Option<&str>,
        bridge_ipv6: Option<&str>,
    ) -> (r: Result<TunnelSetup, TunnelError>)
        ensures
            begins(
                r,
                TunnelConfigView {
                    vni,
                    local_addr: SocketAddr { ip: local, port },
                    remote_addrs: seq![SocketAddr { ip: remote, port }],
                    mtu,
                    bridge_ipv4: opt_str_view(bridge_ipv4),
                    bridge_ipv6: opt_str_view(bridge_ipv6),
                },
            ),
    {
        let remotes: Vec<SocketAddr> = vec![SocketAddr::new(remote, port)];
        assert(remotes@ =~= seq![SocketAddr { ip: remote, port }]);
        VxlanTunnel::new_with_remotes(
            vni,
            SocketAddr::new(local, port),
            remotes,
            mtu,
            bridge_ipv4,
            bridge_ipv6,
        )
    }

    /// Starts the construction of a tunnel with one local UDP socket and one
    /// or more remote endpoints. Ethernet frames read from vmnet are sent to
    /// every one of them; datagrams from all of them are accepted on the
    /// shared socket and filtered by the network.
    pub fn new_with_remotes(
        vni: u32,
        local_addr: SocketAddr,
        remote_addrs: Vec<SocketAddr>,
        mtu: u32,
        bridge_ipv4: Option<&str>,
        bridge_ipv6: Option<&str>,
    ) -> (r: Result<TunnelSetup, TunnelError>)
        ensures
            begins(
                r,
                TunnelConfigView {
                    vni,
                    local_addr,
                    remote_addrs: remote_addrs@,
                    mtu,
                    bridge_ipv4: opt_str_view(bridge_ipv4),
                    bridge_ipv6: opt_str_view(bridge_ipv6),
                },
            ),
    {
        let config = TunnelConfig {
            vni,
            local_addr,
            remote_addrs,
            mtu,
            bridge_ipv4: owned(bridge_ipv4),
            bridge_ipv6: owned(bridge_ipv6),
        };
        TunnelSetup::start(config)
    }

    /// Starts the construction of a tunnel to the endpoints of `peers`.
    pub fn new_with_peers(
        vni: u32,
        local_addr: SocketAddr,
        peers: Vec<VtepPeer>,
        mtu: u32,
        bridge_ipv4: Option<&str>,
        bridge_ipv6: Option<&str>,
    ) -> (r: Result<TunnelSetup, TunnelError>)
        ensures
            begins(
                r,
                TunnelConfigView {
                    vni,
                    local_addr,
                    remote_addrs: endpoints(peers@),
                    mtu,
                    bridge_ipv4: opt_str_view(bridge_ipv4),
                    bridge_ipv6: opt_str_view(bridge_ipv6),
                },
            ),
    {
        let mut remote_addrs: Vec<SocketAddr> = Vec::new();
        let mut i: usize = 0;
        while i < peers.len()
            invariant
                i <= peers@.len(),
                remote_addrs@ == endpoints(peers@.take(i as int)),
            decreases peers@.len() - i,
        {
            remote_addrs.push(peers[i].endpoint);
            i += 1;
            assert(endpoints(peers@.take(i as int)) =~= endpoints(peers@.take(i - 1)).push(
                peers@[i - 1].endpoint,
            ));
        }
        assert(peers@.take(i as int) =~= peers@);
        VxlanTunnel::new_with_remotes(
            vni,
            local_addr,
            remote_addrs,
            mtu,
            bridge_ipv4,
            bridge_ipv6,
        )
    }
}

/// The endpoints of `peers`, in order.
pub open spec fn endpoints(peers: Seq<VtepPeer>) -> Seq<SocketAddr> {
    peers.map_values(|peer: VtepPeer| peer.endpoint)
}

/// A tunnel is refused at once exactly where there is nobody to send to or its
/// identifier does not fit in 24 bits, the former being reported first; any
/// other construction starts with its configuration as it was given and with
/// the binding of the socket.
pub proof fn law_only_impossible_tunnels_are_refused(
    r: Result<TunnelSetup, TunnelError>,
    config: TunnelConfigView,
)
    requires
        begins(r, config),
    ensures
        r is Ok <==> config.remote_addrs.len() > 0 && config.vni <= 0xff_ffff,
        match r {
            Ok(setup) => {
                &&& setup@.progress.config == config
                &&& setup@.progress.reserved.len() == 0
                &&& setup@.progress.vmnet is None
                &&& setup@.action() == SetupActionView::Bind(config.local_addr)
                &&& setup@.wf()
            },
            Err(e) => e@ == (if config.remote_addrs.len() == 0 {
                TunnelErrorView::NoRemotes
            } else {
                TunnelErrorView::VniOutOfRange(config.vni)
            }),
        },
{
}

/// Every peer is sent to at its endpoint, in the order of the peers.
pub proof fn law_endpoints_are_those_of_the_peers(peers: Seq<VtepPeer>)
    ensures
        endpoints(peers).len() == peers.len(),
        forall|i: int| 0 <= i < peers.len() ==> #[trigger] endpoints(peers)[i] == peers[i].endpoint,
{
}

/// The views of what goes into a construction and comes out of it keep every
/// field.
pub proof fn law_views_keep_tunnels(
    config: TunnelConfig,
    tunnel: VxlanTunnel,
    error: TunnelError,
    text: String,
    slice: &str,
)
    ensures
        config@.vni == config.vni,
        config@.local_addr == config.local_addr,
        config@.remote_addrs == config.remote_addrs@,
        config@.mtu == config.mtu,
        config.bridge_ipv4 matches Some(cidr) ==> config@.bridge_ipv4 == Some(cidr@),
        config.bridge_ipv4 is None ==> config@.bridge_ipv4 is None,
        config.bridge_ipv6 matches Some(cidr) ==> config@.bridge_ipv6 == Some(cidr@),
        config.bridge_ipv6 is None ==> config@.bridge_ipv6 is None,
        tunnel@.vni == tunnel.vni,
        tunnel@.remote_addrs == tunnel.remote_addrs@,
        tunnel@.vmnet == tunnel.vmnet,
        tunnel@.bridge_name == tunnel.bridge_name@,
        outcome_view(Ok(tunnel)) == Ok::<VxlanTunnelView, TunnelErrorView>(tunnel@),
        outcome_view(Err(error)) == Err::<VxlanTunnelView, TunnelErrorView>(error@),
        opt_view(Some(text)) == Some(text@),
        opt_view(None) is None,
        opt_str_view(Some(slice)) == Some(slice@),
        opt_str_view(None) is None,
{
}

/// The views of actions and events keep their kind and all that they hold.
pub proof fn law_views_keep_actions(
    addr: SocketAddr,
    args: Vec<String>,
    mtu: u32,
    ms: u64,
    text: String,
    bytes: Vec<u8>,
    outcome: RunOutcome,
    info: VmnetInfo,
)
    ensures
        SetupAction::Bind(addr)@ == SetupActionView::Bind(addr),
        SetupAction::Query(args)@ == SetupActionView::Query(strings_view(args@)),
        SetupAction::Run(args)@ == SetupActionView::Run(strings_view(args@)),
        SetupAction::StartVmnet(mtu)@ == SetupActionView::StartVmnet(mtu),
        SetupAction::Sleep(ms)@ == SetupActionView::Sleep(ms),
        SetupAction::StopVmnet@ is StopVmnet,
        SetupAction::Done@ is Done,
        SetupEvent::Bound@ is Bound,
        SetupEvent::NotBound(text)@ == SetupEventView::NotBound(text@),
        SetupEvent::Printed(Some(bytes))@ == SetupEventView::Printed(Some(bytes@)),
        SetupEvent::Printed(None)@ == SetupEventView::Printed(None),
        SetupEvent::Ran(outcome)@ == SetupEventView::Ran(outcome@),
        SetupEvent::Started(info)@ == SetupEventView::Started(info),
        SetupEvent::NotStarted@ is NotStarted,
        SetupEvent::Slept@ is Slept,
        SetupEvent::Stopped@ is Stopped,
{
}

} // verus!
