//! What holds of the construction of a tunnel, whatever the outside world
//! answers.

use crate::bridge::{
    bridge_name, first_new, is_forced, law_first_new, law_missing_bridges, missing_bridges,
    VMNET_BRIDGE_BASE, VMNET_MAX_FORCED_VNI, WAIT_ATTEMPTS, WAIT_PAUSE_MS,
};
use crate::error::TunnelErrorView;
use crate::ifconfig::{
    all_removals, create_args, delete_args, destroy_args, inet4_args, inet6_args, listed_bridges, RunOutcomeView,
};
use crate::setup::{
    refused, PhaseView, SetupActionView, SetupEventView, TunnelConfigView, TunnelSetupView,
    VmnetInfo, VxlanTunnelView,
};
use crate::text::{cut, law_cut_rejoins};
use vstd::prelude::*;

verus! {

/// The construction of a tunnel of configuration `config` after `events`.
pub open spec fn after(config: TunnelConfigView, events: Seq<SetupEventView>) -> TunnelSetupView
    decreases events.len(),
{
    if events.len() == 0 {
        TunnelSetupView::start(config)
    } else {
        after(config, events.drop_last()).next(events.last())
    }
}

/// The temporary bridge that exists because `action` ended in `event`.
pub open spec fn created_by(action: SetupActionView, event: SetupEventView) -> Option<Seq<char>> {
    match (action, event) {
        (
            SetupActionView::Run(args),
            SetupEventView::Ran(RunOutcomeView::Exited { success, .. }),
        ) => if success && args.len() == 2 && args[1] == "create"@ {
            Some(args[0])
        } else {
            None
        },
        _ => None,
    }
}

/// The temporary bridge whose destruction `action` is, when it has been run.
pub open spec fn destroyed_by(action: SetupActionView, event: SetupEventView) -> Option<Seq<char>> {
    match (action, event) {
        (SetupActionView::Run(args), SetupEventView::Ran(_)) => if args.len() == 2 && args[1]
            == "destroy"@ {
            Some(args[0])
        } else {
            None
        },
        _ => None,
    }
}

/// The temporary bridges created in the course of `events`, in order.
pub open spec fn created(config: TunnelConfigView, events: Seq<SetupEventView>) -> Seq<Seq<char>>
    decreases events.len(),
{
    if events.len() == 0 {
        seq![]
    } else {
        match created_by(after(config, events.drop_last()).action(), events.last()) {
            Some(name) => created(config, events.drop_last()).push(name),
            None => created(config, events.drop_last()),
        }
    }
}

/// The temporary bridges destroyed in the course of `events`, in order.
pub open spec fn destroyed(config: TunnelConfigView, events: Seq<SetupEventView>) -> Seq<Seq<char>>
    decreases events.len(),
{
    if events.len() == 0 {
        seq![]
    } else {
        match destroyed_by(after(config, events.drop_last()).action(), events.last()) {
            Some(name) => destroyed(config, events.drop_last()).push(name),
            None => destroyed(config, events.drop_last()),
        }
    }
}

/// How often vmnet started in the course of `events`.
pub open spec fn starts(config: TunnelConfigView, events: Seq<SetupEventView>) -> int
    decreases events.len(),
{
    if events.len() == 0 {
        0
    } else {
        starts(config, events.drop_last()) + if after(config, events.drop_last()).action() is StartVmnet
            && events.last() is Started {
            1int
        } else {
            0
        }
    }
}

/// How often vmnet was stopped in the course of `events`.
pub open spec fn stops(config: TunnelConfigView, events: Seq<SetupEventView>) -> int
    decreases events.len(),
{
    if events.len() == 0 {
        0
    } else {
        stops(config, events.drop_last()) + if after(config, events.drop_last()).action() is StopVmnet
            && events.last() is Stopped {
            1int
        } else {
            0
        }
    }
}

/// Whether the construction has a tunnel to hand out.
pub open spec fn has_tunnel(setup: TunnelSetupView) -> bool {
    match setup.phase {
        PhaseView::Release { outcome } => outcome is Ok,
        PhaseView::Finished { outcome } => outcome is Ok,
        _ => false,
    }
}

/// Whether vmnet has not been started yet.
pub open spec fn before_start(setup: TunnelSetupView) -> bool {
    match setup.phase {
        PhaseView::Bind => true,
        PhaseView::ListForReserve => true,
        PhaseView::Create { .. } => true,
        PhaseView::ListBefore => true,
        PhaseView::Start { .. } => true,
        _ => false,
    }
}

proof fn lemma_after_wf(config: TunnelConfigView, events: Seq<SetupEventView>)
    requires
        refused(config) is None,
    ensures
        after(config, events).wf(),
        after(config, events).progress.config == config,
    decreases events.len(),
{
    if events.len() > 0 {
        lemma_after_wf(config, events.drop_last());
        after(config, events.drop_last()).lemma_next_wf(events.last());
    }
}

proof fn lemma_commands_differ(a: Seq<char>, b: Seq<char>)
    ensures
        create_args(a).len() == 2,
        create_args(a)[0] == a,
        create_args(a)[1] == "create"@,
        destroy_args(b).len() == 2,
        destroy_args(b)[0] == b,
        destroy_args(b)[1] == "destroy"@,
        "create"@ != "destroy"@,
{
    reveal_strlit("create");
    reveal_strlit("destroy");
    assert("create"@.len() != "destroy"@.len());
}

/// What one event does to the temporary bridges.
proof fn lemma_step_bridges(s: TunnelSetupView, event: SetupEventView)
    requires
        s.wf(),
    ensures
        before_start(s.next(event)) ==> before_start(s),
        match (created_by(s.action(), event), destroyed_by(s.action(), event)) {
            (Some(name), None) => {
                &&& s.phase is Create
                &&& name == s.phase->pending[0]
                &&& s.next(event).progress.reserved == s.progress.reserved.push(name)
            },
            (None, Some(name)) => {
                &&& s.phase is Release
                &&& !before_start(s.next(event))
                &&& name == s.progress.reserved.last()
                &&& s.progress.reserved.len() > 0
                &&& s.next(event).progress.reserved == s.progress.reserved.drop_last()
            },
            (None, None) => s.next(event).progress.reserved == s.progress.reserved,
            (Some(_), Some(_)) => false,
        },
{
    lemma_commands_differ(seq![], seq![]);
    match s.phase {
        PhaseView::Create { pending } => {
            lemma_commands_differ(pending[0], pending[0]);
        },
        PhaseView::Release { .. } => {
            lemma_commands_differ(s.progress.reserved.last(), s.progress.reserved.last());
        },
        PhaseView::Clear { commands, .. } => {
            assert(commands[0].len() == 4);
        },
        _ => {},
    }
}

/// What one event does to vmnet.
proof fn lemma_step_vmnet(s: TunnelSetupView, event: SetupEventView)
    requires
        s.wf(),
    ensures
        (s.action() is StartVmnet && event is Started) ==> {
            &&& before_start(s)
            &&& s.next(event).progress.vmnet is Some
            &&& !has_tunnel(s.next(event))
            &&& !before_start(s.next(event))
        },
        (s.action() is StopVmnet && event is Stopped) ==> {
            &&& s.progress.vmnet is Some
            &&& s.next(event).progress.vmnet is None
            &&& !has_tunnel(s.next(event))
        },
        !(s.action() is StartVmnet && event is Started) && !(s.action() is StopVmnet
            && event is Stopped) ==> (s.next(event).progress.vmnet is Some || has_tunnel(
            s.next(event),
        ) <==> s.progress.vmnet is Some || has_tunnel(s)),
        has_tunnel(s) ==> s.progress.vmnet is None,
        before_start(s) ==> s.progress.vmnet is None && !has_tunnel(s),
{
}

/// What is created and not yet destroyed is what is recorded.
proof fn lemma_bridges_balance(config: TunnelConfigView, events: Seq<SetupEventView>)
    requires
        refused(config) is None,
    ensures
        created(config, events) == after(config, events).progress.reserved + destroyed(
            config,
            events,
        ).reverse(),
        before_start(after(config, events)) ==> destroyed(config, events).len() == 0,
    decreases events.len(),
{
    if events.len() == 0 {
        assert(created(config, events) =~= after(config, events).progress.reserved + destroyed(
            config,
            events,
        ).reverse());
    } else {
        let prior = events.drop_last();
        let event = events.last();
        let s = after(config, prior);
        lemma_after_wf(config, prior);
        lemma_bridges_balance(config, prior);
        lemma_step_bridges(s, event);
        let d = destroyed(config, prior);
        let reserved = s.progress.reserved;
        if let Some(name) = created_by(s.action(), event) {
            assert(created(config, prior).push(name) =~= reserved.push(name) + d.reverse());
        } else if let Some(name) = destroyed_by(s.action(), event) {
            assert(reserved + d.reverse() =~= reserved.drop_last() + d.push(name).reverse());
        }
    }
}

/// vmnet runs for the construction, runs for the tunnel, or was stopped.
proof fn lemma_vmnet_balance(config: TunnelConfigView, events: Seq<SetupEventView>)
    requires
        refused(config) is None,
    ensures
        starts(config, events) == stops(config, events) + (if after(
            config,
            events,
        ).progress.vmnet is Some || has_tunnel(after(config, events)) {
            1int
        } else {
            0
        }),
        before_start(after(config, events)) ==> starts(config, events) == 0,
        0 <= stops(config, events) <= starts(config, events) <= 1,
    decreases events.len(),
{
    if events.len() > 0 {
        let prior = events.drop_last();
        lemma_after_wf(config, prior);
        lemma_vmnet_balance(config, prior);
        lemma_step_bridges(after(config, prior), events.last());
        lemma_step_vmnet(after(config, prior), events.last());
    }
}

/// Nothing is left behind on any exit path. When a construction has ended,
/// every temporary bridge that it created is destroyed, the last one first;
/// and vmnet, if it was started, is stopped where the construction failed and
/// runs on where there is a tunnel.
pub proof fn law_nothing_is_left_behind(config: TunnelConfigView, events: Seq<SetupEventView>)
    requires
        refused(config) is None,
        after(config, events).phase is Finished,
    ensures
        destroyed(config, events) == created(config, events).reverse(),
        after(config, events).phase->Finished_outcome is Err ==> starts(config, events) == stops(
            config,
            events,
        ),
        after(config, events).phase->Finished_outcome is Ok ==> starts(config, events) == 1
            && stops(config, events) == 0,
{
    lemma_after_wf(config, events);
    lemma_bridges_balance(config, events);
    lemma_vmnet_balance(config, events);
    let d = destroyed(config, events);
    assert(created(config, events) =~= d.reverse());
    assert(d.reverse().reverse() =~= d);
}

/// vmnet is started at most once and never stopped before it was started.
pub proof fn law_vmnet_starts_once(config: TunnelConfigView, events: Seq<SetupEventView>)
    requires
        refused(config) is None,
    ensures
        0 <= stops(config, events) <= starts(config, events) <= 1,
{
    lemma_vmnet_balance(config, events);
}

/// A tunnel that comes out has the network and the remote endpoints that were
/// asked for, and its bridge is named after its network from the first unit
/// of vmnet's allocator on.
pub proof fn law_tunnel_is_as_configured(
    config: TunnelConfigView,
    events: Seq<SetupEventView>,
    tunnel: VxlanTunnelView,
)
    requires
        refused(config) is None,
        after(config, events).phase == (PhaseView::Finished { outcome: Ok(tunnel) }),
    ensures
        tunnel.vni == config.vni,
        tunnel.remote_addrs == config.remote_addrs,
        config.vni >= VMNET_BRIDGE_BASE ==> tunnel.bridge_name == bridge_name(config.vni as int),
{
    lemma_after_wf(config, events);
}

/// What vmnet reported when it started in the course of `events`.
pub open spec fn reported(config: TunnelConfigView, events: Seq<SetupEventView>) -> Option<
    VmnetInfo,
>
    decreases events.len(),
{
    if events.len() == 0 {
        None
    } else {
        match (after(config, events.drop_last()).action(), events.last()) {
            (SetupActionView::StartVmnet(_), SetupEventView::Started(info)) => Some(info),
            _ => reported(config, events.drop_last()),
        }
    }
}

/// The bridges that were listed right before vmnet was started.
pub open spec fn known_before(config: TunnelConfigView, events: Seq<SetupEventView>) -> Option<
    Seq<Seq<char>>,
>
    decreases events.len(),
{
    if events.len() == 0 {
        None
    } else {
        match (after(config, events.drop_last()).phase, events.last()) {
            (PhaseView::ListBefore, SetupEventView::Printed(output)) => Some(
                listed_bridges(output),
            ),
            _ => known_before(config, events.drop_last()),
        }
    }
}

/// Whether `bridge` appeared after vmnet was started.
pub open spec fn is_new(
    config: TunnelConfigView,
    events: Seq<SetupEventView>,
    bridge: Seq<char>,
) -> bool {
    known_before(config, events) matches Some(known) && !known.contains(bridge)
}

/// What is known of vmnet and its bridge.
spec fn vmnet_stands(config: TunnelConfigView, events: Seq<SetupEventView>) -> bool {
    let s = after(config, events);
    &&& s.progress.vmnet is Some ==> reported(config, events) == s.progress.vmnet
    &&& match s.phase {
        PhaseView::Start { known } => known_before(config, events) == Some(known),
        PhaseView::Look { known, .. } => known_before(config, events) == Some(known),
        PhaseView::Pause { known, .. } => known_before(config, events) == Some(known),
        PhaseView::Show { bridge } => is_new(config, events, bridge),
        PhaseView::Clear { bridge, .. } => is_new(config, events, bridge),
        PhaseView::Assign4 { bridge } => is_new(config, events, bridge),
        PhaseView::Assign6 { bridge } => is_new(config, events, bridge),
        PhaseView::Release { outcome: Ok(tunnel) } => {
            &&& is_new(config, events, tunnel.bridge_name)
            &&& reported(config, events) == Some(tunnel.vmnet)
        },
        PhaseView::Finished { outcome: Ok(tunnel) } => {
            &&& is_new(config, events, tunnel.bridge_name)
            &&& reported(config, events) == Some(tunnel.vmnet)
        },
        _ => true,
    }
}

proof fn lemma_vmnet_stands(config: TunnelConfigView, events: Seq<SetupEventView>)
    requires
        refused(config) is None,
    ensures
        vmnet_stands(config, events),
    decreases events.len(),
{
    if events.len() > 0 {
        let prior = events.drop_last();
        let s = after(config, prior);
        lemma_after_wf(config, prior);
        lemma_vmnet_stands(config, prior);
        if let (PhaseView::Look { known, .. }, SetupEventView::Printed(output)) = (
            s.phase,
            events.last(),
        ) {
            law_first_new(listed_bridges(output), known);
        }
    }
}

/// A tunnel that comes out has what vmnet reported, and its bridge is one that
/// was not there before vmnet was started.
pub proof fn law_bridge_is_new(
    config: TunnelConfigView,
    events: Seq<SetupEventView>,
    tunnel: VxlanTunnelView,
)
    requires
        refused(config) is None,
        after(config, events).phase == (PhaseView::Finished { outcome: Ok(tunnel) }),
    ensures
        is_new(config, events, tunnel.bridge_name),
        reported(config, events) == Some(tunnel.vmnet),
{
    lemma_vmnet_stands(config, events);
}

/// The bridges that existed when it was decided which ones to create.
pub open spec fn reserve_listing(
    config: TunnelConfigView,
    events: Seq<SetupEventView>,
) -> Option<Seq<Seq<char>>>
    decreases events.len(),
{
    if events.len() == 0 {
        None
    } else {
        match (after(config, events.drop_last()).phase, events.last()) {
            (PhaseView::ListForReserve, SetupEventView::Printed(output)) => Some(
                listed_bridges(output),
            ),
            _ => reserve_listing(config, events.drop_last()),
        }
    }
}

/// The temporary bridges that a construction needs, given those that existed.
pub open spec fn needed(config: TunnelConfigView, existing: Seq<Seq<char>>) -> Seq<Seq<char>> {
    missing_bridges(VMNET_BRIDGE_BASE as int, config.vni as int, existing)
}

/// How far the reservation has got.
spec fn reservation_stands(config: TunnelConfigView, events: Seq<SetupEventView>) -> bool {
    let c = created(config, events);
    match (after(config, events).phase, reserve_listing(config, events)) {
        (PhaseView::Bind, listing) => listing is None && c.len() == 0,
        (PhaseView::ListForReserve, listing) => listing is None && c.len() == 0,
        (PhaseView::Create { pending }, Some(existing)) => {
            &&& !existing.contains(bridge_name(config.vni as int))
            &&& c + pending == needed(config, existing)
            &&& is_forced(config.vni)
        },
        (PhaseView::Create { .. }, None) => false,
        (PhaseView::Stop { .. }, Some(existing)) => is_forced(config.vni) && c.is_prefix_of(
            needed(config, existing),
        ),
        (PhaseView::Release { .. }, Some(existing)) => is_forced(config.vni) && c.is_prefix_of(
            needed(config, existing),
        ),
        (PhaseView::Finished { .. }, Some(existing)) => is_forced(config.vni) && c.is_prefix_of(
            needed(config, existing),
        ),
        (PhaseView::Stop { .. }, None) => c.len() == 0,
        (PhaseView::Release { .. }, None) => c.len() == 0,
        (PhaseView::Finished { .. }, None) => c.len() == 0,
        (_, Some(existing)) => {
            &&& !existing.contains(bridge_name(config.vni as int))
            &&& c == needed(config, existing)
            &&& is_forced(config.vni)
        },
        (_, None) => c.len() == 0 && config.vni < VMNET_BRIDGE_BASE,
    }
}

proof fn lemma_reservation_stands(config: TunnelConfigView, events: Seq<SetupEventView>)
    requires
        refused(config) is None,
    ensures
        reservation_stands(config, events),
    decreases events.len(),
{
    if events.len() > 0 {
        let prior = events.drop_last();
        let event = events.last();
        let s = after(config, prior);
        let c = created(config, prior);
        lemma_after_wf(config, prior);
        lemma_reservation_stands(config, prior);
        lemma_step_bridges(s, event);
        match (s.phase, event) {
            (PhaseView::ListForReserve, SetupEventView::Printed(output)) => {
                let existing = listed_bridges(output);
                let plan = needed(config, existing);
                assert(c + plan =~= plan);
                assert(c =~= plan.subrange(0, 0));
            },
            (PhaseView::Create { pending }, SetupEventView::Ran(outcome)) => {
                let plan = c + pending;
                assert(c =~= plan.subrange(0, c.len() as int));
                assert(c.push(pending[0]) + pending.drop_first() =~= plan);
                if pending.len() == 1 {
                    assert(c.push(pending[0]) =~= plan);
                }
            },
            _ => {
                assert(c =~= c.subrange(0, c.len() as int));
            },
        }
    }
}

/// A bridge that existed before is neither created nor destroyed: the temporary
/// bridges are the free units below the one of the network, in order, as far as
/// they were created, and no other bridge is destroyed.
pub proof fn law_only_free_units_are_created(config: TunnelConfigView, events: Seq<SetupEventView>)
    requires
        refused(config) is None,
    ensures
        match reserve_listing(config, events) {
            Some(existing) => {
                &&& created(config, events).is_prefix_of(needed(config, existing))
                &&& forall|i: int|
                    0 <= i < created(config, events).len() ==> !existing.contains(
                        #[trigger] created(config, events)[i],
                    )
            },
            None => created(config, events).len() == 0,
        },
        forall|i: int|
            0 <= i < destroyed(config, events).len() ==> created(config, events).contains(
                #[trigger] destroyed(config, events)[i],
            ),
{
    lemma_bridges_balance(config, events);
    let d = destroyed(config, events);
    assert forall|i: int| 0 <= i < d.len() implies created(config, events).contains(
        #[trigger] d[i],
    ) by {
        let reserved = after(config, events).progress.reserved;
        let k = reserved.len() + d.len() - 1 - i;
        assert(created(config, events)[k] == d.reverse()[d.len() - 1 - i]);
    }
    lemma_reservation_stands(config, events);
    let c = created(config, events);
    assert(c =~= c.subrange(0, c.len() as int));
    if let Some(existing) = reserve_listing(config, events) {
        if let PhaseView::Create { pending } = after(config, events).phase {
            assert(c =~= needed(config, existing).subrange(0, c.len() as int));
        }
        if c.len() > 0 {
            let plan = needed(config, existing);
            law_missing_bridges(VMNET_BRIDGE_BASE as int, config.vni as int, existing);
            assert forall|i: int| 0 <= i < c.len() implies !existing.contains(#[trigger] c[i]) by {
                assert(plan.subrange(0, c.len() as int)[i] == plan[i]);
            }
        }
    }
}

/// Where vmnet was started and the construction failed, vmnet is stopped before
/// the first temporary bridge is destroyed.
pub proof fn law_vmnet_stops_first(
    config: TunnelConfigView,
    events: Seq<SetupEventView>,
    event: SetupEventView,
)
    requires
        refused(config) is None,
        destroyed_by(after(config, events).action(), event) is Some,
    ensures
        !has_tunnel(after(config, events)) ==> stops(config, events) == starts(config, events),
        has_tunnel(after(config, events)) ==> starts(config, events) == 1,
{
    lemma_after_wf(config, events);
    lemma_vmnet_balance(config, events);
    lemma_step_bridges(after(config, events), event);
}

/// When vmnet is started for a network whose bridge name is forced, every
/// lower unit of its allocator is occupied and the network's own unit was
/// free.
pub proof fn law_lower_units_are_occupied(
    config: TunnelConfigView,
    events: Seq<SetupEventView>,
    unit: int,
)
    requires
        refused(config) is None,
        after(config, events).action() is StartVmnet,
        VMNET_BRIDGE_BASE <= unit < config.vni,
    ensures
        match reserve_listing(config, events) {
            Some(existing) => {
                &&& existing.contains(bridge_name(unit)) || created(config, events).contains(
                    bridge_name(unit),
                )
                &&& !existing.contains(bridge_name(config.vni as int))
            },
            None => false,
        },
{
    lemma_reservation_stands(config, events);
    if let Some(existing) = reserve_listing(config, events) {
        law_missing_bridges(
            VMNET_BRIDGE_BASE as int,
            config.vni as int,
            existing,
        );
    }
}

/// A construction never creates more temporary bridges than there are units
/// between the first one of vmnet's allocator and the last one whose name is
/// forced.
pub proof fn law_temporary_bridges_are_bounded(
    config: TunnelConfigView,
    events: Seq<SetupEventView>,
)
    requires
        refused(config) is None,
    ensures
        created(config, events).len() <= VMNET_MAX_FORCED_VNI - VMNET_BRIDGE_BASE,
{
    law_only_free_units_are_created(config, events);
    lemma_reservation_stands(config, events);
    if let Some(existing) = reserve_listing(config, events) {
        law_missing_bridges(
            VMNET_BRIDGE_BASE as int,
            config.vni as int,
            existing,
        );
    }
}

/// A network whose bridge name cannot be forced gets no tunnel and leaves no
/// trace: no bridge is created and vmnet is not started.
pub proof fn law_unforceable_network_is_refused(
    config: TunnelConfigView,
    events: Seq<SetupEventView>,
)
    requires
        refused(config) is None,
        config.vni > VMNET_MAX_FORCED_VNI,
    ensures
        created(config, events).len() == 0,
        starts(config, events) == 0,
        match after(config, events).phase {
            PhaseView::Bind => true,
            PhaseView::Finished { outcome: Err(TunnelErrorView::TooManyBridges(vni)) } => vni
                == config.vni,
            PhaseView::Finished { outcome: Err(TunnelErrorView::BindFailed(_)) } => true,
            _ => false,
        },
    decreases events.len(),
{
    if events.len() > 0 {
        law_unforceable_network_is_refused(config, events.drop_last());
        lemma_after_wf(config, events.drop_last());
        lemma_step_bridges(after(config, events.drop_last()), events.last());
    }
}

/// The bridge whose addresses were read in the course of `events`, and what
/// was printed of it.
pub open spec fn described(config: TunnelConfigView, events: Seq<SetupEventView>) -> Option<
    (Seq<char>, Option<Seq<u8>>),
>
    decreases events.len(),
{
    if events.len() == 0 {
        None
    } else {
        match (after(config, events.drop_last()).phase, events.last()) {
            (PhaseView::Show { bridge }, SetupEventView::Printed(output)) => Some((bridge, output)),
            _ => described(config, events.drop_last()),
        }
    }
}

/// The removals of addresses that were run in the course of `events`, in order.
pub open spec fn cleared(config: TunnelConfigView, events: Seq<SetupEventView>) -> Seq<
    Seq<Seq<char>>,
>
    decreases events.len(),
{
    if events.len() == 0 {
        seq![]
    } else {
        let prior = cleared(config, events.drop_last());
        match (after(config, events.drop_last()).phase, events.last()) {
            (PhaseView::Clear { commands, .. }, SetupEventView::Ran(_)) => prior.push(commands[0]),
            _ => prior,
        }
    }
}

/// The commands that were run with success in the course of `events`, in order.
pub open spec fn succeeded(config: TunnelConfigView, events: Seq<SetupEventView>) -> Seq<
    Seq<Seq<char>>,
>
    decreases events.len(),
{
    if events.len() == 0 {
        seq![]
    } else {
        let prior = succeeded(config, events.drop_last());
        match (after(config, events.drop_last()).action(), events.last()) {
            (
                SetupActionView::Run(args),
                SetupEventView::Ran(RunOutcomeView::Exited { success, .. }),
            ) => if success {
                prior.push(args)
            } else {
                prior
            },
            _ => prior,
        }
    }
}

/// Whether all addresses that `bridge` had are removed.
pub open spec fn is_cleared(
    config: TunnelConfigView,
    events: Seq<SetupEventView>,
    bridge: Seq<char>,
) -> bool {
    described(config, events) matches Some(d) && d.0 == bridge && cleared(config, events)
        == all_removals(bridge, d.1)
}

/// Whether `bridge` was given the IPv4 address that it is to have, if any.
pub open spec fn has_inet4(
    config: TunnelConfigView,
    events: Seq<SetupEventView>,
    bridge: Seq<char>,
) -> bool {
    config.bridge_ipv4 matches Some(cidr) ==> succeeded(config, events).contains(
        inet4_args(bridge, cidr),
    )
}

/// Whether `bridge` was given the IPv6 address that it is to have, if any.
pub open spec fn has_inet6(
    config: TunnelConfigView,
    events: Seq<SetupEventView>,
    bridge: Seq<char>,
) -> bool {
    config.bridge_ipv6 matches Some(cidr) ==> (cut(cidr, '/') matches Some(p) && succeeded(
        config,
        events,
    ).contains(inet6_args(bridge, p.0, p.1)))
}

/// Whether the bridge that was looked at is rid of the addresses that it had and
/// has its IPv4 address, if it is to have one.
pub open spec fn is_addressed4(config: TunnelConfigView, events: Seq<SetupEventView>) -> bool {
    &&& described(config, events) matches Some(d)
    &&& is_cleared(config, events, d.0)
    &&& has_inet4(config, events, d.0)
}

/// How far the bridge has its addresses.
spec fn addresses_stand(config: TunnelConfigView, events: Seq<SetupEventView>) -> bool {
    match after(config, events).phase {
        PhaseView::Clear { bridge, commands } => {
            &&& described(config, events) matches Some(d)
            &&& d.0 == bridge
            &&& cleared(config, events) + commands == all_removals(bridge, d.1)
        },
        PhaseView::Assign4 { bridge } => is_cleared(config, events, bridge),
        PhaseView::Assign6 { bridge } => {
            &&& is_cleared(config, events, bridge)
            &&& has_inet4(config, events, bridge)
        },
        PhaseView::Release { outcome: Ok(tunnel) } => {
            &&& is_cleared(config, events, tunnel.bridge_name)
            &&& has_inet4(config, events, tunnel.bridge_name)
            &&& has_inet6(config, events, tunnel.bridge_name)
        },
        PhaseView::Finished { outcome: Ok(tunnel) } => {
            &&& is_cleared(config, events, tunnel.bridge_name)
            &&& has_inet4(config, events, tunnel.bridge_name)
            &&& has_inet6(config, events, tunnel.bridge_name)
        },
        PhaseView::Stop { error: TunnelErrorView::InvalidCidr(_) } => is_addressed4(config, events),
        PhaseView::Stop { .. } => true,
        PhaseView::Release { .. } => true,
        PhaseView::Finished { .. } => true,
        _ => cleared(config, events).len() == 0,
    }
}

proof fn lemma_succeeded_grows(
    config: TunnelConfigView,
    events: Seq<SetupEventView>,
    command: Seq<Seq<char>>,
)
    requires
        events.len() > 0,
        succeeded(config, events.drop_last()).contains(command),
    ensures
        succeeded(config, events).contains(command),
{
    let prior = succeeded(config, events.drop_last());
    let k = choose|k: int| 0 <= k < prior.len() && prior[k] == command;
    assert(succeeded(config, events)[k] == command);
}

proof fn lemma_addresses_stand(config: TunnelConfigView, events: Seq<SetupEventView>)
    requires
        refused(config) is None,
    ensures
        addresses_stand(config, events),
    decreases events.len(),
{
    if events.len() > 0 {
        let prior = events.drop_last();
        let event = events.last();
        let s = after(config, prior);
        let c = cleared(config, prior);
        lemma_after_wf(config, prior);
        lemma_addresses_stand(config, prior);
        assert forall|command: Seq<Seq<char>>| #[trigger]
            succeeded(config, prior).contains(command) implies succeeded(config, events).contains(
            command,
        ) by {
            lemma_succeeded_grows(config, events, command);
        }
        match (s.phase, event) {
            (PhaseView::Show { bridge }, SetupEventView::Printed(output)) => {
                let commands = all_removals(bridge, output);
                assert(c + commands =~= commands);
                assert(commands.len() == 0 ==> c =~= commands);
            },
            (PhaseView::Clear { bridge, commands }, SetupEventView::Ran(_)) => {
                assert(c.push(commands[0]) + commands.drop_first() =~= c + commands);
                if commands.len() == 1 {
                    assert(c.push(commands[0]) =~= c + commands);
                }
            },
            (PhaseView::Assign4 { .. }, SetupEventView::Ran(outcome)) => {
                let done = succeeded(config, events);
                assert(done.len() > 0 ==> done.contains(done.last()));
            },
            (PhaseView::Assign6 { .. }, SetupEventView::Ran(outcome)) => {
                let done = succeeded(config, events);
                assert(done.len() > 0 ==> done.contains(done.last()));
            },
            _ => {},
        }
    }
}

/// The bridge of a tunnel that comes out has the addresses that were asked for:
/// the removal of every IPv4 address that vmnet gave it was run, in order, and
/// the commands that assign the configured addresses succeeded.
pub proof fn law_bridge_has_its_addresses(
    config: TunnelConfigView,
    events: Seq<SetupEventView>,
    tunnel: VxlanTunnelView,
)
    requires
        refused(config) is None,
        after(config, events).phase == (PhaseView::Finished { outcome: Ok(tunnel) }),
    ensures
        is_cleared(config, events, tunnel.bridge_name),
        has_inet4(config, events, tunnel.bridge_name),
        has_inet6(config, events, tunnel.bridge_name),
{
    lemma_addresses_stand(config, events);
}

/// How long the construction slept in the course of `events`, in milliseconds.
pub open spec fn slept(config: TunnelConfigView, events: Seq<SetupEventView>) -> int
    decreases events.len(),
{
    if events.len() == 0 {
        0
    } else {
        slept(config, events.drop_last()) + match (
            after(config, events.drop_last()).action(),
            events.last(),
        ) {
            (SetupActionView::Sleep(ms), SetupEventView::Slept) => ms as int,
            _ => 0,
        }
    }
}

proof fn lemma_slept(config: TunnelConfigView, events: Seq<SetupEventView>)
    requires
        refused(config) is None,
    ensures
        match after(config, events).phase {
            PhaseView::Look { attempt, .. } => slept(config, events) == attempt * WAIT_PAUSE_MS,
            PhaseView::Pause { attempt, .. } => slept(config, events) == (attempt - 1)
                * WAIT_PAUSE_MS,
            _ => {
                &&& before_start(after(config, events)) ==> slept(config, events) == 0
                &&& slept(config, events) <= (WAIT_ATTEMPTS - 1) * WAIT_PAUSE_MS
            },
        },
    decreases events.len(),
{
    if events.len() > 0 {
        lemma_after_wf(config, events.drop_last());
        lemma_slept(config, events.drop_last());
    }
}

/// The wait for the new bridge is over after less than three seconds of sleep.
pub proof fn law_wait_is_bounded(config: TunnelConfigView, events: Seq<SetupEventView>)
    requires
        refused(config) is None,
    ensures
        slept(config, events) <= (WAIT_ATTEMPTS - 1) * WAIT_PAUSE_MS < 3000,
{
    lemma_after_wf(config, events);
    lemma_slept(config, events);
}

/// Whether `event` answers `action`.
pub open spec fn answers(action: SetupActionView, event: SetupEventView) -> bool {
    match action {
        SetupActionView::Bind(_) => event is Bound || event is NotBound,
        SetupActionView::Query(_) => event is Printed,
        SetupActionView::Run(_) => event is Ran,
        SetupActionView::StartVmnet(_) => event is Started || event is NotStarted,
        SetupActionView::Sleep(_) => event is Slept,
        SetupActionView::StopVmnet => event is Stopped,
        SetupActionView::Done => false,
    }
}

/// How many kinds of step a construction has ahead of it at most, and how many
/// steps of the present kind.
pub open spec fn ahead(s: TunnelSetupView) -> (int, int) {
    match s.phase {
        PhaseView::Bind => (12, 0),
        PhaseView::ListForReserve => (11, 0),
        PhaseView::Create { pending } => (10, pending.len() as int),
        PhaseView::ListBefore => (9, 0),
        PhaseView::Start { .. } => (8, 0),
        PhaseView::Look { attempt, .. } => (7, 2 * (WAIT_ATTEMPTS - attempt)),
        PhaseView::Pause { attempt, .. } => (7, 2 * (WAIT_ATTEMPTS - attempt) + 1),
        PhaseView::Show { .. } => (6, 0),
        PhaseView::Clear { commands, .. } => (5, commands.len() as int),
        PhaseView::Assign4 { .. } => (4, 0),
        PhaseView::Assign6 { .. } => (3, 0),
        PhaseView::Stop { .. } => (2, 0),
        PhaseView::Release { .. } => (1, s.progress.reserved.len() as int),
        PhaseView::Finished { .. } => (0, 0),
    }
}

/// Every answer to the action that is due brings the construction nearer to
/// its end, so it ends after finitely many answers; anything else leaves it
/// where it is.
pub proof fn law_construction_ends(s: TunnelSetupView, event: SetupEventView)
    requires
        s.wf(),
    ensures
        0 <= ahead(s).0,
        0 <= ahead(s).1,
        answers(s.action(), event) ==> {
            ||| ahead(s.next(event)).0 < ahead(s).0
            ||| ahead(s.next(event)).0 == ahead(s).0 && ahead(s.next(event)).1 < ahead(s).1
        },
        !answers(s.action(), event) ==> s.next(event) == s,
        s.action() is Done <==> s.phase is Finished,
{
}

/// The error with which a construction has ended, or is about to end.
pub open spec fn error_of(s: TunnelSetupView) -> Option<TunnelErrorView> {
    match s.phase {
        PhaseView::Stop { error } => Some(error),
        PhaseView::Release { outcome: Err(error) } => Some(error),
        PhaseView::Finished { outcome: Err(error) } => Some(error),
        _ => None,
    }
}

/// Whether `event`, as the answer to the action that is due after `prior`, is a
/// reason for the construction to fail with `error`.
pub open spec fn is_cause(
    config: TunnelConfigView,
    prior: Seq<SetupEventView>,
    event: SetupEventView,
    error: TunnelErrorView,
) -> bool {
    let action = after(config, prior).action();
    match error {
        TunnelErrorView::NoRemotes => false,
        TunnelErrorView::VniOutOfRange(_) => false,
        TunnelErrorView::BindFailed(text) => action is Bind && event == SetupEventView::NotBound(
            text,
        ),
        TunnelErrorView::TooManyBridges(vni) => {
            &&& action is Bind && event is Bound
            &&& vni == config.vni && vni > 4095
        },
        TunnelErrorView::BridgeExists(name) => {
            &&& action == SetupActionView::Query(seq!["-a"@])
            &&& event matches SetupEventView::Printed(output)
            &&& listed_bridges(output).contains(name)
            &&& name == bridge_name(config.vni as int) && 100 <= config.vni <= 4095
        },
        TunnelErrorView::CreateNotRun { name, error } => {
            &&& action == SetupActionView::Run(seq![name, "create"@])
            &&& event == SetupEventView::Ran(RunOutcomeView::NotRun(error))
        },
        TunnelErrorView::CreateFailed { name, status } => {
            &&& action == SetupActionView::Run(seq![name, "create"@])
            &&& event == SetupEventView::Ran(RunOutcomeView::Exited { success: false, status })
        },
        TunnelErrorView::VmnetUnavailable => action is StartVmnet && event is NotStarted,
        TunnelErrorView::BridgeNotFound => {
            &&& action == SetupActionView::Query(seq!["-a"@])
            &&& event matches SetupEventView::Printed(output)
            &&& known_before(config, prior) matches Some(known)
            &&& forall|i: int|
                0 <= i < listed_bridges(output).len() ==> known.contains(
                    #[trigger] listed_bridges(output)[i],
                )
            &&& slept(config, prior) == 2900
        },
        TunnelErrorView::UnexpectedBridge { created, vni } => {
            &&& action == SetupActionView::Query(seq!["-a"@])
            &&& event matches SetupEventView::Printed(output)
            &&& listed_bridges(output).contains(created)
            &&& is_new(config, prior, created)
            &&& vni == config.vni && vni >= 100 && created != bridge_name(vni as int)
        },
        TunnelErrorView::Inet4NotRun(text) => {
            &&& assigns4(config, action)
            &&& event == SetupEventView::Ran(RunOutcomeView::NotRun(text))
        },
        TunnelErrorView::Inet4Failed { cidr, iface } => {
            &&& assigns4(config, action) && action->Run_0[0] == iface && action->Run_0[2] == cidr
            &&& event matches SetupEventView::Ran(RunOutcomeView::Exited { success, .. })
            &&& !success
        },
        TunnelErrorView::Inet6NotRun(text) => {
            &&& assigns6(config, action)
            &&& event == SetupEventView::Ran(RunOutcomeView::NotRun(text))
        },
        TunnelErrorView::Inet6Failed { cidr, iface } => {
            &&& assigns6(config, action) && action->Run_0[0] == iface && config.bridge_ipv6 == Some(
                cidr,
            )
            &&& event matches SetupEventView::Ran(RunOutcomeView::Exited { success, .. })
            &&& !success
        },
        TunnelErrorView::InvalidCidr(text) => {
            &&& config.bridge_ipv6 == Some(text) && !text.contains('/')
            &&& is_addressed4(config, prior.push(event))
        },
    }
}

/// Whether `action` assigns the configured IPv4 address: the interface, "inet",
/// the address, "alias".
pub open spec fn assigns4(config: TunnelConfigView, action: SetupActionView) -> bool {
    &&& action matches SetupActionView::Run(args)
    &&& args.len() == 4
    &&& args[1] == "inet"@
    &&& Some(args[2]) == config.bridge_ipv4
    &&& args[3] == "alias"@
}

/// Whether `action` assigns the configured IPv6 address: the interface, "inet6",
/// what is in front of the slash, "prefixlen", what is behind it, "alias".
pub open spec fn assigns6(config: TunnelConfigView, action: SetupActionView) -> bool {
    &&& action matches SetupActionView::Run(args)
    &&& args.len() == 6
    &&& args[1] == "inet6"@
    &&& args[3] == "prefixlen"@
    &&& args[5] == "alias"@
    &&& Some(args[2] + seq!['/'] + args[4]) == config.bridge_ipv6
    &&& !args[2].contains('/')
}

proof fn lemma_assign_actions(config: TunnelConfigView, events: Seq<SetupEventView>)
    requires
        refused(config) is None,
    ensures
        after(config, events).phase matches PhaseView::Assign4 { bridge } ==> {
            let action = after(config, events).action();
            assigns4(config, action) && action->Run_0[0] == bridge
        },
        after(config, events).phase matches PhaseView::Assign6 { bridge } ==> {
            let action = after(config, events).action();
            assigns6(config, action) && action->Run_0[0] == bridge
        },
{
    lemma_after_wf(config, events);
    if let Some(cidr) = config.bridge_ipv6 {
        law_cut_rejoins(cidr, '/');
    }
}

proof fn lemma_error_has_cause(config: TunnelConfigView, events: Seq<SetupEventView>)
    requires
        refused(config) is None,
        events.len() > 0,
        error_of(after(config, events.drop_last())) is None,
        error_of(after(config, events)) is Some,
    ensures
        is_cause(
            config,
            events.drop_last(),
            events.last(),
            error_of(after(config, events))->0,
        ),
{
    let prior = events.drop_last();
    let s = after(config, prior);
    lemma_after_wf(config, prior);
    lemma_vmnet_stands(config, prior);
    lemma_slept(config, prior);
    lemma_assign_actions(config, prior);
    lemma_addresses_stand(config, events);
    assert(prior.push(events.last()) =~= events);
    match (s.phase, events.last()) {
        (PhaseView::Look { known, .. }, SetupEventView::Printed(output)) => {
            let list = listed_bridges(output);
            law_first_new(list, known);
            if let Some(name) = first_new(list, known) {
                assert(list.contains(name));
            }
        },
        _ => {},
    }
}

/// A construction fails only for a reason: where it has failed, or is about to,
/// one of the answers that it was given is the cause of its error.
pub proof fn law_failure_has_a_cause(config: TunnelConfigView, events: Seq<SetupEventView>)
    requires
        refused(config) is None,
        error_of(after(config, events)) is Some,
    ensures
        exists|k: int|
            0 <= k < events.len() && is_cause(
                config,
                events.take(k),
                #[trigger] events[k],
                error_of(after(config, events))->0,
            ),
    decreases events.len(),
{
    if events.len() > 0 {
        let prior = events.drop_last();
        let error = error_of(after(config, events))->0;
        let n = events.len() - 1;
        assert(events.take(n) =~= prior);
        if error_of(after(config, prior)) is None {
            lemma_error_has_cause(config, events);
            assert(is_cause(config, events.take(n), events[n], error));
        } else {
            lemma_after_wf(config, prior);
            law_failure_has_a_cause(config, prior);
            let k = choose|k: int|
                0 <= k < prior.len() && is_cause(
                    config,
                    prior.take(k),
                    #[trigger] prior[k],
                    error_of(after(config, prior))->0,
                );
            assert(prior.take(k) =~= events.take(k));
            assert(prior[k] == events[k]);
        }
    }
}

/// A tunnel is owed where nothing goes wrong: a construction that has ended
/// without a cause for failure among its answers has a tunnel.
pub proof fn law_tunnel_is_owed(config: TunnelConfigView, events: Seq<SetupEventView>)
    requires
        refused(config) is None,
        after(config, events).phase is Finished,
        forall|k: int, error: TunnelErrorView|
            0 <= k < events.len() ==> !#[trigger] is_cause(
                config,
                events.take(k),
                events[k],
                error,
            ),
    ensures
        after(config, events).phase->Finished_outcome is Ok,
{
    if error_of(after(config, events)) is Some {
        law_failure_has_a_cause(config, events);
    }
}

/// What a construction has come to stands: no event changes an error or a tunnel
/// any more.
pub proof fn law_outcome_stands(s: TunnelSetupView, event: SetupEventView)
    requires
        s.wf(),
    ensures
        error_of(s) is Some ==> error_of(s.next(event)) == error_of(s),
        s.phase matches PhaseView::Release { outcome } ==> match s.next(event).phase {
            PhaseView::Release { outcome: o } => o == outcome,
            PhaseView::Finished { outcome: o } => o == outcome,
            _ => false,
        },
        s.phase is Finished ==> s.next(event) == s,
{
}

/// The socket comes first: it is to be bound to the local address; where that
/// fails the construction fails with what the system says, and otherwise it goes
/// on to the bridges and to vmnet.
pub proof fn law_socket_comes_first(
    config: TunnelConfigView,
    events: Seq<SetupEventView>,
    text: Seq<char>,
)
    requires
        refused(config) is None,
    ensures
        after(config, seq![]).action() == SetupActionView::Bind(config.local_addr),
        after(config, events).action() is Bind ==> {
            let s = after(config, events);
            &&& created(config, events).len() == 0
            &&& starts(config, events) == 0
            &&& error_of(s.next(SetupEventView::NotBound(text))) == Some(
                TunnelErrorView::BindFailed(text),
            )
            &&& config.vni <= 4095 ==> s.next(SetupEventView::Bound).action()
                == SetupActionView::Query(seq!["-a"@])
        },
{
    lemma_after_wf(config, events);
    lemma_reservation_stands(config, events);
    lemma_vmnet_balance(config, events);
}

/// Every action has its place. The socket is bound to the configured address;
/// `ifconfig` is asked for all interfaces, or for the one that is new; a unit is
/// created only where it is free and below the network's own; addresses are
/// removed from the new bridge alone, one by one as they were listed; the
/// configured addresses are assigned to it; temporary bridges are destroyed, the
/// last one first; vmnet is started with the configured MTU; and a pause is a
/// tenth of a second.
pub proof fn law_every_action_has_its_place(config: TunnelConfigView, events: Seq<SetupEventView>)
    requires
        refused(config) is None,
    ensures
        match after(config, events).action() {
            SetupActionView::Bind(addr) => addr == config.local_addr,
            SetupActionView::Query(args) => {
                ||| args == seq!["-a"@]
                ||| args.len() == 1 && is_new(config, events, args[0]) && config.accepts(args[0])
            },
            SetupActionView::Run(args) => {
                ||| {
                    &&& args.len() == 2 && args[1] == "create"@
                    &&& reserve_listing(config, events) matches Some(existing)
                    &&& !existing.contains(args[0])
                    &&& exists|unit: int|
                        100 <= unit < config.vni && args[0] == #[trigger] bridge_name(unit)
                }
                ||| {
                    &&& args.len() == 4 && args[1] == "inet"@ && args[3] == "delete"@
                    &&& is_new(config, events, args[0])
                    &&& described(config, events) matches Some(d)
                    &&& d.0 == args[0]
                    &&& args == all_removals(args[0], d.1)[cleared(config, events).len() as int]
                }
                ||| {
                    &&& assigns4(config, after(config, events).action())
                    &&& is_new(config, events, args[0])
                    &&& is_cleared(config, events, args[0])
                }
                ||| {
                    &&& assigns6(config, after(config, events).action())
                    &&& is_new(config, events, args[0])
                    &&& is_cleared(config, events, args[0])
                    &&& has_inet4(config, events, args[0])
                }
                ||| {
                    &&& args.len() == 2 && args[1] == "destroy"@
                    &&& destroyed(config, events).len() < created(config, events).len()
                    &&& args[0] == created(config, events)[created(config, events).len() - 1
                        - destroyed(config, events).len()]
                    &&& error_of(after(config, events)) is Some || has_tunnel(
                        after(config, events),
                    )
                }
            },
            SetupActionView::StartVmnet(mtu) => mtu == config.mtu && starts(config, events) == 0,
            SetupActionView::Sleep(ms) => ms == 100,
            SetupActionView::StopVmnet => {
                &&& starts(config, events) == 1
                &&& stops(config, events) == 0
                &&& error_of(after(config, events)) is Some
            },
            SetupActionView::Done => after(config, events).phase is Finished,
        },
        match after(config, events).phase {
            PhaseView::ListForReserve => after(config, events).action() == SetupActionView::Query(
                seq!["-a"@],
            ),
            PhaseView::ListBefore => after(config, events).action() == SetupActionView::Query(
                seq!["-a"@],
            ),
            PhaseView::Look { .. } => after(config, events).action() == SetupActionView::Query(
                seq!["-a"@],
            ),
            PhaseView::Show { bridge } => after(config, events).action() == SetupActionView::Query(
                seq![bridge],
            ),
            _ => !(after(config, events).action() is Query),
        },
{
    let s = after(config, events);
    lemma_after_wf(config, events);
    lemma_vmnet_stands(config, events);
    lemma_vmnet_balance(config, events);
    lemma_addresses_stand(config, events);
    lemma_assign_actions(config, events);
    match s.phase {
        PhaseView::Create { pending } => {
            lemma_reservation_stands(config, events);
            let existing = reserve_listing(config, events)->0;
            let c = created(config, events);
            law_missing_bridges(100, config.vni as int, existing);
            assert(needed(config, existing)[c.len() as int] == pending[0]);
        },
        PhaseView::Clear { bridge, commands } => {
            assert(commands[0] == delete_args(bridge, commands[0][2]));
            let c = cleared(config, events);
            assert((c + commands)[c.len() as int] == commands[0]);
        },
        PhaseView::Release { .. } => {
            lemma_bridges_balance(config, events);
            let reserved = s.progress.reserved;
            assert(created(config, events)[reserved.len() - 1] == reserved.last());
        },
        _ => {},
    }
}

/// When vmnet is started, all is as it has to be: the interfaces were listed
/// just before, nothing was destroyed yet, and for a network from unit 100 on all
/// bridges that are needed were created and the network's own did not exist.
pub proof fn law_start_is_prepared(config: TunnelConfigView, events: Seq<SetupEventView>)
    requires
        refused(config) is None,
        after(config, events).action() is StartVmnet,
    ensures
        known_before(config, events) is Some,
        destroyed(config, events).len() == 0,
        config.vni < 100 ==> created(config, events).len() == 0,
        config.vni >= 100 ==> {
            &&& reserve_listing(config, events) matches Some(existing)
            &&& !existing.contains(bridge_name(config.vni as int))
            &&& created(config, events) == missing_bridges(100, config.vni as int, existing)
        },
{
    lemma_after_wf(config, events);
    lemma_vmnet_stands(config, events);
    lemma_bridges_balance(config, events);
    lemma_reservation_stands(config, events);
}

/// The listing that tells which bridges were there is the last thing before the
/// start: only the answer to it makes vmnet due.
pub proof fn law_listing_precedes_start(
    config: TunnelConfigView,
    events: Seq<SetupEventView>,
    event: SetupEventView,
)
    requires
        refused(config) is None,
        !(after(config, events).action() is StartVmnet),
        after(config, events).next(event).action() is StartVmnet,
    ensures
        after(config, events).action() == SetupActionView::Query(seq!["-a"@]),
        event matches SetupEventView::Printed(output) && known_before(config, events.push(event))
            == Some(listed_bridges(output)),
{
    lemma_after_wf(config, events);
    assert(events.push(event).drop_last() =~= events);
}

/// How the new bridge is found: the first one in the list that was not there
/// before. If the network may use it, it is looked at next; if not, the
/// construction fails and says which one came. Where there is none, the list is
/// read again after a pause, or the construction gives up.
pub proof fn law_new_bridge_is_found(
    config: TunnelConfigView,
    events: Seq<SetupEventView>,
    output: Option<Seq<u8>>,
    i: int,
)
    requires
        refused(config) is None,
        after(config, events).phase is Look,
    ensures
        known_before(config, events) is Some,
        ({
            let list = listed_bridges(output);
            let known = known_before(config, events)->0;
            let s = after(config, events).next(SetupEventView::Printed(output));
            &&& (0 <= i < list.len() && !known.contains(list[i]) && forall|j: int|
                0 <= j < i ==> known.contains(#[trigger] list[j])) ==> if config.vni < 100
                || list[i] == bridge_name(config.vni as int) {
                s.action() == SetupActionView::Query(seq![list[i]])
            } else {
                error_of(s) == Some(
                    TunnelErrorView::UnexpectedBridge { created: list[i], vni: config.vni },
                )
            }
            &&& (forall|j: int| 0 <= j < list.len() ==> known.contains(#[trigger] list[j])) ==> {
                ||| s.action() is Sleep
                ||| error_of(s) == Some(TunnelErrorView::BridgeNotFound)
            }
        }),
{
    lemma_after_wf(config, events);
    lemma_vmnet_stands(config, events);
    let list = listed_bridges(output);
    let known = known_before(config, events)->0;
    law_first_new(list, known);
    if let Some(name) = first_new(list, known) {
        let w = choose|w: int|
            {
                &&& 0 <= w < list.len()
                &&& #[trigger] list[w] == name
                &&& forall|j: int| 0 <= j < w ==> known.contains(#[trigger] list[j])
            };
        if 0 <= i < list.len() && !known.contains(list[i]) && forall|j: int|
            0 <= j < i ==> known.contains(#[trigger] list[j]) {
            assert(i >= w);
            assert(!(w < i));
        }
    }
}

/// While a network's own bridge name is not forced any bridge will do, and from
/// unit 100 on only the network's own.
pub proof fn law_accepted_bridges(config: TunnelConfigView, bridge: Seq<char>)
    ensures
        config.accepts(bridge) <==> config.vni < 100 || bridge == bridge_name(config.vni as int),
{
}

} // verus!
