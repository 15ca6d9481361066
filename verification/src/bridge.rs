//! Bridge names, the reservation of bridge units and the search for the
//! bridge that vmnet created.

use crate::error::{TunnelError, TunnelErrorView};
use crate::ifconfig::{list_bridge_interfaces, listed_bridges, output_view};
use crate::packet::VXLAN_MAX_VNI;
use crate::text::{decimal, decimal_text, holds, law_decimal_is_injective, strings_view};
use vstd::prelude::*;
use vstd::string::StringExecFns;

verus! {

/// vmnet's host-mode bridge allocator starts at bridge100 on macOS. Keeping
/// every lower unit occupied makes the next vmnet bridge deterministic.
pub const VMNET_BRIDGE_BASE: u32 = 100;

/// The largest identifier whose bridge name is forced. Creating thousands of
/// temporary bridge devices is a bad failure mode for a naming convenience.
pub const VMNET_MAX_FORCED_VNI: u32 = 4095;

/// How often the list of bridges is read while waiting for a new one.
pub const WAIT_ATTEMPTS: u32 = 30;

/// The pause between two readings of the list, in milliseconds.
pub const WAIT_PAUSE_MS: u64 = 100;

/// The name of bridge unit `unit`.
pub open spec fn bridge_name(unit: int) -> Seq<char> {
    "bridge"@ + decimal(unit)
}

/// The names of the units from `lo` up to, not including, `hi` that `existing`
/// does not hold.
pub open spec fn missing_bridges(lo: int, hi: int, existing: Seq<Seq<char>>) -> Seq<Seq<char>>
    decreases hi - lo,
{
    if lo >= hi {
        seq![]
    } else if existing.contains(bridge_name(hi - 1)) {
        missing_bridges(lo, hi - 1, existing)
    } else {
        missing_bridges(lo, hi - 1, existing).push(bridge_name(hi - 1))
    }
}

/// The bridges to create so that the next one that vmnet creates is the one
/// of `vni`, given those that exist.
pub open spec fn reservation(vni: u32, existing: Seq<Seq<char>>) -> Result<
    Seq<Seq<char>>,
    TunnelErrorView,
> {
    if vni < VMNET_BRIDGE_BASE {
        Ok(seq![])
    } else if vni > VMNET_MAX_FORCED_VNI {
        Err(TunnelErrorView::TooManyBridges(vni))
    } else if existing.contains(bridge_name(vni as int)) {
        Err(TunnelErrorView::BridgeExists(bridge_name(vni as int)))
    } else {
        Ok(missing_bridges(VMNET_BRIDGE_BASE as int, vni as int, existing))
    }
}

/// Whether `reservation` depends on the bridges that exist.
pub open spec fn is_forced(vni: u32) -> bool {
    VMNET_BRIDGE_BASE <= vni <= VMNET_MAX_FORCED_VNI
}

/// The first element of `current` that `known` does not hold.
pub open spec fn first_new(current: Seq<Seq<char>>, known: Seq<Seq<char>>) -> Option<Seq<char>>
    decreases current.len(),
{
    if current.len() == 0 {
        None
    } else if !known.contains(current[0]) {
        Some(current[0])
    } else {
        first_new(current.drop_first(), known)
    }
}

/// The name of bridge unit `unit`.
fn unit_name(unit: u32) -> (name: String)
    ensures
        name@ == bridge_name(unit as int),
{
    let mut name: String = "bridge".to_owned();
    name.append(decimal_text(unit).as_str());
    name
}

/// The name that the bridge of a network is to have.
pub fn bridge_name_for_vni(vni: u32) -> (r: Result<String, TunnelError>)
    ensures
        match r {
            Ok(name) => vni <= VXLAN_MAX_VNI && name@ == bridge_name(vni as int),
            Err(e) => vni > VXLAN_MAX_VNI && e@ == TunnelErrorView::VniOutOfRange(vni),
        },
{
    if vni > VXLAN_MAX_VNI {
        return Err(TunnelError::VniOutOfRange(vni));
    }
    Ok(unit_name(vni))
}

/// The temporary bridges to create before vmnet starts, in order.
///
/// vmnet does not take an interface name; its host mode allocates bridge units
/// from bridge100 on. For an identifier from there on every lower free unit is
/// occupied; below, the bridge that the allocator selects is taken.
pub fn reserve_bridge_units(vni: u32, existing: &[String]) -> (r: Result<
    Vec<String>,
    TunnelError,
>)
    ensures
        match r {
            Ok(names) => reservation(vni, strings_view(existing@)) == Ok::<
                Seq<Seq<char>>,
                TunnelErrorView,
            >(strings_view(names@)),
            Err(e) => reservation(vni, strings_view(existing@)) == Err::<
                Seq<Seq<char>>,
                TunnelErrorView,
            >(e@),
        },
{
    let mut names: Vec<String> = Vec::new();
    assert(strings_view(names@) =~= seq![]);
    if vni < VMNET_BRIDGE_BASE {
        return Ok(names);
    }
    if vni > VMNET_MAX_FORCED_VNI {
        return Err(TunnelError::TooManyBridges(vni));
    }
    let desired = unit_name(vni);
    if holds(existing, desired.as_str()) {
        return Err(TunnelError::BridgeExists(desired));
    }
    let mut unit: u32 = VMNET_BRIDGE_BASE;
    while unit < vni
        invariant
            VMNET_BRIDGE_BASE <= unit <= vni,
            strings_view(names@) == missing_bridges(
                VMNET_BRIDGE_BASE as int,
                unit as int,
                strings_view(existing@),
            ),
        decreases vni - unit,
    {
        let ghost sofar = strings_view(names@);
        let name = unit_name(unit);
        if !holds(existing, name.as_str()) {
            let ghost added = name@;
            names.push(name);
            assert(strings_view(names@) =~= sofar.push(added));
        }
        unit += 1;
    }
    Ok(names)
}

/// The temporary bridges that exist because the tunnel created them.
#[derive(Debug)]
pub struct BridgeReservations {
    /// Their names, in the order of creation.
    pub names: Vec<String>,
}

impl View for BridgeReservations {
    type V = Seq<Seq<char>>;

    open spec fn view(&self) -> Seq<Seq<char>> {
        strings_view(self.names@)
    }
}

impl BridgeReservations {
    /// No temporary bridge.
    pub fn empty() -> (r: Self)
        ensures
            r@ == Seq::<Seq<char>>::empty(),
    {
        let r = BridgeReservations { names: Vec::new() };
        assert(r@ =~= Seq::<Seq<char>>::empty());
        r
    }

    /// Records a bridge that was created.
    pub fn add(&mut self, name: String)
        ensures
            final(self)@ == old(self)@.push(name@),
    {
        self.names.push(name);
        assert(self@ =~= old(self)@.push(name@));
    }

    /// Gives up the bridge that was created last.
    pub fn release(&mut self) -> (name: Option<String>)
        ensures
            match name {
                Some(n) => {
                    &&& old(self)@.len() > 0
                    &&& n@ == old(self)@.last()
                    &&& final(self)@ == old(self)@.drop_last()
                },
                None => old(self)@.len() == 0 && final(self)@ == old(self)@,
            },
    {
        let name = self.names.pop();
        assert(name is Some ==> self@ =~= old(self)@.drop_last());
        name
    }
}

/// The first of `current` that is not in `before`.
pub fn find_new_bridge_in(current: &[String], before: &[String]) -> (r: Option<String>)
    ensures
        r is Some <==> first_new(strings_view(current@), strings_view(before@)) is Some,
        r matches Some(name) ==> first_new(strings_view(current@), strings_view(before@)) == Some(
            name@,
        ),
{
    let ghost all = strings_view(current@);
    let ghost known = strings_view(before@);
    let mut i: usize = 0;
    assert(all.skip(0) =~= all);
    while i < current.len()
        invariant
            i <= current@.len(),
            all == strings_view(current@),
            known == strings_view(before@),
            first_new(all.skip(i as int), known) == first_new(all, known),
        decreases current@.len() - i,
    {
        assert(all.skip(i as int)[0] == current@[i as int]@);
        if !holds(before, current[i].as_str()) {
            return Some(current[i].clone());
        }
        assert(all.skip(i as int).drop_first() =~= all.skip(i + 1));
        i += 1;
    }
    None
}

/// The first bridge in what `ifconfig -a` printed that is not in `before`.
pub fn find_new_bridge(output: &Option<Vec<u8>>, before: &[String]) -> (r: Option<String>)
    ensures
        r is Some <==> first_new(
            listed_bridges(output_view(*output)),
            strings_view(before@),
        ) is Some,
        r matches Some(name) ==> first_new(
            listed_bridges(output_view(*output)),
            strings_view(before@),
        ) == Some(name@),
{
    let current = list_bridge_interfaces(output);
    find_new_bridge_in(current.as_slice(), before)
}

/// What a reading of the list of bridges leads to.
#[derive(Debug)]
pub enum WaitStep {
    /// The new bridge is there.
    Found(String),
    /// Not yet: the list is to be read again after a pause.
    Retry,
    /// It did not appear in time.
    GiveUp,
}

/// Judges the reading number `attempt`, counted from zero, of the list of
/// bridges while waiting for the one that vmnet creates.
pub fn wait_for_new_bridge(
    attempt: u32,
    output: &Option<Vec<u8>>,
    before: &[String],
) -> (step: WaitStep)
    ensures
        match step {
            WaitStep::Found(name) => first_new(
                listed_bridges(output_view(*output)),
                strings_view(before@),
            ) == Some(name@),
            WaitStep::Retry => {
                &&& first_new(listed_bridges(output_view(*output)), strings_view(before@)) is None
                &&& attempt + 1 < WAIT_ATTEMPTS
            },
            WaitStep::GiveUp => {
                &&& first_new(listed_bridges(output_view(*output)), strings_view(before@)) is None
                &&& attempt + 1 >= WAIT_ATTEMPTS
            },
        },
{
    match find_new_bridge(output, before) {
        Some(name) => WaitStep::Found(name),
        None => if attempt < WAIT_ATTEMPTS - 1 {
            WaitStep::Retry
        } else {
            WaitStep::GiveUp
        },
    }
}

/// No two networks share a bridge name.
pub proof fn law_bridge_names_are_distinct(a: int, b: int)
    requires
        a >= 0,
        b >= 0,
        bridge_name(a) == bridge_name(b),
    ensures
        a == b,
{
    let n = "bridge"@.len() as int;
    assert(bridge_name(a).skip(n) =~= decimal(a));
    assert(bridge_name(b).skip(n) =~= decimal(b));
    law_decimal_is_injective(a, b);
}

/// The bridges to create are exactly the units of the range that do not exist
/// yet, each of them once.
pub proof fn law_missing_bridges(lo: int, hi: int, existing: Seq<Seq<char>>)
    requires
        0 <= lo <= hi,
    ensures
        forall|unit: int|
            lo <= unit < hi ==> (existing.contains(#[trigger] bridge_name(unit)) || missing_bridges(
                lo,
                hi,
                existing,
            ).contains(bridge_name(unit))),
        forall|i: int|
            #![trigger missing_bridges(lo, hi, existing)[i]]
            0 <= i < missing_bridges(lo, hi, existing).len() ==> {
                &&& !existing.contains(missing_bridges(lo, hi, existing)[i])
                &&& exists|unit: int|
                    lo <= unit < hi && missing_bridges(lo, hi, existing)[i] == #[trigger] bridge_name(
                        unit,
                    )
            },
        missing_bridges(lo, hi, existing).no_duplicates(),
        missing_bridges(lo, hi, existing).len() <= hi - lo,
    decreases hi - lo,
{
    if lo < hi {
        law_missing_bridges(lo, hi - 1, existing);
        let prior = missing_bridges(lo, hi - 1, existing);
        let all = missing_bridges(lo, hi, existing);
        let name = bridge_name(hi - 1);
        assert forall|unit: int| lo <= unit < hi implies (existing.contains(
            #[trigger] bridge_name(unit),
        ) || all.contains(bridge_name(unit))) by {
            if !existing.contains(bridge_name(unit)) {
                if unit == hi - 1 {
                    assert(all[all.len() - 1] == name);
                } else {
                    let k = choose|k: int| 0 <= k < prior.len() && prior[k] == bridge_name(unit);
                    assert(all[k] == bridge_name(unit));
                }
            }
        }
        assert forall|i: int| #![trigger all[i]] 0 <= i < all.len() implies {
            &&& !existing.contains(all[i])
            &&& exists|unit: int| lo <= unit < hi && all[i] == #[trigger] bridge_name(unit)
        } by {
            if i < prior.len() {
                assert(all[i] == prior[i]);
                let u = choose|unit: int|
                    lo <= unit < hi - 1 && prior[i] == #[trigger] bridge_name(unit);
                assert(all[i] == bridge_name(u));
            } else {
                assert(all[i] == name);
            }
        }
        if !existing.contains(name) {
            assert forall|i: int, j: int|
                0 <= i < all.len() && 0 <= j < all.len() && i != j implies all[i] != all[j] by {
                if all[i] == all[j] {
                    let k = if i < j {
                        i
                    } else {
                        j
                    };
                    let m = if i < j {
                        j
                    } else {
                        i
                    };
                    assert(all[k] == prior[k]);
                    let u = choose|unit: int|
                        lo <= unit < hi - 1 && prior[k] == #[trigger] bridge_name(unit);
                    if m == prior.len() {
                        law_bridge_names_are_distinct(u, hi - 1);
                    } else {
                        assert(all[m] == prior[m]);
                    }
                }
            }
        }
    }
}

/// The new bridge is in the list, was not known, and everything listed in
/// front of it was known; there is none exactly where all that is listed was
/// known.
pub proof fn law_first_new(current: Seq<Seq<char>>, known: Seq<Seq<char>>)
    ensures
        match first_new(current, known) {
            Some(name) => !known.contains(name) && exists|i: int|
                {
                    &&& 0 <= i < current.len()
                    &&& #[trigger] current[i] == name
                    &&& forall|j: int| 0 <= j < i ==> known.contains(#[trigger] current[j])
                },
            None => forall|j: int| 0 <= j < current.len() ==> known.contains(#[trigger] current[j]),
        },
    decreases current.len(),
{
    if current.len() > 0 {
        let rest = current.drop_first();
        law_first_new(rest, known);
        if known.contains(current[0]) {
            match first_new(rest, known) {
                Some(name) => {
                    let i = choose|i: int|
                        {
                            &&& 0 <= i < rest.len()
                            &&& #[trigger] rest[i] == name
                            &&& forall|j: int| 0 <= j < i ==> known.contains(#[trigger] rest[j])
                        };
                    assert(current[i + 1] == name);
                    assert forall|j: int| 0 <= j < i + 1 implies known.contains(
                        #[trigger] current[j],
                    ) by {
                        if j > 0 {
                            assert(current[j] == rest[j - 1]);
                        }
                    }
                },
                None => {
                    assert forall|j: int| 0 <= j < current.len() implies known.contains(
                        #[trigger] current[j],
                    ) by {
                        if j > 0 {
                            assert(current[j] == rest[j - 1]);
                        }
                    }
                },
            }
        } else {
            assert(current[0] == first_new(current, known)->0);
        }
    }
}

/// A list that has not changed holds no new bridge.
pub proof fn law_stable_list_has_no_new_bridge(list: Seq<Seq<char>>)
    ensures
        first_new(list, list) is None,
{
    law_first_new(list, list);
}

/// A bridge is called "bridge" and its number, without anything between them.
pub proof fn law_bridge_name_is_its_number(unit: int)
    ensures
        bridge_name(unit).len() == 6 + decimal(unit).len(),
        bridge_name(unit).take(6) == "bridge"@,
        bridge_name(unit).skip(6) == decimal(unit),
{
    reveal_strlit("bridge");
    assert(bridge_name(unit).take(6) =~= "bridge"@);
    assert(bridge_name(unit).skip(6) =~= decimal(unit));
}

/// The bridges to create are the units of the range from the lowest up, without
/// those that exist.
pub proof fn law_missing_bridges_are_in_order(lo: int, hi: int, existing: Seq<Seq<char>>)
    requires
        lo <= hi,
    ensures
        missing_bridges(lo, hi, existing) == Seq::new(
            (hi - lo) as nat,
            |i: int| bridge_name(lo + i),
        ).filter(|name: Seq<char>| !existing.contains(name)),
    decreases hi - lo,
{
    reveal(Seq::filter);
    let keep = |name: Seq<char>| !existing.contains(name);
    let all = Seq::new((hi - lo) as nat, |i: int| bridge_name(lo + i));
    if lo < hi {
        law_missing_bridges_are_in_order(lo, hi - 1, existing);
        let prior = Seq::new((hi - 1 - lo) as nat, |i: int| bridge_name(lo + i));
        assert(all.drop_last() =~= prior);
        assert(all.last() == bridge_name(hi - 1));
        assert(keep(all.last()) <==> !existing.contains(bridge_name(hi - 1)));
    }
    assert(missing_bridges(lo, hi, existing) =~= all.filter(keep));
}

/// When a network is refused and what it needs otherwise: below unit 100 nothing
/// is needed, from 4096 on it is refused, and between them it is refused exactly
/// where its own bridge exists and else needs the free units from 100 on below
/// its own.
pub proof fn law_reservation_follows_the_unit(vni: u32, existing: Seq<Seq<char>>)
    ensures
        match reservation(vni, existing) {
            Ok(names) => {
                &&& vni < 100 ==> names.len() == 0
                &&& vni >= 100 ==> {
                    &&& vni <= 4095
                    &&& !existing.contains("bridge"@ + decimal(vni as int))
                    &&& names == missing_bridges(100, vni as int, existing)
                }
            },
            Err(TunnelErrorView::TooManyBridges(refused)) => refused == vni && vni > 4095,
            Err(TunnelErrorView::BridgeExists(name)) => {
                &&& 100 <= vni <= 4095
                &&& name == "bridge"@ + decimal(vni as int)
                &&& existing.contains(name)
            },
            Err(_) => false,
        },
        is_forced(vni) <==> 100 <= vni <= 4095,
{
}

/// The wait for a bridge: thirty readings, a tenth of a second apart.
pub proof fn law_wait_limits()
    ensures
        WAIT_ATTEMPTS == 30,
        WAIT_PAUSE_MS == 100,
        VMNET_BRIDGE_BASE == 100,
        VMNET_MAX_FORCED_VNI == 4095,
{
}

/// The temporary bridges on record are the names that are held, in order.
pub proof fn law_view_keeps_reservations(reservations: BridgeReservations)
    ensures
        reservations@.len() == reservations.names@.len(),
        forall|i: int|
            0 <= i < reservations@.len() ==> #[trigger] reservations@[i]
                == reservations.names@[i]@,
{
}

} // verus!
