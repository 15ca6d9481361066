use darwin_vxlan::bridge::{
    bridge_name_for_vni, find_new_bridge, find_new_bridge_in, reserve_bridge_units,
    wait_for_new_bridge, BridgeReservations, WaitStep,
};
use darwin_vxlan::error::TunnelError;
use darwin_vxlan::ifconfig::list_bridge_interfaces;
use darwin_vxlan::packet::VXLAN_MAX_VNI;

#[test]
fn bridge_name_matches_vni() {
    assert_eq!(bridge_name_for_vni(199).unwrap(), "bridge199");
}

#[test]
fn bridge_name_accepts_flannel_vni() {
    assert_eq!(bridge_name_for_vni(1).unwrap(), "bridge1");
}

#[test]
fn bridge_name_accepts_maximum_vni() {
    assert_eq!(bridge_name_for_vni(VXLAN_MAX_VNI).unwrap(), "bridge16777215");
}

#[test]
fn bridge_name_rejects_vni_above_vxlan_range() {
    assert!(bridge_name_for_vni(VXLAN_MAX_VNI + 1).is_err());
}

#[test]
fn find_new_bridge_in_empty_current_returns_none() {
    assert!(find_new_bridge_in(&[], &[]).is_none());
}

#[test]
fn find_new_bridge_in_all_known_returns_none() {
    let before = vec!["bridge0".to_string(), "bridge1".to_string()];
    assert!(find_new_bridge_in(&before, &before).is_none());
}

#[test]
fn find_new_bridge_in_finds_new() {
    let before = vec!["bridge0".to_string()];
    let current = vec!["bridge0".to_string(), "bridge100".to_string()];
    assert_eq!(find_new_bridge_in(&current, &before).unwrap(), "bridge100");
}

#[test]
fn find_new_bridge_in_returns_first_new() {
    let before = vec![];
    let current = vec!["bridge0".to_string(), "bridge1".to_string()];
    assert_eq!(find_new_bridge_in(&current, &before).unwrap(), "bridge0");
}

#[test]
fn find_new_bridge_returns_none_for_stable_list() {
    let output = Some(b"bridge0: flags=1\nen0: flags=2\nbridge100: flags=3\n".to_vec());
    let current = list_bridge_interfaces(&output);
    assert_eq!(current, vec!["bridge0", "bridge100"]);
    assert!(find_new_bridge(&output, &current).is_none());
}

#[test]
fn find_new_bridge_reads_the_listing() {
    let output = Some(b"bridge0: flags=1\nbridge7: flags=3\n".to_vec());
    assert_eq!(find_new_bridge(&output, &names(&["bridge0"])).unwrap(), "bridge7");
    assert!(find_new_bridge(&None, &[]).is_none());
}

fn names(list: &[&str]) -> Vec<String> {
    list.iter().map(|s| s.to_string()).collect()
}

// reserve_bridge_units

#[test]
fn small_networks_need_no_reservation() {
    assert!(reserve_bridge_units(0, &[]).unwrap().is_empty());
    assert!(reserve_bridge_units(99, &names(&["bridge99"])).unwrap().is_empty());
}

#[test]
fn first_unit_needs_no_temporary_bridge() {
    assert!(reserve_bridge_units(100, &names(&["bridge0"])).unwrap().is_empty());
}

#[test]
fn free_lower_units_are_reserved_in_order() {
    assert_eq!(
        reserve_bridge_units(105, &names(&["bridge102", "bridge0", "bridge1030"])).unwrap(),
        vec!["bridge100", "bridge101", "bridge103", "bridge104"],
    );
}

#[test]
fn last_forced_network_reserves_all_units() {
    let reserved = reserve_bridge_units(4095, &[]).unwrap();
    assert_eq!(reserved.len(), 3995);
    assert_eq!(reserved[0], "bridge100");
    assert_eq!(reserved[3994], "bridge4094");
}

#[test]
fn networks_beyond_the_last_forced_one_are_refused() {
    let error = reserve_bridge_units(4096, &[]).unwrap_err();
    assert!(matches!(error, TunnelError::TooManyBridges(4096)));
}

#[test]
fn an_existing_bridge_is_not_used() {
    match reserve_bridge_units(137, &names(&["bridge137"])) {
        Err(TunnelError::BridgeExists(name)) => assert_eq!(name, "bridge137"),
        other => panic!("not refused: {:?}", other),
    }
}

#[test]
fn reservations_are_released_last_first() {
    let mut reservations = BridgeReservations::empty();
    assert!(reservations.release().is_none());
    reservations.add("bridge100".to_string());
    reservations.add("bridge101".to_string());
    assert_eq!(reservations.names, vec!["bridge100", "bridge101"]);
    assert_eq!(reservations.release().unwrap(), "bridge101");
    assert_eq!(reservations.release().unwrap(), "bridge100");
    assert!(reservations.release().is_none());
}

// wait_for_new_bridge

#[test]
fn waiting_ends_with_the_thirtieth_reading() {
    let known = names(&["bridge0"]);
    let same = Some(b"bridge0: flags=1\n".to_vec());
    assert!(matches!(wait_for_new_bridge(0, &same, &known), WaitStep::Retry));
    assert!(matches!(wait_for_new_bridge(28, &same, &known), WaitStep::Retry));
    assert!(matches!(wait_for_new_bridge(29, &same, &known), WaitStep::GiveUp));
    assert!(matches!(wait_for_new_bridge(u32::MAX, &same, &known), WaitStep::GiveUp));
}

#[test]
fn waiting_ends_when_the_bridge_is_there() {
    let known = names(&["bridge0"]);
    let more = Some(b"bridge0: flags=1\nbridge100: flags=1\n".to_vec());
    match wait_for_new_bridge(29, &more, &known) {
        WaitStep::Found(name) => assert_eq!(name, "bridge100"),
        other => panic!("not found: {:?}", other),
    }
}

#[test]
fn bridge_names_are_distinct() {
    let all: Vec<String> = (0..2000).map(|vni| bridge_name_for_vni(vni).unwrap()).collect();
    for (vni, name) in all.iter().enumerate() {
        assert_eq!(*name, format!("bridge{}", vni));
    }
}

#[test]
fn oversized_network_is_named_in_the_error() {
    let error = bridge_name_for_vni(0x0100_0000).unwrap_err();
    assert_eq!(error.message(), "VNI 16777216 is outside the 24-bit VXLAN range");
}
