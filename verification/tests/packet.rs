use darwin_vxlan::packet::{
    build_vxlan_payload, unwrap_vxlan, vxlan_to_vmnet, Injection, VXLAN_HEADER_SIZE, VXLAN_MAX_VNI,
};
use darwin_vxlan::worker::{ReceiveEvent, ReceiveStep};

// build_vxlan_payload

#[test]
fn vxlan_header_ibit_set() {
    assert_eq!(build_vxlan_payload(&[], 0)[0], 0x08);
}

#[test]
fn vxlan_header_reserved_bytes_zero() {
    let pkt = build_vxlan_payload(&[], 0);
    assert_eq!(&pkt[1..4], &[0x00; 3]);
    assert_eq!(pkt[7], 0x00);
}

#[test]
fn vxlan_header_total_length() {
    let pkt = build_vxlan_payload(&[0xAAu8; 60], 1);
    assert_eq!(pkt.len(), VXLAN_HEADER_SIZE + 60);
}

#[test]
fn vxlan_vni_encoding_typical() {
    let pkt = build_vxlan_payload(&[], 0x00_10_20_30);
    assert_eq!(&pkt[4..7], &[0x10, 0x20, 0x30]);
}

#[test]
fn vxlan_vni_zero() {
    assert_eq!(&build_vxlan_payload(&[], 0)[4..7], &[0x00; 3]);
}

#[test]
fn vxlan_vni_max() {
    assert_eq!(&build_vxlan_payload(&[], 0xFF_FF_FF)[4..7], &[0xFF; 3]);
}

#[test]
fn vxlan_payload_appended() {
    let eth = [0x01u8, 0x02, 0x03, 0x04];
    let pkt = build_vxlan_payload(&eth, 42);
    assert_eq!(&pkt[VXLAN_HEADER_SIZE..], eth.as_ref());
}

#[test]
fn vxlan_empty_eth_frame() {
    assert_eq!(build_vxlan_payload(&[], 1).len(), VXLAN_HEADER_SIZE);
}

// unwrap_vxlan

fn make_frame(vni: u32, payload: &[u8]) -> Vec<u8> {
    build_vxlan_payload(payload, vni)
}

#[test]
fn unwrap_valid_returns_inner_frame() {
    let eth = [0xDE, 0xAD, 0xBE, 0xEF];
    assert_eq!(unwrap_vxlan(&make_frame(100, &eth), 100).unwrap(), eth.as_ref());
}

#[test]
fn unwrap_minimum_size_returns_empty_slice() {
    assert!(unwrap_vxlan(&make_frame(1, &[]), 1).unwrap().is_empty());
}

#[test]
fn unwrap_too_short_returns_none() {
    assert!(unwrap_vxlan(&vec![0u8; VXLAN_HEADER_SIZE - 1], 0).is_none());
}

#[test]
fn unwrap_empty_returns_none() {
    assert!(unwrap_vxlan(&[], 0).is_none());
}

#[test]
fn unwrap_vni_mismatch_returns_none() {
    assert!(unwrap_vxlan(&make_frame(10, &[0xAA; 14]), 99).is_none());
}

#[test]
fn unwrap_vni_zero_matches() {
    assert!(unwrap_vxlan(&make_frame(0, &[0x11; 14]), 0).is_some());
}

#[test]
fn unwrap_vni_max_matches() {
    assert!(unwrap_vxlan(&make_frame(0xFF_FF_FF, &[0x22; 14]), 0xFF_FF_FF).is_some());
}

// Round-trip

#[test]
fn roundtrip_preserves_payload() {
    let eth: Vec<u8> = (0u8..=63).collect();
    assert_eq!(unwrap_vxlan(&make_frame(0xABCDEF, &eth), 0xABCDEF).unwrap(), eth.as_slice());
}

#[test]
fn roundtrip_wrong_vni_returns_none() {
    assert!(unwrap_vxlan(&make_frame(1, &[0xFF; 14]), 2).is_none());
}

// vxlan_to_vmnet

#[test]
fn vxlan_to_vmnet_short_frame_returns_early() {
    assert!(matches!(vxlan_to_vmnet(&[0u8; 4], 1), Injection::TooShort { len: 4 }));
}

#[test]
fn vxlan_to_vmnet_vni_mismatch_returns_early() {
    let frame = make_frame(10, &[0xAA; 14]);
    assert!(matches!(vxlan_to_vmnet(&frame, 99), Injection::VniMismatch { received: 10 }));
}

#[test]
fn vxlan_to_vmnet_valid_frame_calls_write() {
    let frame = make_frame(42, &[0xABu8; 14]);
    match vxlan_to_vmnet(&frame, 42) {
        Injection::Write(eth) => assert_eq!(eth, &[0xABu8; 14]),
        other => panic!("not written: {:?}", other),
    }
}

#[test]
fn vxlan_to_vmnet_write_fail_logs_warning() {
    // A failed write changes nothing: the receiver waits for the next datagram.
    let frame = make_frame(99, &[0xCDu8; 14]);
    let step = ReceiveStep::Receive.next(99, ReceiveEvent::Datagram(&frame));
    match &step {
        ReceiveStep::Write(eth) => assert_eq!(eth, &vec![0xCDu8; 14]),
        other => panic!("not written: {:?}", other),
    }
    assert!(matches!(step.next(99, ReceiveEvent::Written), ReceiveStep::Receive));
}

// Exact packets and the laws of the framing

#[test]
fn whole_packet_is_exact() {
    assert_eq!(
        build_vxlan_payload(&[1, 2, 3], 0xABCDEF),
        vec![0x08, 0, 0, 0, 0xAB, 0xCD, 0xEF, 0, 1, 2, 3],
    );
}

#[test]
fn identifier_beyond_24_bits_is_cut_and_matches_nothing() {
    let pkt = build_vxlan_payload(&[7], 0x0112_3456);
    assert_eq!(&pkt[4..7], &[0x12, 0x34, 0x56]);
    assert!(unwrap_vxlan(&pkt, 0x0112_3456).is_none());
    assert_eq!(unwrap_vxlan(&pkt, 0x12_3456).unwrap(), &[7]);
}

#[test]
fn reserved_bytes_of_a_received_header_are_not_checked() {
    let pkt = [0xFFu8, 1, 2, 3, 0, 0, 5, 0xEE, 0x42];
    assert_eq!(unwrap_vxlan(&pkt, 5).unwrap(), &[0x42]);
}

#[test]
fn every_network_takes_only_its_own_packets() {
    let vnis = [0u32, 1, 255, 256, 65_535, 65_536, VXLAN_MAX_VNI];
    for sender in vnis {
        let pkt = build_vxlan_payload(&[1, 2], sender);
        for receiver in vnis {
            assert_eq!(unwrap_vxlan(&pkt, receiver).is_some(), sender == receiver);
        }
    }
}
