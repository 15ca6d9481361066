use darwin_vxlan::addr::{IpAddr, SocketAddr};
use darwin_vxlan::packet::build_vxlan_payload;
use darwin_vxlan::setup::{VmnetInfo, VxlanTunnel};
use darwin_vxlan::worker::{
    received_frame, ForwardEvent, ForwardStep, Forwarder, ReaderEvent, ReaderStep, ReceiveEvent,
    ReceiveStep, Teardown, TeardownStep,
};

fn endpoint(n: u32) -> SocketAddr {
    SocketAddr::new(IpAddr::V4(n), 4789)
}

fn running(vni: u32, remotes: Vec<SocketAddr>) -> VxlanTunnel {
    VxlanTunnel {
        vni,
        remote_addrs: remotes,
        vmnet: VmnetInfo {
            notify_fd: 3,
            shutdown_write_fd: 4,
            shutdown_read_fd: 5,
            max_packet_size: 1468,
        },
        bridge_name: "bridge100".to_string(),
    }
}

/// Lets the forwarder handle one frame and returns what it sends.
fn forwarded(forwarder: &Forwarder, frame: &[u8]) -> Vec<(SocketAddr, Vec<u8>)> {
    let mut sent = Vec::new();
    let mut step = forwarder.next(ForwardStep::Receive, ForwardEvent::Frame(Some(frame.to_vec())));
    while let Some(addr) = forwarder.destination(&step) {
        if let ForwardStep::Send { payload, .. } = &step {
            sent.push((addr, payload.clone()));
        }
        step = forwarder.next(step, ForwardEvent::Sent);
    }
    assert!(matches!(step, ForwardStep::Receive));
    sent
}

// Start

#[test]
fn workers_start_with_what_the_tunnel_is() {
    let workers = running(77, vec![endpoint(1), endpoint(2)]).run_until();
    assert_eq!(workers.reader, ReaderStep::Poll);
    assert_eq!(workers.buffer_size, 1468);
    assert_eq!(workers.forwarder.vni, 77);
    assert_eq!(workers.forwarder.remotes, vec![endpoint(1), endpoint(2)]);
    assert!(matches!(workers.forward, ForwardStep::Receive));
    assert_eq!(workers.vni, 77);
    assert!(matches!(workers.receive, ReceiveStep::Receive));
}

// Reader

fn polled(result: i32, shutdown_revents: i16) -> ReaderEvent {
    ReaderEvent::Polled { result, shutdown_revents, readable: 1 }
}

#[test]
fn reader_hands_on_every_frame() {
    let step = ReaderStep::Poll.next(polled(1, 0));
    assert_eq!(step, ReaderStep::Drain);
    let step = step.next(ReaderEvent::Drained(256));
    assert_eq!(step, ReaderStep::Drain);
    let step = step.next(ReaderEvent::Drained(-1));
    assert_eq!(step, ReaderStep::ReadFrame);
    let step = step.next(ReaderEvent::FrameRead(Some(vec![1, 2])));
    assert_eq!(step, ReaderStep::Forward(vec![1, 2]));
    let step = step.next(ReaderEvent::Forwarded(true));
    assert_eq!(step, ReaderStep::ReadFrame);
    assert_eq!(step.next(ReaderEvent::FrameRead(None)), ReaderStep::Poll);
}

#[test]
fn reader_stops_when_told() {
    assert_eq!(ReaderStep::Poll.next(polled(0, 0)), ReaderStep::Stop);
    assert_eq!(ReaderStep::Poll.next(polled(-1, 0)), ReaderStep::Stop);
    assert_eq!(ReaderStep::Poll.next(polled(2, 1)), ReaderStep::Stop);
    assert_eq!(ReaderStep::Poll.next(polled(1, 0x11)), ReaderStep::Stop);
    assert_eq!(ReaderStep::Poll.next(polled(1, 0x10)), ReaderStep::Drain);
    assert_eq!(
        ReaderStep::Forward(vec![1]).next(ReaderEvent::Forwarded(false)),
        ReaderStep::Stop,
    );
    assert_eq!(ReaderStep::Stop.next(polled(1, 0)), ReaderStep::Stop);
    assert_eq!(ReaderStep::Poll.next(ReaderEvent::Forwarded(false)), ReaderStep::Poll);
}

#[test]
fn received_frames_are_cut_to_length() {
    let buf = [1u8, 2, 3, 4];
    assert_eq!(received_frame(&buf, 3), Some(vec![1, 2, 3]));
    assert_eq!(received_frame(&buf, 4), Some(vec![1, 2, 3, 4]));
    assert_eq!(received_frame(&buf, 0), None);
    assert_eq!(received_frame(&buf, -1), None);
}

// Forwarder

#[test]
fn tunnel_run_until_fans_out_to_all_remote_peers() {
    let workers = running(77, vec![endpoint(1), endpoint(2)]).run_until();
    let expected = build_vxlan_payload(&[0xAAu8; 14], 77);
    let sent = forwarded(&workers.forwarder, &[0xAAu8; 14]);
    assert_eq!(sent, vec![(endpoint(1), expected.clone()), (endpoint(2), expected)]);
}

#[test]
fn forwarder_without_remotes_sends_nothing() {
    let forwarder = Forwarder { vni: 1, remotes: Vec::new() };
    assert!(forwarded(&forwarder, &[1, 2, 3]).is_empty());
}

#[test]
fn forwarder_ends_at_shutdown_or_with_the_reader() {
    let forwarder = Forwarder { vni: 1, remotes: vec![endpoint(1)] };
    let told = forwarder.next(ForwardStep::Receive, ForwardEvent::Shutdown);
    assert!(matches!(told, ForwardStep::Stop));
    let alone = forwarder.next(ForwardStep::Receive, ForwardEvent::Frame(None));
    assert!(matches!(alone, ForwardStep::Stop));
    let ended = forwarder.next(told, ForwardEvent::Frame(Some(vec![1])));
    assert!(matches!(ended, ForwardStep::Stop));
    assert!(forwarder.destination(&ended).is_none());
}

#[test]
fn forwarder_sends_the_frame_in_its_hands_before_it_ends() {
    let forwarder = Forwarder { vni: 1, remotes: vec![endpoint(1), endpoint(2)] };
    let step = forwarder.next(ForwardStep::Receive, ForwardEvent::Frame(Some(vec![9])));
    let step = forwarder.next(step, ForwardEvent::Shutdown);
    assert_eq!(forwarder.destination(&step), Some(endpoint(1)));
}

// Receiver

#[test]
fn tunnel_run_until_udp_recv_task_processes_packet() {
    let vni = 77u32;
    let vxlan_pkt = build_vxlan_payload(&[0xEFu8; 14], vni);
    match ReceiveStep::Receive.next(vni, ReceiveEvent::Datagram(&vxlan_pkt)) {
        ReceiveStep::Write(frame) => assert_eq!(frame, vec![0xEFu8; 14]),
        other => panic!("not written: {:?}", other),
    }
}

#[test]
fn receiver_drops_what_is_not_of_its_network() {
    let other = build_vxlan_payload(&[1], 78);
    let step = ReceiveStep::Receive.next(77, ReceiveEvent::Datagram(&other));
    assert!(matches!(step, ReceiveStep::Receive));
    let step = ReceiveStep::Receive.next(77, ReceiveEvent::Datagram(&other[..7]));
    assert!(matches!(step, ReceiveStep::Receive));
}

#[test]
fn receiver_pauses_after_an_error() {
    let step = ReceiveStep::Receive.next(77, ReceiveEvent::Failed);
    assert!(matches!(step, ReceiveStep::Pause(100)));
    assert!(matches!(step.next(77, ReceiveEvent::Slept), ReceiveStep::Receive));
    let step = ReceiveStep::Receive.next(77, ReceiveEvent::Failed);
    assert!(matches!(step.next(77, ReceiveEvent::Shutdown), ReceiveStep::Stop));
}

#[test]
fn receiver_ends_at_shutdown() {
    let step = ReceiveStep::Receive.next(77, ReceiveEvent::Shutdown);
    assert!(matches!(step, ReceiveStep::Stop));
    let pkt = build_vxlan_payload(&[1], 77);
    assert!(matches!(step.next(77, ReceiveEvent::Datagram(&pkt)), ReceiveStep::Stop));
}

#[test]
fn a_frame_goes_through_two_tunnels_unchanged() {
    let frame: Vec<u8> = (0u8..=200).collect();
    let sender = running(4095, vec![endpoint(1)]).run_until();
    let (_, payload) = forwarded(&sender.forwarder, &frame).remove(0);
    let receiver = running(4095, vec![endpoint(2)]).run_until();
    match receiver.receive.next(receiver.vni, ReceiveEvent::Datagram(&payload)) {
        ReceiveStep::Write(written) => assert_eq!(written, frame),
        other => panic!("not written: {:?}", other),
    }
}

// Teardown

fn steps(result: Result<(), String>) -> (Vec<TeardownStep>, Result<(), String>) {
    let mut seen = Vec::new();
    let mut teardown = Teardown::begin(result);
    while teardown.step != TeardownStep::Done {
        seen.push(teardown.step);
        teardown = teardown.next();
    }
    (seen, teardown.result)
}

#[test]
fn tunnel_run_until_starts_and_shuts_down() {
    let (seen, result) = steps(Ok(()));
    assert_eq!(seen, vec![
        TeardownStep::Notify,
        TeardownStep::WakeReader,
        TeardownStep::JoinReader,
        TeardownStep::JoinForwarder,
        TeardownStep::JoinReceiver,
    ]);
    assert!(result.is_ok());
}

#[test]
fn tunnel_run_until_cleans_up_when_shutdown_fails() {
    let (seen, result) = steps(Err("test shutdown failure".to_string()));
    assert_eq!(seen.len(), 5);
    assert!(result.is_err());
    assert_eq!(result.unwrap_err(), "test shutdown failure");
}
