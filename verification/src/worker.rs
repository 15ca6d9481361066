//! The workers of a running tunnel.
//!
//! Three workers forward packets: the reader takes Ethernet frames from
//! vmnet, the forwarder sends each of them to every remote endpoint, and the
//! receiver takes datagrams from the UDP socket and gives their frames to
//! vmnet. Each is a state machine whose state is the step that is due.

use crate::addr::SocketAddr;
use crate::packet::{
    build_vxlan_payload, inner_frame, law_header_carries_vni, law_roundtrip_preserves_payload,
    packet_vni, vxlan_packet, vxlan_to_vmnet, Injection, VXLAN_MAX_VNI,
};
use crate::setup::{copied, VxlanTunnel};
use vstd::prelude::*;
use vstd::slice::{slice_subrange, slice_to_vec};

verus! {

/// The pause after a failed receive, in milliseconds.
pub const RECEIVE_PAUSE_MS: u64 = 100;

/// What the reader is to do next.
#[derive(Debug, PartialEq, Eq)]
pub enum ReaderStep {
    /// Wait until a packet or the shutdown notice is there.
    Poll,
    /// Read from the notification pipe what there is.
    Drain,
    /// Read one frame from vmnet.
    ReadFrame,
    /// Hand a frame to the forwarder.
    Forward(Vec<u8>),
    /// End.
    Stop,
}

/// What came of the reader's step.
#[derive(Debug)]
pub enum ReaderEvent {
    /// The wait is over.
    Polled {
        /// What `poll` returned.
        result: i32,
        /// The events seen on the shutdown pipe.
        shutdown_revents: i16,
        /// The flag that stands for readable.
        readable: i16,
    },
    /// What `read` on the notification pipe returned.
    Drained(isize),
    /// A frame, or nothing where vmnet has none.
    FrameRead(Option<Vec<u8>>),
    /// Whether the forwarder took the frame.
    Forwarded(bool),
}

/// The reader's next step. An event that does not answer its step changes
/// nothing.
pub open spec fn reader_next(step: ReaderStep, event: ReaderEvent) -> ReaderStep {
    match (step, event) {
        (
            ReaderStep::Poll,
            ReaderEvent::Polled { result, shutdown_revents, readable },
        ) => if result <= 0 || shutdown_revents & readable != 0 {
            ReaderStep::Stop
        } else {
            ReaderStep::Drain
        },
        (ReaderStep::Drain, ReaderEvent::Drained(n)) => if n <= 0 {
            ReaderStep::ReadFrame
        } else {
            ReaderStep::Drain
        },
        (ReaderStep::ReadFrame, ReaderEvent::FrameRead(frame)) => match frame {
            Some(f) => ReaderStep::Forward(f),
            None => ReaderStep::Poll,
        },
        (ReaderStep::Forward(_), ReaderEvent::Forwarded(taken)) => if taken {
            ReaderStep::ReadFrame
        } else {
            ReaderStep::Stop
        },
        _ => step,
    }
}

impl ReaderStep {
    /// The next step.
    pub fn next(self, event: ReaderEvent) -> (r: Self)
        ensures
            r == reader_next(self, event),
    {
        match (self, event) {
            (
                ReaderStep::Poll,
                ReaderEvent::Polled { result, shutdown_revents, readable },
            ) => if result <= 0 || shutdown_revents & readable != 0 {
                ReaderStep::Stop
            } else {
                ReaderStep::Drain
            },
            (ReaderStep::Drain, ReaderEvent::Drained(n)) => if n <= 0 {
                ReaderStep::ReadFrame
            } else {
                ReaderStep::Drain
            },
            (ReaderStep::ReadFrame, ReaderEvent::FrameRead(frame)) => match frame {
                Some(f) => ReaderStep::Forward(f),
                None => ReaderStep::Poll,
            },
            (ReaderStep::Forward(_), ReaderEvent::Forwarded(taken)) => if taken {
                ReaderStep::ReadFrame
            } else {
                ReaderStep::Stop
            },
            (step, _) => step,
        }
    }
}

/// The frame that a read from vmnet left in `buf`, where `n` is what the read
/// returned: its length, or nothing above zero where there was none.
pub fn received_frame(buf: &[u8], n: i32) -> (frame: Option<Vec<u8>>)
    requires
        n <= buf@.len(),
    ensures
        frame is Some <==> n > 0,
        frame matches Some(f) ==> f@ == buf@.take(n as int),
{
    if n <= 0 {
        return None;
    }
    Some(slice_to_vec(slice_subrange(buf, 0, n as usize)))
}

/// The worker that sends frames to the remote endpoints.
#[derive(Debug)]
pub struct Forwarder {
    /// The network.
    pub vni: u32,
    /// The remote endpoints.
    pub remotes: Vec<SocketAddr>,
}

/// What the forwarder is to do next.
#[derive(Debug)]
pub enum ForwardStep {
    /// Wait for a frame or the shutdown notice.
    Receive,
    /// Send `payload` to the remote endpoint number `next`.
    Send {
        /// The datagram.
        payload: Vec<u8>,
        /// The number of the endpoint.
        next: usize,
    },
    /// End.
    Stop,
}

/// `ForwardStep` with its datagram as a sequence.
pub enum ForwardStepView {
    Receive,
    Send { payload: Seq<u8>, next: int },
    Stop,
}

impl View for ForwardStep {
    type V = ForwardStepView;

    open spec fn view(&self) -> ForwardStepView {
        match *self {
            ForwardStep::Receive => ForwardStepView::Receive,
            ForwardStep::Send { payload, next } => ForwardStepView::Send {
                payload: payload@,
                next: next as int,
            },
            ForwardStep::Stop => ForwardStepView::Stop,
        }
    }
}

/// What came of the forwarder's step.
#[derive(Debug)]
pub enum ForwardEvent {
    /// The tunnel is shutting down.
    Shutdown,
    /// A frame, or nothing where the reader has ended.
    Frame(Option<Vec<u8>>),
    /// The datagram was sent, or could not be.
    Sent,
}

/// `ForwardEvent` with its frame as a sequence.
pub enum ForwardEventView {
    Shutdown,
    Frame(Option<Seq<u8>>),
    Sent,
}

impl View for ForwardEvent {
    type V = ForwardEventView;

    open spec fn view(&self) -> ForwardEventView {
        match *self {
            ForwardEvent::Shutdown => ForwardEventView::Shutdown,
            ForwardEvent::Frame(Some(frame)) => ForwardEventView::Frame(Some(frame@)),
            ForwardEvent::Frame(None) => ForwardEventView::Frame(None),
            ForwardEvent::Sent => ForwardEventView::Sent,
        }
    }
}

/// Whether the endpoint that `step` names is one of `n`.
pub open spec fn forward_wf(n: int, step: ForwardStepView) -> bool {
    step matches ForwardStepView::Send { next, .. } ==> 0 <= next < n
}

/// The next step of the forwarder of network `vni` with `n` remote endpoints.
/// An event that does not answer its step changes nothing.
pub open spec fn forward_next(
    vni: u32,
    n: int,
    step: ForwardStepView,
    event: ForwardEventView,
) -> ForwardStepView {
    match (step, event) {
        (ForwardStepView::Receive, ForwardEventView::Shutdown) => ForwardStepView::Stop,
        (ForwardStepView::Receive, ForwardEventView::Frame(None)) => ForwardStepView::Stop,
        (ForwardStepView::Receive, ForwardEventView::Frame(Some(frame))) => if n == 0 {
            ForwardStepView::Receive
        } else {
            ForwardStepView::Send { payload: vxlan_packet(frame, vni), next: 0 }
        },
        (ForwardStepView::Send { payload, next }, ForwardEventView::Sent) => if next + 1 < n {
            ForwardStepView::Send { payload, next: next + 1 }
        } else {
            ForwardStepView::Receive
        },
        _ => step,
    }
}

impl Forwarder {
    /// The step behind `step`, when `event` came of it.
    pub fn next(&self, step: ForwardStep, event: ForwardEvent) -> (r: ForwardStep)
        requires
            forward_wf(self.remotes@.len() as int, step@),
        ensures
            r@ == forward_next(self.vni, self.remotes@.len() as int, step@, event@),
            forward_wf(self.remotes@.len() as int, r@),
    {
        match (step, event) {
            (ForwardStep::Receive, ForwardEvent::Shutdown) => ForwardStep::Stop,
            (ForwardStep::Receive, ForwardEvent::Frame(None)) => ForwardStep::Stop,
            (ForwardStep::Receive, ForwardEvent::Frame(Some(frame))) => {
                if self.remotes.len() == 0 {
                    ForwardStep::Receive
                } else {
                    let payload = build_vxlan_payload(frame.as_slice(), self.vni);
                    ForwardStep::Send { payload, next: 0 }
                }
            },
            (ForwardStep::Send { payload, next }, ForwardEvent::Sent) => {
                let n = self.remotes.len();
                if next + 1 < n {
                    ForwardStep::Send { payload, next: next + 1 }
                } else {
                    ForwardStep::Receive
                }
            },
            (step, _) => step,
        }
    }

    /// The remote endpoint that `step` sends to.
    pub fn destination(&self, step: &ForwardStep) -> (r: Option<SocketAddr>)
        requires
            forward_wf(self.remotes@.len() as int, step@),
        ensures
            match step@ {
                ForwardStepView::Send { next, .. } => r == Some(self.remotes@[next]),
                _ => r is None,
            },
    {
        match step {
            ForwardStep::Send { next, .. } => Some(self.remotes[*next]),
            _ => None,
        }
    }
}

/// What the receiver is to do next.
#[derive(Debug)]
pub enum ReceiveStep {
    /// Wait for a datagram or the shutdown notice.
    Receive,
    /// Write a frame to vmnet.
    Write(Vec<u8>),
    /// Wait for so many milliseconds or the shutdown notice.
    Pause(u64),
    /// End.
    Stop,
}

/// `ReceiveStep` with its frame as a sequence.
pub enum ReceiveStepView {
    Receive,
    Write(Seq<u8>),
    Pause(u64),
    Stop,
}

impl View for ReceiveStep {
    type V = ReceiveStepView;

    open spec fn view(&self) -> ReceiveStepView {
        match *self {
            ReceiveStep::Receive => ReceiveStepView::Receive,
            ReceiveStep::Write(frame) => ReceiveStepView::Write(frame@),
            ReceiveStep::Pause(ms) => ReceiveStepView::Pause(ms),
            ReceiveStep::Stop => ReceiveStepView::Stop,
        }
    }
}

/// What came of the receiver's step.
#[derive(Debug, Clone, Copy)]
pub enum ReceiveEvent<'a> {
    /// The tunnel is shutting down.
    Shutdown,
    /// A datagram.
    Datagram(&'a [u8]),
    /// The socket reported an error.
    Failed,
    /// The frame was written, or could not be.
    Written,
    /// The pause is over.
    Slept,
}

/// `ReceiveEvent` with its datagram as a sequence.
pub enum ReceiveEventView {
    Shutdown,
    Datagram(Seq<u8>),
    Failed,
    Written,
    Slept,
}

impl<'a> View for ReceiveEvent<'a> {
    type V = ReceiveEventView;

    open spec fn view(&self) -> ReceiveEventView {
        match *self {
            ReceiveEvent::Shutdown => ReceiveEventView::Shutdown,
            ReceiveEvent::Datagram(datagram) => ReceiveEventView::Datagram(datagram@),
            ReceiveEvent::Failed => ReceiveEventView::Failed,
            ReceiveEvent::Written => ReceiveEventView::Written,
            ReceiveEvent::Slept => ReceiveEventView::Slept,
        }
    }
}

/// The next step of the receiver of network `vni`. An event that does not
/// answer its step changes nothing.
pub open spec fn receive_next(
    vni: u32,
    step: ReceiveStepView,
    event: ReceiveEventView,
) -> ReceiveStepView {
    match (step, event) {
        (ReceiveStepView::Receive, ReceiveEventView::Shutdown) => ReceiveStepView::Stop,
        (ReceiveStepView::Receive, ReceiveEventView::Datagram(datagram)) => match inner_frame(
            datagram,
            vni,
        ) {
            Some(frame) => ReceiveStepView::Write(frame),
            None => ReceiveStepView::Receive,
        },
        (ReceiveStepView::Receive, ReceiveEventView::Failed) => ReceiveStepView::Pause(
            RECEIVE_PAUSE_MS,
        ),
        (ReceiveStepView::Write(_), ReceiveEventView::Written) => ReceiveStepView::Receive,
        (ReceiveStepView::Pause(_), ReceiveEventView::Shutdown) => ReceiveStepView::Stop,
        (ReceiveStepView::Pause(_), ReceiveEventView::Slept) => ReceiveStepView::Receive,
        _ => step,
    }
}

impl ReceiveStep {
    /// The next step of the receiver of network `vni`.
    pub fn next(self, vni: u32, event: ReceiveEvent<'_>) -> (r: Self)
        ensures
            r@ == receive_next(vni, self@, event@),
    {
        match (self, event) {
            (ReceiveStep::Receive, ReceiveEvent::Shutdown) => ReceiveStep::Stop,
            (ReceiveStep::Receive, ReceiveEvent::Datagram(datagram)) => match vxlan_to_vmnet(
                datagram,
                vni,
            ) {
                Injection::Write(frame) => ReceiveStep::Write(slice_to_vec(frame)),
                Injection::TooShort { .. } => ReceiveStep::Receive,
                Injection::VniMismatch { .. } => ReceiveStep::Receive,
            },
            (ReceiveStep::Receive, ReceiveEvent::Failed) => ReceiveStep::Pause(RECEIVE_PAUSE_MS),
            (ReceiveStep::Write(_), ReceiveEvent::Written) => ReceiveStep::Receive,
            (ReceiveStep::Pause(_), ReceiveEvent::Shutdown) => ReceiveStep::Stop,
            (ReceiveStep::Pause(_), ReceiveEvent::Slept) => ReceiveStep::Receive,
            (step, _) => step,
        }
    }
}

/// What is to be done when the tunnel is asked to end, and the answer that is
/// given when all is done.
#[derive(Debug)]
pub struct Teardown {
    /// What is to be done next.
    pub step: TeardownStep,
    /// What the wait for the end of the tunnel came to.
    pub result: Result<(), String>,
}

/// A step of the end of a tunnel.
#[derive(Debug, Clone, Copy, PartialEq, Eq, Structural)]
pub enum TeardownStep {
    /// Tell the forwarder and the receiver to end.
    Notify,
    /// Write to the shutdown pipe, so that the reader ends.
    WakeReader,
    /// Wait for the end of the reader.
    JoinReader,
    /// Wait for the end of the forwarder.
    JoinForwarder,
    /// Wait for the end of the receiver.
    JoinReceiver,
    /// All workers have ended: vmnet may be stopped.
    Done,
}

/// The step behind `step`.
pub open spec fn teardown_next(step: TeardownStep) -> TeardownStep {
    match step {
        TeardownStep::Notify => TeardownStep::WakeReader,
        TeardownStep::WakeReader => TeardownStep::JoinReader,
        TeardownStep::JoinReader => TeardownStep::JoinForwarder,
        TeardownStep::JoinForwarder => TeardownStep::JoinReceiver,
        TeardownStep::JoinReceiver => TeardownStep::Done,
        TeardownStep::Done => TeardownStep::Done,
    }
}

impl Teardown {
    /// The end of a tunnel, where the wait for it came to `result`.
    pub fn begin(result: Result<(), String>) -> (r: Self)
        ensures
            r == (Teardown { step: TeardownStep::Notify, result }),
    {
        Teardown { step: TeardownStep::Notify, result }
    }

    /// The next step, when this one is done.
    pub fn next(self) -> (r: Self)
        ensures
            r == (Teardown { step: teardown_next(self.step), result: self.result }),
    {
        let step = match self.step {
            TeardownStep::Notify => TeardownStep::WakeReader,
            TeardownStep::WakeReader => TeardownStep::JoinReader,
            TeardownStep::JoinReader => TeardownStep::JoinForwarder,
            TeardownStep::JoinForwarder => TeardownStep::JoinReceiver,
            TeardownStep::JoinReceiver => TeardownStep::Done,
            TeardownStep::Done => TeardownStep::Done,
        };
        Teardown { step, result: self.result }
    }
}

/// The workers of a tunnel before their first step.
#[derive(Debug)]
pub struct Workers {
    /// The reader's first step.
    pub reader: ReaderStep,
    /// The size of the reader's buffer.
    pub buffer_size: usize,
    /// The forwarder.
    pub forwarder: Forwarder,
    /// Its first step.
    pub forward: ForwardStep,
    /// The network whose datagrams the receiver takes.
    pub vni: u32,
    /// The receiver's first step.
    pub receive: ReceiveStep,
}

impl VxlanTunnel {
    /// The workers that run the tunnel.
    pub fn run_until(&self) -> (w: Workers)
        ensures
            w.reader == ReaderStep::Poll,
            w.buffer_size == self.vmnet.max_packet_size,
            w.forwarder.vni == self.vni,
            w.forwarder.remotes@ == self.remote_addrs@,
            w.forward@ == ForwardStepView::Receive,
            w.vni == self.vni,
            w.receive@ == ReceiveStepView::Receive,
    {
        Workers {
            reader: ReaderStep::Poll,
            buffer_size: self.vmnet.max_packet_size,
            forwarder: Forwarder { vni: self.vni, remotes: copied(&self.remote_addrs) },
            forward: ForwardStep::Receive,
            vni: self.vni,
            receive: ReceiveStep::Receive,
        }
    }
}

// What the workers do over a whole run.

/// The reader's step after `events`.
pub open spec fn reader_after(events: Seq<ReaderEvent>) -> ReaderStep
    decreases events.len(),
{
    if events.len() == 0 {
        ReaderStep::Poll
    } else {
        reader_next(reader_after(events.drop_last()), events.last())
    }
}

/// The frames that the reader took from vmnet in the course of `events`.
pub open spec fn frames_read(events: Seq<ReaderEvent>) -> Seq<Vec<u8>>
    decreases events.len(),
{
    if events.len() == 0 {
        seq![]
    } else {
        let prior = frames_read(events.drop_last());
        match (reader_after(events.drop_last()), events.last()) {
            (ReaderStep::ReadFrame, ReaderEvent::FrameRead(Some(frame))) => prior.push(frame),
            _ => prior,
        }
    }
}

/// The frames that the reader offered to the forwarder in the course of
/// `events`.
pub open spec fn frames_offered(events: Seq<ReaderEvent>) -> Seq<Vec<u8>>
    decreases events.len(),
{
    if events.len() == 0 {
        seq![]
    } else {
        let prior = frames_offered(events.drop_last());
        match (reader_after(events.drop_last()), events.last()) {
            (ReaderStep::Forward(frame), ReaderEvent::Forwarded(_)) => prior.push(frame),
            _ => prior,
        }
    }
}

/// The reader hands every frame that it takes from vmnet to the forwarder,
/// once and in order; at most the last one is still in its hands.
pub proof fn law_reader_loses_no_frame(events: Seq<ReaderEvent>)
    ensures
        frames_read(events) == match reader_after(events) {
            ReaderStep::Forward(frame) => frames_offered(events).push(frame),
            _ => frames_offered(events),
        },
    decreases events.len(),
{
    if events.len() > 0 {
        law_reader_loses_no_frame(events.drop_last());
    }
}

/// The reader ends only where waiting failed, the shutdown notice is there or
/// the forwarder is gone; and then it never goes on.
pub proof fn law_reader_ends_only_when_told(step: ReaderStep, event: ReaderEvent)
    ensures
        step is Stop ==> reader_next(step, event) is Stop,
        !(step is Stop) && reader_next(step, event) is Stop ==> match event {
            ReaderEvent::Polled { result, shutdown_revents, readable } => {
                result <= 0 || shutdown_revents & readable != 0
            },
            ReaderEvent::Forwarded(taken) => !taken,
            _ => false,
        },
{
}

/// The shutdown notice ends the reader at its next wait, whatever else is
/// there to be read.
pub proof fn law_shutdown_notice_ends_reader(result: i32, shutdown_revents: i16, readable: i16)
    requires
        shutdown_revents & readable != 0,
    ensures
        reader_next(
            ReaderStep::Poll,
            ReaderEvent::Polled { result, shutdown_revents, readable },
        ) is Stop,
{
}

/// The forwarder's step after `events`.
pub open spec fn forward_after(
    vni: u32,
    remotes: Seq<SocketAddr>,
    events: Seq<ForwardEventView>,
) -> ForwardStepView
    decreases events.len(),
{
    if events.len() == 0 {
        ForwardStepView::Receive
    } else {
        forward_next(
            vni,
            remotes.len() as int,
            forward_after(vni, remotes, events.drop_last()),
            events.last(),
        )
    }
}

/// The frames that the forwarder took in the course of `events`.
pub open spec fn frames_taken(
    vni: u32,
    remotes: Seq<SocketAddr>,
    events: Seq<ForwardEventView>,
) -> Seq<Seq<u8>>
    decreases events.len(),
{
    if events.len() == 0 {
        seq![]
    } else {
        let prior = frames_taken(vni, remotes, events.drop_last());
        match (forward_after(vni, remotes, events.drop_last()), events.last()) {
            (ForwardStepView::Receive, ForwardEventView::Frame(Some(frame))) => prior.push(frame),
            _ => prior,
        }
    }
}

/// The datagrams, with their destinations, that the forwarder sent in the
/// course of `events`.
pub open spec fn datagrams_sent(
    vni: u32,
    remotes: Seq<SocketAddr>,
    events: Seq<ForwardEventView>,
) -> Seq<(SocketAddr, Seq<u8>)>
    decreases events.len(),
{
    if events.len() == 0 {
        seq![]
    } else {
        let prior = datagrams_sent(vni, remotes, events.drop_last());
        match (forward_after(vni, remotes, events.drop_last()), events.last()) {
            (ForwardStepView::Send { payload, next }, ForwardEventView::Sent) => prior.push(
                (remotes[next], payload),
            ),
            _ => prior,
        }
    }
}

/// `payload` to every remote endpoint from number `next` on.
pub open spec fn fan_out(remotes: Seq<SocketAddr>, payload: Seq<u8>, next: int) -> Seq<
    (SocketAddr, Seq<u8>),
> {
    Seq::new((remotes.len() - next) as nat, |i: int| (remotes[next + i], payload))
}

/// Every one of `frames` to every remote endpoint.
pub open spec fn fan_out_all(vni: u32, remotes: Seq<SocketAddr>, frames: Seq<Seq<u8>>) -> Seq<
    (SocketAddr, Seq<u8>),
>
    decreases frames.len(),
{
    if frames.len() == 0 {
        seq![]
    } else {
        fan_out_all(vni, remotes, frames.drop_last()) + fan_out(
            remotes,
            vxlan_packet(frames.last(), vni),
            0,
        )
    }
}

/// Every frame goes to every remote endpoint: what the forwarder has sent,
/// with what it still has to send of the frame in its hands, is each frame
/// that it took, wrapped for its network, to each endpoint in turn. A datagram
/// that could not be sent does not keep the others back.
pub proof fn law_every_frame_reaches_every_remote(
    vni: u32,
    remotes: Seq<SocketAddr>,
    events: Seq<ForwardEventView>,
)
    ensures
        forward_wf(remotes.len() as int, forward_after(vni, remotes, events)),
        datagrams_sent(vni, remotes, events) + match forward_after(vni, remotes, events) {
            ForwardStepView::Send { payload, next } => fan_out(remotes, payload, next),
            _ => seq![],
        } == fan_out_all(vni, remotes, frames_taken(vni, remotes, events)),
    decreases events.len(),
{
    let sent = datagrams_sent(vni, remotes, events);
    let all = fan_out_all(vni, remotes, frames_taken(vni, remotes, events));
    if events.len() == 0 {
        assert(sent + seq![] =~= all);
    } else {
        let prior = events.drop_last();
        law_every_frame_reaches_every_remote(vni, remotes, prior);
        let sent0 = datagrams_sent(vni, remotes, prior);
        let taken0 = frames_taken(vni, remotes, prior);
        match (forward_after(vni, remotes, prior), events.last()) {
            (ForwardStepView::Receive, ForwardEventView::Frame(Some(frame))) => {
                assert(taken0.push(frame).drop_last() =~= taken0);
                assert(sent0 + seq![] =~= sent0);
                if remotes.len() == 0 {
                    assert(fan_out(remotes, vxlan_packet(frame, vni), 0) =~= seq![]);
                    assert(sent + seq![] =~= all);
                }
            },
            (ForwardStepView::Send { payload, next }, ForwardEventView::Sent) => {
                let rest = if next + 1 < remotes.len() {
                    fan_out(remotes, payload, next + 1)
                } else {
                    seq![]
                };
                assert(sent0 + fan_out(remotes, payload, next) =~= sent0.push(
                    (remotes[next], payload),
                ) + rest);
            },
            _ => {},
        }
    }
}

/// Every datagram that the forwarder sends, or is about to send, names the
/// network of the tunnel.
pub proof fn law_every_datagram_names_the_network(
    vni: u32,
    remotes: Seq<SocketAddr>,
    events: Seq<ForwardEventView>,
)
    requires
        vni <= VXLAN_MAX_VNI,
    ensures
        forall|i: int|
            0 <= i < datagrams_sent(vni, remotes, events).len() ==> packet_vni(
                (#[trigger] datagrams_sent(vni, remotes, events)[i]).1,
            ) == vni,
        forward_after(vni, remotes, events) matches ForwardStepView::Send { payload, .. }
            ==> packet_vni(payload) == vni,
    decreases events.len(),
{
    if events.len() > 0 {
        let sent = datagrams_sent(vni, remotes, events);
        let prior = datagrams_sent(vni, remotes, events.drop_last());
        law_every_datagram_names_the_network(vni, remotes, events.drop_last());
        if let ForwardEventView::Frame(Some(frame)) = events.last() {
            law_header_carries_vni(frame, vni);
        }
        assert forall|i: int| 0 <= i < sent.len() implies packet_vni((#[trigger] sent[i]).1)
            == vni by {
            if i < prior.len() {
                assert(sent[i] == prior[i]);
            }
        }
    }
}

/// The receiver's step after `events`.
pub open spec fn receive_after(vni: u32, events: Seq<ReceiveEventView>) -> ReceiveStepView
    decreases events.len(),
{
    if events.len() == 0 {
        ReceiveStepView::Receive
    } else {
        receive_next(vni, receive_after(vni, events.drop_last()), events.last())
    }
}

/// The frames of the network in the datagrams that the receiver took in the
/// course of `events`.
pub open spec fn frames_received(vni: u32, events: Seq<ReceiveEventView>) -> Seq<Seq<u8>>
    decreases events.len(),
{
    if events.len() == 0 {
        seq![]
    } else {
        let prior = frames_received(vni, events.drop_last());
        match (receive_after(vni, events.drop_last()), events.last()) {
            (ReceiveStepView::Receive, ReceiveEventView::Datagram(datagram)) => match inner_frame(
                datagram,
                vni,
            ) {
                Some(frame) => prior.push(frame),
                None => prior,
            },
            _ => prior,
        }
    }
}

/// The frames that the receiver wrote to vmnet in the course of `events`.
pub open spec fn frames_written(vni: u32, events: Seq<ReceiveEventView>) -> Seq<Seq<u8>>
    decreases events.len(),
{
    if events.len() == 0 {
        seq![]
    } else {
        let prior = frames_written(vni, events.drop_last());
        match (receive_after(vni, events.drop_last()), events.last()) {
            (ReceiveStepView::Write(frame), ReceiveEventView::Written) => prior.push(frame),
            _ => prior,
        }
    }
}

/// The receiver writes to vmnet the frames of its own network, each once and
/// in the order in which they came, and nothing else; at most the last one is
/// still in its hands.
pub proof fn law_only_frames_of_the_network_are_written(vni: u32, events: Seq<ReceiveEventView>)
    ensures
        frames_received(vni, events) == match receive_after(vni, events) {
            ReceiveStepView::Write(frame) => frames_written(vni, events).push(frame),
            _ => frames_written(vni, events),
        },
    decreases events.len(),
{
    if events.len() > 0 {
        law_only_frames_of_the_network_are_written(vni, events.drop_last());
    }
}

/// The shutdown notice ends the forwarder and the receiver wherever they wait,
/// and no event brings a worker back that has ended.
pub proof fn law_shutdown_ends_forwarding(
    vni: u32,
    n: int,
    forward: ForwardStepView,
    forward_event: ForwardEventView,
    receive: ReceiveStepView,
    receive_event: ReceiveEventView,
)
    ensures
        forward is Receive ==> forward_next(vni, n, forward, ForwardEventView::Shutdown) is Stop,
        forward is Stop ==> forward_next(vni, n, forward, forward_event) is Stop,
        receive is Receive || receive is Pause ==> receive_next(
            vni,
            receive,
            ReceiveEventView::Shutdown,
        ) is Stop,
        receive is Stop ==> receive_next(vni, receive, receive_event) is Stop,
{
}

/// The step after `n` steps of the end of a tunnel.
pub open spec fn teardown_after(n: nat) -> TeardownStep
    decreases n,
{
    if n == 0 {
        TeardownStep::Notify
    } else {
        teardown_next(teardown_after((n - 1) as nat))
    }
}

/// All three workers are told to end and waited for before the tunnel is done
/// with vmnet; the way there does not depend on what the wait for the end came
/// to.
pub proof fn law_workers_are_joined_first(n: nat)
    ensures
        teardown_after(n) == (if n == 0 {
            TeardownStep::Notify
        } else if n == 1 {
            TeardownStep::WakeReader
        } else if n == 2 {
            TeardownStep::JoinReader
        } else if n == 3 {
            TeardownStep::JoinForwarder
        } else if n == 4 {
            TeardownStep::JoinReceiver
        } else {
            TeardownStep::Done
        }),
    decreases n,
{
    if n > 0 {
        law_workers_are_joined_first((n - 1) as nat);
    }
}

/// Two tunnels of one network: a frame that the forwarder of one of them
/// takes is a frame that the receiver of the other one writes, unchanged.
pub proof fn law_tunnel_delivers(vni: u32, n: int, frame: Seq<u8>)
    requires
        vni <= VXLAN_MAX_VNI,
        n > 0,
    ensures
        match forward_next(
            vni,
            n,
            ForwardStepView::Receive,
            ForwardEventView::Frame(Some(frame)),
        ) {
            ForwardStepView::Send { payload, .. } => receive_next(
                vni,
                ReceiveStepView::Receive,
                ReceiveEventView::Datagram(payload),
            ) == ReceiveStepView::Write(frame),
            _ => false,
        },
{
    law_roundtrip_preserves_payload(frame, vni);
}

} // verus!
