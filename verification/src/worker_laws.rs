//! What the workers of a running tunnel owe, step by step and over a whole run.

use crate::addr::SocketAddr;
use crate::packet::vxlan_packet;
use crate::worker::{
    datagrams_sent, fan_out_all, forward_after, forward_next, frames_taken,
    law_every_frame_reaches_every_remote, reader_after, reader_next, receive_after, receive_next,
    ForwardEvent, ForwardEventView, ForwardStep, ForwardStepView, ReaderEvent, ReaderStep,
    ReceiveEvent, ReceiveEventView, ReceiveStep, ReceiveStepView,
};
use vstd::prelude::*;

verus! {

/// Whether `event` ends a wait because there is something to be read, and the
/// tunnel is not shutting down.
pub open spec fn is_signal(event: ReaderEvent) -> bool {
    event matches ReaderEvent::Polled { result, shutdown_revents, readable } && result > 0
        && shutdown_revents & readable == 0
}

/// Whether `event` says that vmnet has no frame left.
pub open spec fn is_exhausted(event: ReaderEvent) -> bool {
    event matches ReaderEvent::FrameRead(frame) && frame is None
}

proof fn lemma_reader_step(events: Seq<ReaderEvent>, j: int)
    requires
        0 < j <= events.len(),
    ensures
        reader_after(events.take(j)) == reader_next(reader_after(events.take(j - 1)), events[j - 1]),
{
    assert(events.take(j).drop_last() =~= events.take(j - 1));
}

/// What is signalled is read: between a wait that ends because there is
/// something to be read and the next wait, the reader reads from vmnet until
/// vmnet says that it has no frame left.
pub proof fn law_reader_empties_vmnet_between_waits(events: Seq<ReaderEvent>, i: int, j: int)
    requires
        0 <= i < j <= events.len(),
        reader_after(events.take(i)) is Poll,
        is_signal(events[i]),
        reader_after(events.take(j)) is Poll,
    ensures
        exists|k: int|
            i < k < j && reader_after(events.take(k)) is ReadFrame && is_exhausted(
                #[trigger] events[k],
            ),
    decreases j - i,
{
    lemma_reader_step(events, j);
    if j > i + 1 {
        if reader_after(events.take(j - 1)) is Poll {
            law_reader_empties_vmnet_between_waits(events, i, j - 1);
        } else {
            assert(is_exhausted(events[j - 1]));
        }
    }
}

/// What every answer leads the reader to. A signal makes it read the
/// notification pipe until nothing is left in it; then it takes frames from
/// vmnet, handing on each one as it is, until vmnet has none left; then it waits
/// again. It ends where waiting fails, at the shutdown notice and where nobody
/// takes its frames.
pub proof fn law_reader_follows_its_answers(
    n: isize,
    frame: Vec<u8>,
    waited: ReaderEvent,
    event: ReaderEvent,
)
    ensures
        is_signal(waited) ==> reader_next(ReaderStep::Poll, waited) is Drain,
        waited is Polled && !is_signal(waited) ==> reader_next(ReaderStep::Poll, waited) is Stop,
        n > 0 ==> reader_next(ReaderStep::Drain, ReaderEvent::Drained(n)) is Drain,
        n <= 0 ==> reader_next(ReaderStep::Drain, ReaderEvent::Drained(n)) is ReadFrame,
        reader_next(ReaderStep::ReadFrame, ReaderEvent::FrameRead(Some(frame)))
            == ReaderStep::Forward(frame),
        reader_next(ReaderStep::ReadFrame, ReaderEvent::FrameRead(None)) is Poll,
        reader_next(ReaderStep::Forward(frame), ReaderEvent::Forwarded(true)) is ReadFrame,
        reader_next(ReaderStep::Forward(frame), ReaderEvent::Forwarded(false)) is Stop,
        !(event is Polled) ==> reader_next(ReaderStep::Poll, event) is Poll,
        !(event is Drained) ==> reader_next(ReaderStep::Drain, event) is Drain,
        !(event is FrameRead) ==> reader_next(ReaderStep::ReadFrame, event) is ReadFrame,
        !(event is Forwarded) ==> reader_next(ReaderStep::Forward(frame), event)
            == ReaderStep::Forward(frame),
{
}

/// A reader that nobody tells to end goes on: while every wait ends with a
/// signal and every frame is taken, it does not end.
pub proof fn law_reader_goes_on(events: Seq<ReaderEvent>)
    requires
        forall|k: int|
            0 <= k < events.len() ==> (#[trigger] events[k] is Polled ==> is_signal(events[k])),
        forall|k: int|
            0 <= k < events.len() ==> (#[trigger] events[k] matches ReaderEvent::Forwarded(taken)
                ==> taken),
    ensures
        !(reader_after(events) is Stop),
    decreases events.len(),
{
    if events.len() > 0 {
        let prior = events.drop_last();
        assert forall|k: int| 0 <= k < prior.len() implies (#[trigger] prior[k] is Polled
            ==> is_signal(prior[k])) by {
            assert(prior[k] == events[k]);
        }
        assert forall|k: int| 0 <= k < prior.len() implies (
        #[trigger] prior[k] matches ReaderEvent::Forwarded(taken) ==> taken) by {
            assert(prior[k] == events[k]);
        }
        law_reader_goes_on(prior);
        assert(events.last() == events[events.len() - 1]);
    }
}

proof fn lemma_fan_out_all_at(
    vni: u32,
    remotes: Seq<SocketAddr>,
    frames: Seq<Seq<u8>>,
    f: int,
    r: int,
)
    requires
        0 <= f < frames.len(),
        0 <= r < remotes.len(),
    ensures
        fan_out_all(vni, remotes, frames).len() == frames.len() * remotes.len(),
        0 <= f * remotes.len() + r < fan_out_all(vni, remotes, frames).len(),
        fan_out_all(vni, remotes, frames)[f * remotes.len() + r] == (
            remotes[r],
            vxlan_packet(frames[f], vni),
        ),
    decreases frames.len(),
{
    let n = remotes.len() as int;
    let m = frames.len() as int;
    let prior = frames.drop_last();
    lemma_fan_out_all_len(vni, remotes, frames);
    lemma_fan_out_all_len(vni, remotes, prior);
    assert(f * n + r < m * n && (f < m - 1 ==> f * n + r < (m - 1) * n) && 0 <= f * n)
        by (nonlinear_arith)
        requires
            0 <= f < m,
            0 <= r < n,
    ;
    if f < m - 1 {
        lemma_fan_out_all_at(vni, remotes, prior, f, r);
    }
}

proof fn lemma_fan_out_all_len(vni: u32, remotes: Seq<SocketAddr>, frames: Seq<Seq<u8>>)
    ensures
        fan_out_all(vni, remotes, frames).len() == frames.len() * remotes.len(),
    decreases frames.len(),
{
    if frames.len() > 0 {
        lemma_fan_out_all_len(vni, remotes, frames.drop_last());
        assert((frames.len() - 1) * remotes.len() + remotes.len() == frames.len() * remotes.len())
            by (nonlinear_arith);
    }
}

/// When the forwarder has no frame in its hands, every frame that it took has
/// gone to every remote endpoint: frame by frame and, for each frame, endpoint by
/// endpoint, each datagram being the frame wrapped for the network; and no other
/// datagram was sent.
pub proof fn law_frame_by_frame(
    vni: u32,
    remotes: Seq<SocketAddr>,
    events: Seq<ForwardEventView>,
    f: int,
    r: int,
)
    requires
        !(forward_after(vni, remotes, events) is Send),
        0 <= f < frames_taken(vni, remotes, events).len(),
        0 <= r < remotes.len(),
    ensures
        datagrams_sent(vni, remotes, events).len() == frames_taken(vni, remotes, events).len()
            * remotes.len(),
        datagrams_sent(vni, remotes, events)[f * remotes.len() + r].0 == remotes[r],
        datagrams_sent(vni, remotes, events)[f * remotes.len() + r].1 == vxlan_packet(
            frames_taken(vni, remotes, events)[f],
            vni,
        ),
{
    let sent = datagrams_sent(vni, remotes, events);
    law_every_frame_reaches_every_remote(vni, remotes, events);
    assert(sent + Seq::<(SocketAddr, Seq<u8>)>::empty() =~= sent);
    lemma_fan_out_all_at(vni, remotes, frames_taken(vni, remotes, events), f, r);
}

/// What every answer leads the forwarder to. A frame is sent to the first remote
/// endpoint and on to each one behind it; then the forwarder waits again. It
/// ends at the shutdown notice and where the reader has ended, while it waits,
/// and nowhere else.
pub proof fn law_forwarder_follows_its_answers(
    vni: u32,
    n: int,
    frame: Seq<u8>,
    payload: Seq<u8>,
    next: int,
    step: ForwardStepView,
    event: ForwardEventView,
)
    requires
        n > 0,
        0 <= next < n,
    ensures
        forward_next(
            vni,
            n,
            ForwardStepView::Receive,
            ForwardEventView::Frame(Some(frame)),
        ) == (ForwardStepView::Send { payload: vxlan_packet(frame, vni), next: 0 }),
        next < n - 1 ==> forward_next(
            vni,
            n,
            ForwardStepView::Send { payload, next },
            ForwardEventView::Sent,
        ) == (ForwardStepView::Send { payload, next: next + 1 }),
        next == n - 1 ==> forward_next(
            vni,
            n,
            ForwardStepView::Send { payload, next },
            ForwardEventView::Sent,
        ) is Receive,
        !(event is Sent) ==> forward_next(vni, n, ForwardStepView::Send { payload, next }, event)
            == (ForwardStepView::Send { payload, next }),
        forward_next(vni, n, ForwardStepView::Receive, ForwardEventView::Sent) is Receive,
        !(step is Stop) && forward_next(vni, n, step, event) is Stop <==> step is Receive && (
        event is Shutdown || event == ForwardEventView::Frame(None)),
        step is Stop ==> forward_next(vni, n, step, event) is Stop,
{
}

/// A forwarder without the shutdown notice and with a reader goes on.
pub proof fn law_forwarder_goes_on(
    vni: u32,
    remotes: Seq<SocketAddr>,
    events: Seq<ForwardEventView>,
)
    requires
        forall|k: int|
            0 <= k < events.len() ==> !(#[trigger] events[k] is Shutdown) && events[k]
                != ForwardEventView::Frame(None),
    ensures
        !(forward_after(vni, remotes, events) is Stop),
    decreases events.len(),
{
    if events.len() > 0 {
        let prior = events.drop_last();
        assert forall|k: int| 0 <= k < prior.len() implies !(#[trigger] prior[k] is Shutdown)
            && prior[k] != ForwardEventView::Frame(None) by {
            assert(prior[k] == events[k]);
        }
        law_forwarder_goes_on(vni, remotes, prior);
        assert(!(events[events.len() - 1] is Shutdown));
    }
}

/// What every answer leads the receiver to. A datagram of its network makes it
/// write everything behind the header, whatever its length; after the write it
/// waits for the next datagram, whatever the frame was. Other datagrams change
/// nothing. After an error it waits for a tenth of a second and goes on.
pub proof fn law_receiver_follows_its_answers(
    vni: u32,
    datagram: Seq<u8>,
    frame: Seq<u8>,
    ms: u64,
    event: ReceiveEventView,
)
    ensures
        datagram.len() >= 8 && datagram[4] * 65536 + datagram[5] * 256 + datagram[6] == vni
            ==> receive_next(
            vni,
            ReceiveStepView::Receive,
            ReceiveEventView::Datagram(datagram),
        ) == ReceiveStepView::Write(datagram.skip(8)),
        !(datagram.len() >= 8 && datagram[4] * 65536 + datagram[5] * 256 + datagram[6] == vni)
            ==> receive_next(
            vni,
            ReceiveStepView::Receive,
            ReceiveEventView::Datagram(datagram),
        ) is Receive,
        receive_next(vni, ReceiveStepView::Write(frame), ReceiveEventView::Written) is Receive,
        !(event is Written) ==> receive_next(vni, ReceiveStepView::Write(frame), event)
            == ReceiveStepView::Write(frame),
        receive_next(vni, ReceiveStepView::Receive, ReceiveEventView::Failed)
            == ReceiveStepView::Pause(100),
        receive_next(vni, ReceiveStepView::Pause(ms), ReceiveEventView::Slept) is Receive,
        !(event is Slept || event is Shutdown) ==> receive_next(
            vni,
            ReceiveStepView::Pause(ms),
            event,
        ) == ReceiveStepView::Pause(ms),
        event is Written || event is Slept ==> receive_next(
            vni,
            ReceiveStepView::Receive,
            event,
        ) is Receive,
{
}

/// The receiver ends only when told: no event but the shutdown notice ends it,
/// whatever it is doing; and it never ends with a frame in its hands.
pub proof fn law_receiver_ends_only_when_told(
    vni: u32,
    step: ReceiveStepView,
    event: ReceiveEventView,
)
    ensures
        !(step is Stop) && receive_next(vni, step, event) is Stop <==> event is Shutdown && (
        step is Receive || step is Pause),
        step is Stop ==> receive_next(vni, step, event) is Stop,
        step is Write && event is Written ==> receive_next(vni, step, event) is Receive,
{
}

/// Without the shutdown notice the receiver goes on for ever, whatever arrives.
pub proof fn law_receiver_goes_on(vni: u32, events: Seq<ReceiveEventView>)
    requires
        forall|k: int| 0 <= k < events.len() ==> !(#[trigger] events[k] is Shutdown),
    ensures
        !(receive_after(vni, events) is Stop),
    decreases events.len(),
{
    if events.len() > 0 {
        let prior = events.drop_last();
        assert forall|k: int| 0 <= k < prior.len() implies !(#[trigger] prior[k] is Shutdown) by {
            assert(prior[k] == events[k]);
        }
        law_receiver_goes_on(vni, prior);
        assert(!(events[events.len() - 1] is Shutdown));
    }
}

/// The views of steps and events keep their kind and all bytes.
pub proof fn law_views_keep_steps(bytes: Vec<u8>, next: usize, ms: u64, datagram: &[u8])
    ensures
        ForwardStep::Receive@ is Receive,
        (ForwardStep::Send { payload: bytes, next })@ == (ForwardStepView::Send {
            payload: bytes@,
            next: next as int,
        }),
        ForwardStep::Stop@ is Stop,
        ForwardEvent::Shutdown@ is Shutdown,
        ForwardEvent::Frame(Some(bytes))@ == ForwardEventView::Frame(Some(bytes@)),
        ForwardEvent::Frame(None)@ == ForwardEventView::Frame(None),
        ForwardEvent::Sent@ is Sent,
        ReceiveStep::Receive@ is Receive,
        ReceiveStep::Write(bytes)@ == ReceiveStepView::Write(bytes@),
        ReceiveStep::Pause(ms)@ == ReceiveStepView::Pause(ms),
        ReceiveStep::Stop@ is Stop,
        ReceiveEvent::Shutdown@ is Shutdown,
        ReceiveEvent::Datagram(datagram)@ == ReceiveEventView::Datagram(datagram@),
        ReceiveEvent::Failed@ is Failed,
        ReceiveEvent::Written@ is Written,
        ReceiveEvent::Slept@ is Slept,
{
}

} // verus!
