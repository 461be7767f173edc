//! The bridge between a stream of chunks and the worker that consumes them.
//!
//! The chunks come from a stream that may fail at any point. They go, in
//! order, into a bounded channel whose other end is read by a worker that
//! blocks on it. A driver owns the stream, the channel and the worker; it
//! does what [`StreamBridge::step`] tells it to do and reports what came of
//! it. The decisions are taken here: when a chunk is sent, when the channel
//! is closed, and whose result the bridge returns.
//!
//! The worker takes the end of the channel for the end of its input. When
//! the stream fails, the channel is closed all the same, and the bridge
//! returns the stream's error. When the stream ends, or the worker stops
//! listening, the bridge waits for the worker and returns its result.

use vstd::prelude::*;

verus! {

/// What the driver of a bridge was last asked to do.
#[derive(Debug, Copy, Clone, PartialEq, Eq, Structural)]
pub enum BridgePhase {
    /// To take the next item from the stream.
    Pulling,
    /// To send the chunk it took into the channel.
    Sending,
    /// To wait for the worker.
    Joining,
    /// To return: the bridge is done.
    Finished,
}

/// What the driver reports.
#[derive(Debug, Copy, Clone, PartialEq, Eq, Structural)]
pub enum BridgeEvent {
    /// The stream gave a chunk.
    Chunk,
    /// The stream gave an error.
    StreamError,
    /// The stream has ended.
    StreamEnd,
    /// The chunk is in the channel.
    Sent,
    /// The chunk could not be sent: the worker has let go of the channel.
    ReceiverGone,
    /// The worker has returned.
    WorkerReturned,
}

/// What the driver is asked to do next.
#[derive(Debug, Copy, Clone, PartialEq, Eq, Structural)]
pub enum BridgeAction {
    /// Take the next item from the stream.
    /// Answer: `Chunk`, `StreamError` or `StreamEnd`.
    Pull,
    /// Send the chunk just taken, waiting while the channel is full.
    /// Answer: `Sent` or `ReceiverGone`.
    Send,
    /// Close the channel and wait for the worker. Answer: `WorkerReturned`.
    CloseAndJoin,
    /// Close the channel and return the stream's error.
    FailWithStreamError,
    /// Return what the worker returned.
    ReturnWorkerResult,
    /// Stop: the driver reported what it was not asked for.
    Abort,
}

/// The decision taken in `phase` on `event`: the phase that follows, and
/// what the driver is to do.
///
/// The worker may return at any time, and its result is then the bridge's.
pub open spec fn bridge_step(phase: BridgePhase, event: BridgeEvent) -> (
    BridgePhase,
    BridgeAction,
) {
    match (phase, event) {
        (BridgePhase::Pulling, BridgeEvent::Chunk) => (BridgePhase::Sending, BridgeAction::Send),
        (BridgePhase::Pulling, BridgeEvent::StreamError) => (
            BridgePhase::Finished,
            BridgeAction::FailWithStreamError,
        ),
        (BridgePhase::Pulling, BridgeEvent::StreamEnd) => (
            BridgePhase::Joining,
            BridgeAction::CloseAndJoin,
        ),
        (BridgePhase::Sending, BridgeEvent::Sent) => (BridgePhase::Pulling, BridgeAction::Pull),
        (BridgePhase::Sending, BridgeEvent::ReceiverGone) => (
            BridgePhase::Joining,
            BridgeAction::CloseAndJoin,
        ),
        (BridgePhase::Pulling, BridgeEvent::WorkerReturned)
        | (BridgePhase::Sending, BridgeEvent::WorkerReturned)
        | (BridgePhase::Joining, BridgeEvent::WorkerReturned) => (
            BridgePhase::Finished,
            BridgeAction::ReturnWorkerResult,
        ),
        _ => (BridgePhase::Finished, BridgeAction::Abort),
    }
}

/// The bridge of one extraction.
pub struct StreamBridge {
    phase: BridgePhase,
}

impl View for StreamBridge {
    type V = BridgePhase;

    closed spec fn view(&self) -> BridgePhase {
        self.phase
    }
}

impl StreamBridge {
    /// A new bridge. The driver starts it with a `Pull`.
    pub fn new() -> (bridge: StreamBridge)
        ensures
            bridge@ == BridgePhase::Pulling,
    {
        StreamBridge { phase: BridgePhase::Pulling }
    }

    /// What the driver was last asked to do.
    pub fn phase(&self) -> (phase: BridgePhase)
        ensures
            phase == self@,
    {
        self.phase
    }

    /// Takes in what the driver reports and decides what it does next.
    pub fn step(&mut self, event: BridgeEvent) -> (action: BridgeAction)
        ensures
            (final(self)@, action) == bridge_step(old(self)@, event),
    {
        let (phase, action) = match (self.phase, event) {
            (BridgePhase::Pulling, BridgeEvent::Chunk) => (
                BridgePhase::Sending,
                BridgeAction::Send,
            ),
            (BridgePhase::Pulling, BridgeEvent::StreamError) => (
                BridgePhase::Finished,
                BridgeAction::FailWithStreamError,
            ),
            (BridgePhase::Pulling, BridgeEvent::StreamEnd) => (
                BridgePhase::Joining,
                BridgeAction::CloseAndJoin,
            ),
            (BridgePhase::Sending, BridgeEvent::Sent) => (BridgePhase::Pulling, BridgeAction::Pull),
            (BridgePhase::Sending, BridgeEvent::ReceiverGone) => (
                BridgePhase::Joining,
                BridgeAction::CloseAndJoin,
            ),
            (BridgePhase::Pulling, BridgeEvent::WorkerReturned) => (
                BridgePhase::Finished,
                BridgeAction::ReturnWorkerResult,
            ),
            (BridgePhase::Sending, BridgeEvent::WorkerReturned) => (
                BridgePhase::Finished,
                BridgeAction::ReturnWorkerResult,
            ),
            (BridgePhase::Joining, BridgeEvent::WorkerReturned) => (
                BridgePhase::Finished,
                BridgeAction::ReturnWorkerResult,
            ),
            _ => (BridgePhase::Finished, BridgeAction::Abort),
        };
        self.phase = phase;
        action
    }
}

/// The phase that a bridge is in after the driver has reported `events`, one
/// after the other, from the start.
pub open spec fn bridge_run(events: Seq<BridgeEvent>) -> BridgePhase
    decreases events.len(),
{
    if events.len() == 0 {
        BridgePhase::Pulling
    } else {
        bridge_step(bridge_run(events.drop_last()), events.last()).0
    }
}

/// What the driver is asked to do on the last of `events`.
pub open spec fn bridge_answer(events: Seq<BridgeEvent>) -> BridgeAction
    recommends
        events.len() > 0,
{
    bridge_step(bridge_run(events.drop_last()), events.last()).1
}

/// How many chunks the driver was asked to send while it reported `events`:
/// as many as reach the worker.
pub open spec fn chunks_sent(events: Seq<BridgeEvent>) -> nat
    decreases events.len(),
{
    if events.len() == 0 {
        0
    } else if bridge_answer(events) == BridgeAction::Send {
        chunks_sent(events.drop_last()) + 1
    } else {
        chunks_sent(events.drop_last())
    }
}

/// What a driver reports of a stream that gives `n` chunks, each of which
/// the worker takes.
pub open spec fn chunks_taken(n: nat) -> Seq<BridgeEvent>
    decreases n,
{
    if n == 0 {
        Seq::empty()
    } else {
        chunks_taken((n - 1) as nat).push(BridgeEvent::Chunk).push(BridgeEvent::Sent)
    }
}

/// While the worker takes what it is sent, every chunk of the stream is
/// sent, and the bridge goes on to take the next item.
pub proof fn lemma_chunks_are_forwarded(n: nat)
    ensures
        bridge_run(chunks_taken(n)) == BridgePhase::Pulling,
        chunks_sent(chunks_taken(n)) == n,
    decreases n,
{
    if n > 0 {
        let before = chunks_taken((n - 1) as nat);
        lemma_chunks_are_forwarded((n - 1) as nat);
        let offered = before.push(BridgeEvent::Chunk);
        assert(offered.drop_last() =~= before);
        assert(bridge_run(offered) == BridgePhase::Sending);
        assert(chunks_sent(offered) == n);
        assert(chunks_taken(n).drop_last() =~= offered);
        assert(bridge_run(chunks_taken(n)) == BridgePhase::Pulling);
    }
}

/// A stream that fails after `n` chunks fails the bridge with its own
/// error, and the `n` chunks are all that was sent.
pub proof fn lemma_stream_error_after_chunks(n: nat)
    ensures
        bridge_answer(chunks_taken(n).push(BridgeEvent::StreamError))
            == BridgeAction::FailWithStreamError,
        bridge_run(chunks_taken(n).push(BridgeEvent::StreamError)) == BridgePhase::Finished,
        chunks_sent(chunks_taken(n).push(BridgeEvent::StreamError)) == n,
{
    lemma_chunks_are_forwarded(n);
    let failed = chunks_taken(n).push(BridgeEvent::StreamError);
    assert(failed.drop_last() =~= chunks_taken(n));
}

/// A stream that ends after `n` chunks has all of them sent; the channel is
/// then closed, the worker is waited for, and its result is the bridge's.
pub proof fn lemma_stream_end_after_chunks(n: nat)
    ensures
        bridge_answer(chunks_taken(n).push(BridgeEvent::StreamEnd)) == BridgeAction::CloseAndJoin,
        bridge_answer(
            chunks_taken(n).push(BridgeEvent::StreamEnd).push(BridgeEvent::WorkerReturned),
        ) == BridgeAction::ReturnWorkerResult,
        chunks_sent(
            chunks_taken(n).push(BridgeEvent::StreamEnd).push(BridgeEvent::WorkerReturned),
        ) == n,
{
    lemma_chunks_are_forwarded(n);
    let ended = chunks_taken(n).push(BridgeEvent::StreamEnd);
    assert(ended.drop_last() =~= chunks_taken(n));
    assert(bridge_run(ended) == BridgePhase::Joining);
    assert(chunks_sent(ended) == n);
    assert(ended.push(BridgeEvent::WorkerReturned).drop_last() =~= ended);
}

/// A bridge that is done stays done, and asks for nothing to be sent.
pub proof fn lemma_finished_stays(events: Seq<BridgeEvent>, i: int, j: int)
    requires
        0 <= i <= j <= events.len(),
        bridge_run(events.take(i)) == BridgePhase::Finished,
    ensures
        bridge_run(events.take(j)) == BridgePhase::Finished,
        chunks_sent(events.take(j)) == chunks_sent(events.take(i)),
    decreases j - i,
{
    if i < j {
        lemma_finished_stays(events, i, j - 1);
        assert(events.take(j).drop_last() =~= events.take(j - 1));
    } else {
        assert(events.take(j) =~= events.take(i));
    }
}

/// Once the stream has failed, no chunk reaches the worker any more,
/// whatever the driver reports after that.
pub proof fn lemma_nothing_sent_after_stream_error(events: Seq<BridgeEvent>, i: int)
    requires
        0 < i <= events.len(),
        bridge_answer(events.take(i)) == BridgeAction::FailWithStreamError,
    ensures
        chunks_sent(events) == chunks_sent(events.take(i - 1)),
        forall|j: int| i < j <= events.len() ==> bridge_answer(#[trigger] events.take(j)) == BridgeAction::Abort,
{
    assert(events.take(i).drop_last() =~= events.take(i - 1));
    assert(bridge_run(events.take(i)) == BridgePhase::Finished);
    lemma_finished_stays(events, i, events.len() as int);
    assert(events.take(events.len() as int) =~= events);
    assert forall|j: int| i < j <= events.len() implies bridge_answer(#[trigger] events.take(j))
        == BridgeAction::Abort by {
        lemma_finished_stays(events, i, j - 1);
        assert(events.take(j).drop_last() =~= events.take(j - 1));
    }
}

/// The bridge returns the worker's result exactly when the worker is
/// reported to have returned before the bridge is done, and the stream's
/// error exactly when the stream fails while the bridge waits for its next
/// item.
pub proof fn lemma_whose_result_is_returned(phase: BridgePhase, event: BridgeEvent)
    ensures
        bridge_step(phase, event).1 == BridgeAction::ReturnWorkerResult <==> phase
            != BridgePhase::Finished && event == BridgeEvent::WorkerReturned,
        bridge_step(phase, event).1 == BridgeAction::FailWithStreamError <==> phase
            == BridgePhase::Pulling && event == BridgeEvent::StreamError,
{
}

/// Chunks keep their order: a chunk is sent as the answer to its being
/// taken from the stream, and nothing else is ever sent, so that no chunk is
/// taken while another waits to be sent.
pub proof fn lemma_chunk_is_sent_when_taken(phase: BridgePhase, event: BridgeEvent)
    ensures
        bridge_step(phase, event).1 == BridgeAction::Send <==> phase == BridgePhase::Pulling
            && event == BridgeEvent::Chunk,
        bridge_step(phase, event).1 == BridgeAction::Pull <==> phase == BridgePhase::Sending
            && event == BridgeEvent::Sent,
{
}

/// The channel is closed, so that the worker sees the end of its input,
/// whenever the stream ends or fails and whenever the worker has stopped
/// listening; in every such case the driver stops pulling from the stream.
pub proof fn lemma_channel_is_closed(event: BridgeEvent)
    ensures
        bridge_step(BridgePhase::Pulling, BridgeEvent::StreamEnd) == (
            BridgePhase::Joining,
            BridgeAction::CloseAndJoin,
        ),
        bridge_step(BridgePhase::Sending, BridgeEvent::ReceiverGone) == (
            BridgePhase::Joining,
            BridgeAction::CloseAndJoin,
        ),
        bridge_step(BridgePhase::Joining, event).1 != BridgeAction::Pull,
        bridge_step(BridgePhase::Joining, event).1 != BridgeAction::Send,
{
}

} // verus!
