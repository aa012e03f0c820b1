//! The decisions of the relay's two long-running loops, apart from their
//! sockets: the control writer, which drains queued command frames onto the
//! control connection, and the telemetry reader, which forwards decoded
//! aircraft batches to the presentation sink.
use vstd::prelude::*;

verus! {

/// Where the control writer stands.
pub enum WriterState {
    /// Waiting for the next queued command frame.
    AwaitingCommand,
    /// A frame has been handed to the connection; its outcome is awaited.
    Writing { frame: String },
    /// The loop has ended; nothing more is written.
    Stopped,
}

/// What the writer's driver observed.
pub enum WriterEvent {
    /// The queue yielded the next frame.
    Command { frame: String },
    /// Every producer handle is gone: the queue is at its end.
    ChannelClosed,
    /// The pending write went through.
    WriteDone,
    /// The pending write failed: the connection is gone.
    WriteFailed,
}

/// What the writer's driver does next.
pub enum WriterAction {
    /// Wait for the next queued frame.
    Receive,
    /// Write this frame as a text message.
    Write { frame: String },
    /// Keep waiting for the outcome of the pending write.
    AwaitWrite,
    /// End the loop. Frames still queued are dropped with the queue.
    Stop,
}

pub open spec fn writer_next(s: WriterState, e: WriterEvent) -> (WriterState, WriterAction) {
    match s {
        WriterState::AwaitingCommand => match e {
            WriterEvent::Command { frame } => (
                WriterState::Writing { frame },
                WriterAction::Write { frame },
            ),
            WriterEvent::ChannelClosed => (WriterState::Stopped, WriterAction::Stop),
            _ => (WriterState::AwaitingCommand, WriterAction::Receive),
        },
        WriterState::Writing { frame } => match e {
            WriterEvent::WriteDone => (WriterState::AwaitingCommand, WriterAction::Receive),
            WriterEvent::WriteFailed => (WriterState::Stopped, WriterAction::Stop),
            _ => (WriterState::Writing { frame }, WriterAction::AwaitWrite),
        },
        WriterState::Stopped => (WriterState::Stopped, WriterAction::Stop),
    }
}

/// One step of the control writer.
pub fn writer_step(s: WriterState, e: WriterEvent) -> (r: (WriterState, WriterAction))
    ensures
        r == writer_next(s, e),
{
    match s {
        WriterState::AwaitingCommand => match e {
            WriterEvent::Command { frame } => {
                let kept = frame.clone();
                (WriterState::Writing { frame: kept }, WriterAction::Write { frame })
            },
            WriterEvent::ChannelClosed => (WriterState::Stopped, WriterAction::Stop),
            _ => (WriterState::AwaitingCommand, WriterAction::Receive),
        },
        WriterState::Writing { frame } => match e {
            WriterEvent::WriteDone => (WriterState::AwaitingCommand, WriterAction::Receive),
            WriterEvent::WriteFailed => (WriterState::Stopped, WriterAction::Stop),
            _ => (WriterState::Writing { frame }, WriterAction::AwaitWrite),
        },
        WriterState::Stopped => (WriterState::Stopped, WriterAction::Stop),
    }
}

/// The state after a run of events.
pub open spec fn writer_after(s: WriterState, evs: Seq<WriterEvent>) -> WriterState
    decreases evs.len(),
{
    if evs.len() == 0 {
        s
    } else {
        writer_after(writer_next(s, evs[0]).0, evs.drop_first())
    }
}

/// The frames handed to the connection during a run of events, in order.
pub open spec fn frames_written(s: WriterState, evs: Seq<WriterEvent>) -> Seq<Seq<char>>
    decreases evs.len(),
{
    if evs.len() == 0 {
        seq![]
    } else {
        let step = writer_next(s, evs[0]);
        let now = match step.1 {
            WriterAction::Write { frame } => seq![frame@],
            _ => seq![],
        };
        now + frames_written(step.0, evs.drop_first())
    }
}

/// The frames whose write went through during a run of events, in order.
pub open spec fn frames_delivered(s: WriterState, evs: Seq<WriterEvent>) -> Seq<Seq<char>>
    decreases evs.len(),
{
    if evs.len() == 0 {
        seq![]
    } else {
        let now = match (s, evs[0]) {
            (WriterState::Writing { frame }, WriterEvent::WriteDone) => seq![frame@],
            _ => seq![],
        };
        now + frames_delivered(writer_next(s, evs[0]).0, evs.drop_first())
    }
}

/// The events of a live connection: each frame is received, then written.
pub open spec fn delivery_events(frames: Seq<String>) -> Seq<WriterEvent>
    decreases frames.len(),
{
    if frames.len() == 0 {
        seq![]
    } else {
        seq![WriterEvent::Command { frame: frames[0] }, WriterEvent::WriteDone]
            + delivery_events(frames.drop_first())
    }
}

/// The events of frames that reach the queue and nothing else.
pub open spec fn queued_events(frames: Seq<String>) -> Seq<WriterEvent>
    decreases frames.len(),
{
    if frames.len() == 0 {
        seq![]
    } else {
        seq![WriterEvent::Command { frame: frames[0] }] + queued_events(frames.drop_first())
    }
}

pub open spec fn views_of(frames: Seq<String>) -> Seq<Seq<char>> {
    frames.map_values(|f: String| f@)
}

proof fn lemma_writer_concat(s: WriterState, a: Seq<WriterEvent>, b: Seq<WriterEvent>)
    ensures
        writer_after(s, a + b) == writer_after(writer_after(s, a), b),
        frames_written(s, a + b) == frames_written(s, a) + frames_written(writer_after(s, a), b),
        frames_delivered(s, a + b) == frames_delivered(s, a) + frames_delivered(
            writer_after(s, a),
            b,
        ),
    decreases a.len(),
{
    if a.len() == 0 {
        assert(a + b =~= b);
    } else {
        let s2 = writer_next(s, a[0]).0;
        assert((a + b)[0] == a[0]);
        assert((a + b).drop_first() =~= a.drop_first() + b);
        lemma_writer_concat(s2, a.drop_first(), b);
    }
}

/// Over a live connection, the writer hands the queued frames to the wire in
/// exactly the order in which they were queued, and each of them is
/// delivered.
pub proof fn lemma_frames_written_in_order(frames: Seq<String>)
    ensures
        writer_after(WriterState::AwaitingCommand, delivery_events(frames))
            == WriterState::AwaitingCommand,
        frames_written(WriterState::AwaitingCommand, delivery_events(frames)) == views_of(frames),
        frames_delivered(WriterState::AwaitingCommand, delivery_events(frames)) == views_of(
            frames,
        ),
    decreases frames.len(),
{
    let s0 = WriterState::AwaitingCommand;
    if frames.len() == 0 {
        assert(views_of(frames) =~= seq![]);
    } else {
        let head = seq![WriterEvent::Command { frame: frames[0] }, WriterEvent::WriteDone];
        let rest = frames.drop_first();
        lemma_frames_written_in_order(rest);
        lemma_writer_concat(s0, head, delivery_events(rest));
        let s1 = WriterState::Writing { frame: frames[0] };
        assert(head.drop_first().drop_first() =~= seq![]);
        assert(writer_after(s0, head) == s0) by {
            assert(writer_after(s1, head.drop_first()) == writer_after(
                s0,
                head.drop_first().drop_first(),
            ));
        }
        assert(frames_written(s1, head.drop_first()) == seq![] + frames_written(
            s0,
            head.drop_first().drop_first(),
        ));
        assert(frames_written(s0, head) =~= seq![frames[0]@]);
        assert(frames_delivered(s1, head.drop_first()) == seq![frames[0]@] + frames_delivered(
            s0,
            head.drop_first().drop_first(),
        ));
        assert(frames_delivered(s0, head) =~= seq![frames[0]@]);
        assert(views_of(frames) =~= seq![frames[0]@] + views_of(rest));
    }
}

proof fn lemma_stopped_run(evs: Seq<WriterEvent>)
    ensures
        writer_after(WriterState::Stopped, evs) == WriterState::Stopped,
        frames_written(WriterState::Stopped, evs) == Seq::<Seq<char>>::empty(),
        frames_delivered(WriterState::Stopped, evs) == Seq::<Seq<char>>::empty(),
    decreases evs.len(),
{
    if evs.len() > 0 {
        lemma_stopped_run(evs.drop_first());
        assert(frames_written(WriterState::Stopped, evs) =~= seq![]);
        assert(frames_delivered(WriterState::Stopped, evs) =~= seq![]);
    }
}

/// When the control connection fails after the first `m` of the queued
/// frames were written, those `m` are delivered, the writer stops without
/// raising an error, and the frames still queued are never written.
pub proof fn lemma_teardown_discards_rest(frames: Seq<String>, m: int)
    requires
        0 <= m < frames.len(),
    ensures
        ({
            let evs = delivery_events(frames.take(m)) + seq![
                WriterEvent::Command { frame: frames[m] },
                WriterEvent::WriteFailed,
            ] + queued_events(frames.skip(m + 1));
            &&& frames_delivered(WriterState::AwaitingCommand, evs) == views_of(frames.take(m))
            &&& frames_written(WriterState::AwaitingCommand, evs) == views_of(frames.take(m + 1))
            &&& writer_after(WriterState::AwaitingCommand, evs) == WriterState::Stopped
        }),
{
    let s0 = WriterState::AwaitingCommand;
    let a = delivery_events(frames.take(m));
    let fail = seq![WriterEvent::Command { frame: frames[m] }, WriterEvent::WriteFailed];
    let rest = queued_events(frames.skip(m + 1));
    lemma_frames_written_in_order(frames.take(m));
    lemma_writer_concat(s0, a, fail);
    lemma_writer_concat(s0, a + fail, rest);
    lemma_stopped_run(rest);
    let s1 = WriterState::Writing { frame: frames[m] };
    assert(fail.drop_first().drop_first() =~= seq![]);
    assert(writer_after(s1, fail.drop_first()) == writer_after(
        WriterState::Stopped,
        fail.drop_first().drop_first(),
    ));
    assert(frames_written(s1, fail.drop_first()) == seq![] + frames_written(
        WriterState::Stopped,
        fail.drop_first().drop_first(),
    ));
    assert(frames_written(s0, fail) =~= seq![frames[m]@]);
    assert(frames_delivered(s1, fail.drop_first()) == seq![] + frames_delivered(
        WriterState::Stopped,
        fail.drop_first().drop_first(),
    ));
    assert(frames_delivered(s0, fail) =~= seq![]);
    assert(frames.take(m + 1) =~= frames.take(m).push(frames[m]));
    assert(views_of(frames.take(m + 1)) =~= views_of(frames.take(m)) + seq![frames[m]@]);
}


/// A message read from the telemetry connection. A text message carries the
/// outcome of decoding it as an aircraft batch: `None` when it was malformed.
pub enum TelemetryFrame<B> {
    Text { decoded: Option<B> },
    Ping,
    Close,
    /// The transport reported an error.
    Failed,
    /// Any other message (binary, pong).
    Other,
}

/// What the telemetry reader does with a message.
pub enum TelemetryAction<B> {
    /// Publish the batch to the presentation sink, then read on.
    Forward { batch: B },
    /// Read the next message.
    Continue,
    /// End the loop: the connection is closed or broken.
    Stop,
}

pub open spec fn telemetry_next<B>(f: TelemetryFrame<B>) -> TelemetryAction<B> {
    match f {
        TelemetryFrame::Text { decoded } => match decoded {
            Some(batch) => TelemetryAction::Forward { batch },
            None => TelemetryAction::Continue,
        },
        TelemetryFrame::Close => TelemetryAction::Stop,
        TelemetryFrame::Failed => TelemetryAction::Stop,
        _ => TelemetryAction::Continue,
    }
}

/// The telemetry reader's decision on one message. A malformed text message
/// is dropped and reading goes on; a ping gets no reply.
pub fn on_telemetry_frame<B>(f: TelemetryFrame<B>) -> (r: TelemetryAction<B>)
    ensures
        r == telemetry_next(f),
{
    match f {
        TelemetryFrame::Text { decoded } => match decoded {
            Some(batch) => TelemetryAction::Forward { batch },
            None => TelemetryAction::Continue,
        },
        TelemetryFrame::Close => TelemetryAction::Stop,
        TelemetryFrame::Failed => TelemetryAction::Stop,
        _ => TelemetryAction::Continue,
    }
}

/// The batches that the reader publishes from a stream of messages, in order:
/// it reads until the first message that stops it.
pub open spec fn batches_forwarded<B>(frames: Seq<TelemetryFrame<B>>) -> Seq<B>
    decreases frames.len(),
{
    if frames.len() == 0 {
        seq![]
    } else {
        match telemetry_next(frames[0]) {
            TelemetryAction::Forward { batch } => seq![batch] + batches_forwarded(
                frames.drop_first(),
            ),
            TelemetryAction::Continue => batches_forwarded(frames.drop_first()),
            TelemetryAction::Stop => seq![],
        }
    }
}

/// A malformed telemetry message forwards nothing and does not end the
/// reader: what follows it is published as if it had not come.
pub proof fn lemma_malformed_frame_skipped<B>(rest: Seq<TelemetryFrame<B>>)
    ensures
        batches_forwarded(seq![TelemetryFrame::Text { decoded: None }] + rest)
            == batches_forwarded(rest),
{
    let frames = seq![TelemetryFrame::Text { decoded: None }] + rest;
    assert(frames[0] == TelemetryFrame::<B>::Text { decoded: None });
    assert(frames.drop_first() =~= rest);
}

} // verus!
