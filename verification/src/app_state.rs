//! What the server knows of the capture stream.
use vstd::prelude::*;

verus! {

/// Whether the capture stream and the encoder are running.
#[derive(Clone, Copy, Debug, PartialEq, Eq, Structural)]
pub struct StreamFlags {
    pub pw_running: bool,
    pub ffmpeg_running: bool,
}

/// What happens to the capture stream.
#[derive(Clone, Copy, Debug, PartialEq, Eq, Structural)]
pub enum StreamEvent {
    /// A client asks for the stream.
    Requested,
    /// The encoder has been started.
    EncoderStarted,
    /// The stream has run and ended.
    Exited,
    /// The stream could not be set up.
    Failed,
}

/// The flags after an event.
pub open spec fn flags_after(flags: StreamFlags, event: StreamEvent) -> StreamFlags {
    match event {
        StreamEvent::Requested => StreamFlags { pw_running: true, ..flags },
        StreamEvent::EncoderStarted => StreamFlags { ffmpeg_running: true, ..flags },
        StreamEvent::Exited => StreamFlags { pw_running: false, ffmpeg_running: false },
        StreamEvent::Failed => StreamFlags { pw_running: false, ..flags },
    }
}

/// The stream is to be started: a client asks for it and it is not running.
pub open spec fn starts_stream(flags: StreamFlags, event: StreamEvent) -> bool {
    event == StreamEvent::Requested && !flags.pw_running
}

impl StreamFlags {
    /// Nothing is running.
    pub fn new() -> (flags: StreamFlags)
        ensures
            flags == (StreamFlags { pw_running: false, ffmpeg_running: false }),
    {
        StreamFlags { pw_running: false, ffmpeg_running: false }
    }

    /// Takes in an event. Returns whether the stream is to be started.
    pub fn on_event(&mut self, event: StreamEvent) -> (start: bool)
        ensures
            *final(self) == flags_after(*old(self), event),
            start == starts_stream(*old(self), event),
            start <==> event == StreamEvent::Requested && !old(self).pw_running,
            final(self).pw_running == (match event {
                StreamEvent::Requested => true,
                StreamEvent::EncoderStarted => old(self).pw_running,
                StreamEvent::Exited => false,
                StreamEvent::Failed => false,
            }),
            final(self).ffmpeg_running == (match event {
                StreamEvent::Requested => old(self).ffmpeg_running,
                StreamEvent::EncoderStarted => true,
                StreamEvent::Exited => false,
                StreamEvent::Failed => old(self).ffmpeg_running,
            }),
    {
        match event {
            StreamEvent::Requested => {
                let start: bool = !self.pw_running;
                self.pw_running = true;
                start
            },
            StreamEvent::EncoderStarted => {
                self.ffmpeg_running = true;
                false
            },
            StreamEvent::Exited => {
                self.pw_running = false;
                self.ffmpeg_running = false;
                false
            },
            StreamEvent::Failed => {
                self.pw_running = false;
                false
            },
        }
    }
}

/// A client that asks for the stream starts it if and only if it is not running, and then
/// it runs.
pub proof fn law_request_starts_idle_stream(flags: StreamFlags)
    ensures
        starts_stream(flags, StreamEvent::Requested) <==> !flags.pw_running,
        flags_after(flags, StreamEvent::Requested).pw_running,
        flags_after(flags, StreamEvent::Requested).ffmpeg_running == flags.ffmpeg_running,
{
}

/// Only a client's request starts the stream.
pub proof fn law_only_requests_start_stream(flags: StreamFlags, event: StreamEvent)
    requires
        event != StreamEvent::Requested,
    ensures
        !starts_stream(flags, event),
{
}

/// The flags after the first `n` of `events`.
pub open spec fn flags_over(flags: StreamFlags, events: Seq<StreamEvent>, n: nat) -> StreamFlags
    decreases n,
{
    if n == 0 {
        flags
    } else {
        flags_after(flags_over(flags, events, (n - 1) as nat), events[n - 1])
    }
}

/// The stream ends, or could not be set up.
pub open spec fn ends_stream(event: StreamEvent) -> bool {
    event == StreamEvent::Exited || event == StreamEvent::Failed
}

/// At most one stream at a time: between two events that start the stream it has ended.
pub proof fn law_one_stream_at_a_time(
    flags: StreamFlags,
    events: Seq<StreamEvent>,
    i: int,
    j: int,
)
    requires
        0 <= i < j < events.len(),
        starts_stream(flags_over(flags, events, i as nat), events[i]),
        starts_stream(flags_over(flags, events, j as nat), events[j]),
    ensures
        exists|k: int| i < k < j && ends_stream(#[trigger] events[k]),
{
    if forall|k: int| i < k < j ==> !ends_stream(#[trigger] events[k]) {
        lemma_stays_running(flags, events, i, j);
    }
}

/// Once started, the stream runs until it ends.
proof fn lemma_stays_running(flags: StreamFlags, events: Seq<StreamEvent>, i: int, j: int)
    requires
        0 <= i < j <= events.len(),
        events[i] == StreamEvent::Requested,
        forall|k: int| i < k < j ==> !ends_stream(#[trigger] events[k]),
    ensures
        flags_over(flags, events, j as nat).pw_running,
    decreases j,
{
    if j > i + 1 {
        lemma_stays_running(flags, events, i, j - 1);
        assert(!ends_stream(events[j - 1]));
    }
}

/// After the stream has ended, the next client that asks for it starts it again.
pub proof fn law_stream_can_restart(flags: StreamFlags, event: StreamEvent)
    requires
        ends_stream(event),
    ensures
        starts_stream(flags_after(flags, event), StreamEvent::Requested),
{
}

} // verus!
