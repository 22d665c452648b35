//! The route on which clients ask for the video.
use crate::app_state::{StreamEvent, StreamFlags};
use vstd::prelude::*;

verus! {

/// What is done about the capture stream when a client comes.
#[derive(Clone, Copy, Debug, PartialEq, Eq, Structural)]
pub enum StreamStart {
    /// It is started.
    Initialize,
    /// It is running already.
    AlreadyRunning,
}

/// Decides whether a client that comes starts the capture stream.
pub fn ws_handler(flags: &mut StreamFlags) -> (start: StreamStart)
    ensures
        *final(flags) == crate::app_state::flags_after(*old(flags), StreamEvent::Requested),
        start == (if crate::app_state::starts_stream(*old(flags), StreamEvent::Requested) {
            StreamStart::Initialize
        } else {
            StreamStart::AlreadyRunning
        }),
        start == StreamStart::Initialize <==> !old(flags).pw_running,
        final(flags).pw_running,
        final(flags).ffmpeg_running == old(flags).ffmpeg_running,
{
    if flags.on_event(StreamEvent::Requested) {
        StreamStart::Initialize
    } else {
        StreamStart::AlreadyRunning
    }
}

} // verus!
