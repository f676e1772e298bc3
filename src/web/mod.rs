//! The session: what the decode worker does with each step, and what it sends.
pub mod ws;

use crate::decoder::iter::Step;
use crate::decoder::MediaKind;
use crate::dfpwm::{bits_after, pack_msb, state_after, DfpwmEncoder};
use crate::dimensions::ResolutionHint;
use vstd::prelude::*;
use ws::{StreamAudioFrame, StreamVideoFrame};

verus! {

/// Messages that the worker may have in flight before it waits for the sender.
pub const QUEUE_CAPACITY: usize = 5;

/// Colours per video frame; indices fit one hexadecimal digit.
pub const PALETTE_SIZE: usize = 16;

/// The client's pixels are two thirds as wide as they are tall.
pub const PIXEL_ASPECT_NUM: u32 = 2;

pub const PIXEL_ASPECT_DEN: u32 = 3;

/// One message for the client.
#[derive(Debug)]
pub enum WireMessage {
    Video(StreamVideoFrame),
    Audio(StreamAudioFrame),
}

/// What the worker does after a decoding step.
#[derive(Debug, Clone, Copy, PartialEq, Eq, Structural)]
pub enum WorkerAction {
    /// Quantize the video frame and send it.
    SendVideo,
    /// Encode the audio frame and send it.
    SendAudio,
    /// Step again.
    Retry,
    /// End the session.
    Stop,
}

/// The worker's reaction to a step: frames are sent, `NoFramesYet` and a dropped packet
/// are retried, anything else ends the session.
pub fn worker_action(step: Step) -> (r: WorkerAction)
    ensures
        step == Step::Frame(MediaKind::Video) ==> r == WorkerAction::SendVideo,
        step == Step::Frame(MediaKind::Audio) ==> r == WorkerAction::SendAudio,
        step == Step::Continue ==> r == WorkerAction::Retry,
        step matches Step::Failed(e) ==> (r == WorkerAction::Retry <==> e
            == crate::decoder::DecodeError::NoFramesYet) && (r == WorkerAction::Stop <==> e
            != crate::decoder::DecodeError::NoFramesYet),
        step == Step::EndOfStream ==> r == WorkerAction::Stop,
{
    match step {
        Step::Frame(MediaKind::Video) => WorkerAction::SendVideo,
        Step::Frame(MediaKind::Audio) => WorkerAction::SendAudio,
        Step::Continue => WorkerAction::Retry,
        Step::Failed(e) => if e.is_transient() {
            WorkerAction::Retry
        } else {
            WorkerAction::Stop
        },
        Step::EndOfStream => WorkerAction::Stop,
    }
}

/// The sizing policy of a session asking for `width * height`: fit, with the client's
/// pixel aspect.
pub fn session_hint(width: u32, height: u32) -> (r: ResolutionHint)
    ensures
        r == (ResolutionHint::Fit {
            width,
            height,
            aspect_num: PIXEL_ASPECT_NUM,
            aspect_den: PIXEL_ASPECT_DEN,
        }),
        r.wf(),
{
    ResolutionHint::fit(width, height, PIXEL_ASPECT_NUM, PIXEL_ASPECT_DEN)
}

/// The audio message for a block of levels, through the session's encoder.
pub fn audio_message(encoder: &mut DfpwmEncoder, levels: &[i32]) -> (r: WireMessage)
    requires
        old(encoder).wf(),
        levels@.len() <= usize::MAX / 16,
    ensures
        final(encoder).wf(),
        *final(encoder) == state_after(*old(encoder), levels@),
        r matches WireMessage::Audio(a) && a.samples@ == pack_msb(bits_after(*old(encoder), levels@)),
{
    WireMessage::Audio(StreamAudioFrame { samples: encoder.encode(levels) })
}

} // verus!
