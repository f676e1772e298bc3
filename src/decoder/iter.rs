//! The decode loop as a state machine: it says what to ask of the demuxer and the
//! decoders next, and what each answer means.
use super::{error_of, DecodeError, Decoder, FfmpegError, MediaKind};
use vstd::prelude::*;

verus! {

/// Where the decode loop stands.
#[derive(Debug, Clone, Copy, PartialEq, Eq, Structural)]
pub enum Phase {
    /// Next: read a packet.
    Reading,
    /// A packet went to this decoder; next: pull a frame from it.
    Fed(MediaKind),
    /// The input is exhausted; the `next`-th decoder is being drained, its end of input
    /// already signalled or not.
    Flushing { next: usize, eof_sent: bool },
    /// End of stream, or a fatal error: nothing more to do.
    Finished,
}

/// What the loop asks of the demuxer or a decoder next.
#[derive(Debug, Clone, Copy, PartialEq, Eq, Structural)]
pub enum Request {
    ReadPacket,
    Receive(MediaKind),
    SendEof(MediaKind),
    Stop,
}

/// What one answer yields.
#[derive(Debug, Clone, Copy, PartialEq, Eq, Structural)]
pub enum Step {
    /// The decoder of this kind handed out a frame.
    Frame(MediaKind),
    /// Nothing to hand out; ask for the next request.
    Continue,
    /// No frame: transient for `NoFramesYet`, fatal otherwise.
    Failed(DecodeError),
    /// Every decoder has been drained.
    EndOfStream,
}

/// The decoders of a session and where their loop stands.
#[derive(Debug, Clone, Copy, PartialEq, Eq, Structural)]
pub struct DecodeIter {
    pub decoders: Decoder,
    pub phase: Phase,
}

/// The loop's phases stay within the configured decoders.
pub open spec fn phase_wf(d: Decoder, p: Phase) -> bool {
    match p {
        Phase::Fed(kind) => d.stream_of(kind) is Some,
        Phase::Flushing { next, .. } => next < d.kinds().len(),
        _ => true,
    }
}

impl DecodeIter {
    pub open spec fn wf(&self) -> bool {
        phase_wf(self.decoders, self.phase)
    }

    /// A loop over `decoders` that has read nothing yet.
    pub fn new(decoders: Decoder) -> (r: Self)
        ensures
            r.decoders == decoders,
            r.phase == Phase::Reading,
            r.wf(),
    {
        DecodeIter { decoders, phase: Phase::Reading }
    }

    /// What to do next.
    pub fn request(&self) -> (r: Request)
        requires
            self.wf(),
        ensures
            self.phase == Phase::Reading ==> r == Request::ReadPacket,
            self.phase matches Phase::Fed(k) ==> r == Request::Receive(k),
            self.phase matches Phase::Flushing { next, eof_sent } ==> r == (if eof_sent {
                Request::Receive(self.decoders.kinds()[next as int])
            } else {
                Request::SendEof(self.decoders.kinds()[next as int])
            }),
            self.phase == Phase::Finished ==> r == Request::Stop,
    {
        match self.phase {
            Phase::Reading => Request::ReadPacket,
            Phase::Fed(k) => Request::Receive(k),
            Phase::Flushing { next, eof_sent } => {
                let k = self.decoders.kind_at(next);
                if eof_sent {
                    Request::Receive(k)
                } else {
                    Request::SendEof(k)
                }
            },
            Phase::Finished => Request::Stop,
        }
    }

    /// A packet of stream `stream_idx` was read: it goes to its decoder, or is dropped when
    /// no decoder reads that stream.
    pub fn on_packet(&mut self, stream_idx: usize) -> (r: Step)
        requires
            old(self).wf(),
            old(self).phase == Phase::Reading,
        ensures
            final(self).wf(),
            final(self).decoders == old(self).decoders,
            old(self).decoders.stream_of(MediaKind::Video) == Some(stream_idx) ==> final(self).phase
                == Phase::Fed(MediaKind::Video) && r == Step::Continue,
            old(self).decoders.stream_of(MediaKind::Video) != Some(stream_idx)
                && old(self).decoders.stream_of(MediaKind::Audio) == Some(stream_idx) ==> final(self).phase == Phase::Fed(MediaKind::Audio) && r == Step::Continue,
            old(self).decoders.stream_of(MediaKind::Video) != Some(stream_idx)
                && old(self).decoders.stream_of(MediaKind::Audio) != Some(stream_idx) ==> final(self).phase == Phase::Reading && r == Step::Failed(DecodeError::NoFramesYet),
    {
        match self.decoders.send_packet(stream_idx) {
            Some(kind) => {
                self.phase = Phase::Fed(kind);
                Step::Continue
            },
            None => Step::Failed(DecodeError::NoFramesYet),
        }
    }

    /// The demuxer has no more packets: drain the decoders, video first.
    pub fn on_input_end(&mut self) -> (r: Step)
        requires
            old(self).wf(),
            old(self).phase == Phase::Reading,
        ensures
            final(self).wf(),
            final(self).decoders == old(self).decoders,
            final(self).phase == (Phase::Flushing { next: 0, eof_sent: false }),
            r == Step::Continue,
    {
        self.phase = Phase::Flushing { next: 0, eof_sent: false };
        Step::Continue
    }

    /// The decoder being drained was told of the end of input, with `result`.
    pub fn on_eof_sent(&mut self, result: Result<(), FfmpegError>) -> (r: Step)
        requires
            old(self).wf(),
            old(self).phase matches Phase::Flushing { eof_sent, .. } && !eof_sent,
        ensures
            final(self).wf(),
            final(self).decoders == old(self).decoders,
            result is Ok ==> final(self).phase == (Phase::Flushing {
                next: old(self).phase->next,
                eof_sent: true,
            }) && r == Step::Continue,
            result matches Err(e) ==> final(self).phase == Phase::Finished && r == Step::Failed(
                DecodeError::FfmpegError(e),
            ),
    {
        match (self.phase, result) {
            (Phase::Flushing { next, .. }, Ok(())) => {
                self.phase = Phase::Flushing { next, eof_sent: true };
                Step::Continue
            },
            (_, Err(e)) => {
                self.phase = Phase::Finished;
                Step::Failed(DecodeError::FfmpegError(e))
            },
            (_, Ok(())) => Step::Continue,
        }
    }

    /// A frame was asked of the current decoder, with `result`: `Ok` when it handed one out.
    pub fn on_received(&mut self, result: Result<(), FfmpegError>) -> (r: Step)
        requires
            old(self).wf(),
            old(self).phase is Fed || (old(self).phase matches Phase::Flushing { eof_sent, .. }
                && eof_sent),
        ensures
            final(self).wf(),
            final(self).decoders == old(self).decoders,
            old(self).phase matches Phase::Fed(k) ==> (match result {
                Ok(()) => final(self).phase == Phase::Reading && r == Step::Frame(k),
                Err(e) => r == Step::Failed(error_of(e)) && final(self).phase == (if error_of(e)
                    == DecodeError::NoFramesYet {
                    Phase::Reading
                } else {
                    Phase::Finished
                }),
            }),
            old(self).phase matches Phase::Flushing { next, .. } ==> (match result {
                Ok(()) => final(self).phase == old(self).phase && r == Step::Frame(
                    old(self).decoders.kinds()[next as int],
                ),
                Err(e) => if e == FfmpegError::Eof || error_of(e) == DecodeError::NoFramesYet {
                    if next + 1 < old(self).decoders.kinds().len() {
                        final(self).phase == (Phase::Flushing { next: (next + 1) as usize, eof_sent: false })
                            && r == Step::Continue
                    } else {
                        final(self).phase == Phase::Finished && r == Step::EndOfStream
                    }
                } else {
                    final(self).phase == Phase::Finished && r == Step::Failed(DecodeError::FfmpegError(e))
                },
            }),
    {
        match (self.phase, result) {
            (Phase::Fed(k), Ok(())) => {
                self.phase = Phase::Reading;
                Step::Frame(k)
            },
            (Phase::Fed(_), Err(e)) => {
                let err = DecodeError::from_ffmpeg(e);
                if err.is_transient() {
                    self.phase = Phase::Reading;
                } else {
                    self.phase = Phase::Finished;
                }
                Step::Failed(err)
            },
            (Phase::Flushing { next, .. }, Ok(())) => Step::Frame(self.decoders.kind_at(next)),
            (Phase::Flushing { next, .. }, Err(e)) => {
                let drained = match e {
                    FfmpegError::Eof => true,
                    _ => DecodeError::from_ffmpeg(e).is_transient(),
                };
                if drained {
                    if next + 1 < self.decoders.kind_count() {
                        self.phase = Phase::Flushing { next: next + 1, eof_sent: false };
                        Step::Continue
                    } else {
                        self.phase = Phase::Finished;
                        Step::EndOfStream
                    }
                } else {
                    self.phase = Phase::Finished;
                    Step::Failed(DecodeError::FfmpegError(e))
                }
            },
            _ => Step::Continue,
        }
    }
}

} // verus!
