//! Which decoder each packet goes to, and what a decoding step yields.
pub mod iter;

use crate::dimensions::ResolutionHint;
use vstd::prelude::*;

verus! {

/// The `errno` with which a decoder asks for more input before it can yield a frame.
pub const EAGAIN: i32 = 11;

/// The two kinds of stream the gateway decodes.
#[derive(Debug, Clone, Copy, PartialEq, Eq, Structural)]
pub enum MediaKind {
    Video,
    Audio,
}

/// An error as the demuxer or a decoder reports it.
#[derive(Debug, Clone, Copy, PartialEq, Eq, Structural)]
pub enum FfmpegError {
    /// The end of the input, or of a drained decoder.
    Eof,
    /// A system error number.
    Other { errno: i32 },
    /// Any other failure, by its numeric code.
    Code(i32),
}

/// Why a decoding step produced no frame.
#[derive(Debug, Clone, Copy, PartialEq, Eq, Structural)]
pub enum DecodeError {
    /// The demuxer or a decoder failed.
    FfmpegError(FfmpegError),
    /// The decoder needs more input first; the caller retries.
    NoFramesYet,
    /// A frame could not be converted to an image.
    ImageError,
    /// A resampled audio buffer was not a whole number of 32-bit samples.
    AudioFrameLength,
    /// A frame of a kind that no decoder is configured for was asked for.
    NoSuchStream(MediaKind),
}

/// The error that an outside failure maps to: a request for more input is transient.
pub open spec fn error_of(e: FfmpegError) -> DecodeError {
    if e == (FfmpegError::Other { errno: EAGAIN }) {
        DecodeError::NoFramesYet
    } else {
        DecodeError::FfmpegError(e)
    }
}

impl DecodeError {
    /// Maps an outside failure: `EAGAIN` is `NoFramesYet`, anything else is kept.
    pub fn from_ffmpeg(e: FfmpegError) -> (r: Self)
        ensures
            r == error_of(e),
    {
        match e {
            FfmpegError::Other { errno } if errno == EAGAIN => DecodeError::NoFramesYet,
            _ => DecodeError::FfmpegError(e),
        }
    }

    /// Only `NoFramesYet` is retried; every other error ends the session.
    pub fn is_transient(&self) -> (r: bool)
        ensures
            r <==> *self == DecodeError::NoFramesYet,
    {
        match self {
            DecodeError::NoFramesYet => true,
            _ => false,
        }
    }
}

/// The number of 32-bit samples in a resampled buffer of `byte_len` bytes;
/// `AudioFrameLength` when it is not a whole number.
pub fn audio_sample_count(byte_len: usize) -> (r: Result<usize, DecodeError>)
    ensures
        byte_len % 4 == 0 ==> r == Ok::<usize, DecodeError>(byte_len / 4),
        byte_len % 4 != 0 ==> r == Err::<usize, DecodeError>(DecodeError::AudioFrameLength),
{
    if byte_len % 4 != 0 {
        Err(DecodeError::AudioFrameLength)
    } else {
        Ok(byte_len / 4)
    }
}

/// The decoders of a session: video, audio or both, with the stream each one reads.
#[derive(Debug, Clone, Copy, PartialEq, Eq, Structural)]
pub enum Decoder {
    VideoOnly { video_stream_idx: usize, resolution_hint: ResolutionHint },
    AudioOnly { audio_stream_idx: usize },
    Both {
        video_stream_idx: usize,
        resolution_hint: ResolutionHint,
        audio_stream_idx: usize,
    },
}

impl Decoder {
    /// The stream that the decoder of `kind` reads, if there is one.
    pub open spec fn stream_of(&self, kind: MediaKind) -> Option<usize> {
        match (*self, kind) {
            (Decoder::VideoOnly { video_stream_idx, .. }, MediaKind::Video) => Some(video_stream_idx),
            (Decoder::Both { video_stream_idx, .. }, MediaKind::Video) => Some(video_stream_idx),
            (Decoder::AudioOnly { audio_stream_idx }, MediaKind::Audio) => Some(audio_stream_idx),
            (Decoder::Both { audio_stream_idx, .. }, MediaKind::Audio) => Some(audio_stream_idx),
            _ => None,
        }
    }

    /// The configured decoders, video first.
    pub open spec fn kinds(&self) -> Seq<MediaKind> {
        match *self {
            Decoder::VideoOnly { .. } => seq![MediaKind::Video],
            Decoder::AudioOnly { .. } => seq![MediaKind::Audio],
            Decoder::Both { .. } => seq![MediaKind::Video, MediaKind::Audio],
        }
    }

    pub fn new_both(video_stream_idx: usize, audio_stream_idx: usize, resolution_hint: ResolutionHint) -> (r: Self)
        ensures
            r == (Decoder::Both { video_stream_idx, resolution_hint, audio_stream_idx }),
    {
        Decoder::Both { video_stream_idx, resolution_hint, audio_stream_idx }
    }

    pub fn new_audio_only(audio_stream_idx: usize) -> (r: Self)
        ensures
            r == (Decoder::AudioOnly { audio_stream_idx }),
    {
        Decoder::AudioOnly { audio_stream_idx }
    }

    pub fn new_video_only(video_stream_idx: usize, resolution_hint: ResolutionHint) -> (r: Self)
        ensures
            r == (Decoder::VideoOnly { video_stream_idx, resolution_hint }),
    {
        Decoder::VideoOnly { video_stream_idx, resolution_hint }
    }

    /// The decoder that a packet of stream `packet_stream_idx` goes to; `None` when no
    /// decoder reads that stream and the packet is dropped. With both decoders on one
    /// stream, video takes it.
    pub fn send_packet(&self, packet_stream_idx: usize) -> (r: Option<MediaKind>)
        ensures
            r == Some(MediaKind::Video) <==> self.stream_of(MediaKind::Video) == Some(packet_stream_idx),
            r == Some(MediaKind::Audio) <==> self.stream_of(MediaKind::Audio) == Some(packet_stream_idx)
                && self.stream_of(MediaKind::Video) != Some(packet_stream_idx),
    {
        match *self {
            Decoder::VideoOnly { video_stream_idx, .. } => {
                if packet_stream_idx == video_stream_idx {
                    Some(MediaKind::Video)
                } else {
                    None
                }
            },
            Decoder::AudioOnly { audio_stream_idx } => {
                if packet_stream_idx == audio_stream_idx {
                    Some(MediaKind::Audio)
                } else {
                    None
                }
            },
            Decoder::Both { video_stream_idx, audio_stream_idx, .. } => {
                if packet_stream_idx == video_stream_idx {
                    Some(MediaKind::Video)
                } else if packet_stream_idx == audio_stream_idx {
                    Some(MediaKind::Audio)
                } else {
                    None
                }
            },
        }
    }

    /// Whether a frame of `kind` may be asked for: `NoSuchStream` when no decoder of that
    /// kind is configured.
    pub fn check_stream(&self, kind: MediaKind) -> (r: Result<(), DecodeError>)
        ensures
            r is Ok <==> self.stream_of(kind) is Some,
            r is Err ==> r == Err::<(), DecodeError>(DecodeError::NoSuchStream(kind)),
    {
        match (*self, kind) {
            (Decoder::AudioOnly { .. }, MediaKind::Video) => Err(DecodeError::NoSuchStream(kind)),
            (Decoder::VideoOnly { .. }, MediaKind::Audio) => Err(DecodeError::NoSuchStream(kind)),
            _ => Ok(()),
        }
    }

    /// The sizing policy for video frames, when there is a video decoder.
    pub fn resolution_hint(&self) -> (r: Option<ResolutionHint>)
        ensures
            r is Some <==> self.stream_of(MediaKind::Video) is Some,
            r matches Some(h) ==> (*self matches Decoder::VideoOnly { resolution_hint, .. } && h
                == resolution_hint) || (*self matches Decoder::Both { resolution_hint, .. } && h
                == resolution_hint),
    {
        match *self {
            Decoder::VideoOnly { resolution_hint, .. } => Some(resolution_hint),
            Decoder::Both { resolution_hint, .. } => Some(resolution_hint),
            Decoder::AudioOnly { .. } => None,
        }
    }

    /// The decode loop over these decoders, before its first packet.
    pub fn into_frame_iter(self) -> (r: iter::DecodeIter)
        ensures
            r.decoders == self,
            r.phase == iter::Phase::Reading,
            r.wf(),
    {
        iter::DecodeIter::new(self)
    }

    /// Number of configured decoders.
    pub fn kind_count(&self) -> (r: usize)
        ensures
            r == self.kinds().len(),
    {
        match *self {
            Decoder::Both { .. } => 2,
            _ => 1,
        }
    }

    /// The `i`-th configured decoder, video first.
    pub fn kind_at(&self, i: usize) -> (r: MediaKind)
        requires
            i < self.kinds().len(),
        ensures
            r == self.kinds()[i as int],
    {
        match *self {
            Decoder::VideoOnly { .. } => MediaKind::Video,
            Decoder::AudioOnly { .. } => MediaKind::Audio,
            Decoder::Both { .. } => if i == 0 {
                MediaKind::Video
            } else {
                MediaKind::Audio
            },
        }
    }
}

} // verus!
