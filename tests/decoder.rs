use cc_streaming::decoder::iter::{DecodeIter, Phase, Request, Step};
use cc_streaming::decoder::{
    audio_sample_count, DecodeError, Decoder, FfmpegError, MediaKind, EAGAIN,
};
use cc_streaming::dimensions::ResolutionHint;
use cc_streaming::web::{worker_action, WorkerAction};

fn both() -> Decoder {
    Decoder::new_both(0, 1, ResolutionHint::fixed_resolution(8, 8))
}

#[test]
fn packets_route_by_stream() {
    let d = both();
    assert_eq!(d.send_packet(0), Some(MediaKind::Video));
    assert_eq!(d.send_packet(1), Some(MediaKind::Audio));
    assert_eq!(d.send_packet(2), None);
    let v = Decoder::new_video_only(3, ResolutionHint::fixed_resolution(8, 8));
    assert_eq!(v.send_packet(3), Some(MediaKind::Video));
    assert_eq!(v.send_packet(0), None);
    let a = Decoder::new_audio_only(0);
    assert_eq!(a.send_packet(0), Some(MediaKind::Audio));
    assert_eq!(a.send_packet(1), None);
}

#[test]
fn wrong_kind_is_no_such_stream() {
    let a = Decoder::new_audio_only(0);
    assert_eq!(a.check_stream(MediaKind::Video), Err(DecodeError::NoSuchStream(MediaKind::Video)));
    assert_eq!(a.check_stream(MediaKind::Audio), Ok(()));
    let v = Decoder::new_video_only(0, ResolutionHint::fixed_resolution(8, 8));
    assert_eq!(v.check_stream(MediaKind::Audio), Err(DecodeError::NoSuchStream(MediaKind::Audio)));
    assert_eq!(both().check_stream(MediaKind::Audio), Ok(()));
    assert_eq!(a.resolution_hint(), None);
    assert_eq!(v.resolution_hint(), Some(ResolutionHint::fixed_resolution(8, 8)));
}

#[test]
fn eagain_is_transient() {
    assert_eq!(
        DecodeError::from_ffmpeg(FfmpegError::Other { errno: EAGAIN }),
        DecodeError::NoFramesYet
    );
    assert_eq!(
        DecodeError::from_ffmpeg(FfmpegError::Other { errno: 5 }),
        DecodeError::FfmpegError(FfmpegError::Other { errno: 5 })
    );
    assert!(DecodeError::NoFramesYet.is_transient());
    assert!(!DecodeError::ImageError.is_transient());
}

#[test]
fn audio_length_must_be_whole_samples() {
    assert_eq!(audio_sample_count(16), Ok(4));
    assert_eq!(audio_sample_count(0), Ok(0));
    assert_eq!(audio_sample_count(7), Err(DecodeError::AudioFrameLength));
}

#[test]
fn read_feed_receive_cycle() {
    let mut it = DecodeIter::new(both());
    assert_eq!(it.request(), Request::ReadPacket);
    assert_eq!(it.on_packet(1), Step::Continue);
    assert_eq!(it.request(), Request::Receive(MediaKind::Audio));
    assert_eq!(it.on_received(Ok(())), Step::Frame(MediaKind::Audio));
    assert_eq!(it.request(), Request::ReadPacket);
    assert_eq!(it.on_packet(0), Step::Continue);
    assert_eq!(
        it.on_received(Err(FfmpegError::Other { errno: EAGAIN })),
        Step::Failed(DecodeError::NoFramesYet)
    );
    assert_eq!(it.phase, Phase::Reading);
}

#[test]
fn foreign_packets_are_dropped() {
    let mut it = DecodeIter::new(both());
    assert_eq!(it.on_packet(9), Step::Failed(DecodeError::NoFramesYet));
    assert_eq!(it.request(), Request::ReadPacket);
}

#[test]
fn fatal_error_finishes() {
    let mut it = DecodeIter::new(both());
    it.on_packet(0);
    assert_eq!(
        it.on_received(Err(FfmpegError::Code(-22))),
        Step::Failed(DecodeError::FfmpegError(FfmpegError::Code(-22)))
    );
    assert_eq!(it.request(), Request::Stop);
}

#[test]
fn input_end_drains_every_decoder() {
    let mut it = DecodeIter::new(both());
    assert_eq!(it.on_input_end(), Step::Continue);
    assert_eq!(it.request(), Request::SendEof(MediaKind::Video));
    assert_eq!(it.on_eof_sent(Ok(())), Step::Continue);
    assert_eq!(it.request(), Request::Receive(MediaKind::Video));
    assert_eq!(it.on_received(Ok(())), Step::Frame(MediaKind::Video));
    assert_eq!(it.on_received(Err(FfmpegError::Eof)), Step::Continue);
    assert_eq!(it.request(), Request::SendEof(MediaKind::Audio));
    assert_eq!(it.on_eof_sent(Ok(())), Step::Continue);
    assert_eq!(it.on_received(Ok(())), Step::Frame(MediaKind::Audio));
    assert_eq!(it.on_received(Err(FfmpegError::Eof)), Step::EndOfStream);
    assert_eq!(it.request(), Request::Stop);
}

#[test]
fn eof_refused_is_fatal() {
    let mut it = DecodeIter::new(Decoder::new_audio_only(0));
    it.on_input_end();
    assert_eq!(
        it.on_eof_sent(Err(FfmpegError::Code(-1))),
        Step::Failed(DecodeError::FfmpegError(FfmpegError::Code(-1)))
    );
    assert_eq!(it.request(), Request::Stop);
}

#[test]
fn worker_reactions() {
    assert_eq!(worker_action(Step::Frame(MediaKind::Video)), WorkerAction::SendVideo);
    assert_eq!(worker_action(Step::Frame(MediaKind::Audio)), WorkerAction::SendAudio);
    assert_eq!(worker_action(Step::Continue), WorkerAction::Retry);
    assert_eq!(worker_action(Step::Failed(DecodeError::NoFramesYet)), WorkerAction::Retry);
    assert_eq!(worker_action(Step::Failed(DecodeError::ImageError)), WorkerAction::Stop);
    assert_eq!(worker_action(Step::EndOfStream), WorkerAction::Stop);
}
