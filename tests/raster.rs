use cc_streaming::dfpwm::DfpwmEncoder;
use cc_streaming::raster::RgbImage;
use cc_streaming::web::{audio_message, WireMessage, QUEUE_CAPACITY};

#[test]
fn from_raw_packs_triples() {
    let img = RgbImage::from_raw(2, 1, vec![1, 2, 3, 4, 5, 6]).unwrap();
    assert_eq!(img.pixels, vec![[1, 2, 3], [4, 5, 6]]);
    assert_eq!((img.width(), img.height()), (2, 1));
    assert_eq!(img.get_pixel(1, 0), [4, 5, 6]);
}

#[test]
fn from_raw_rejects_wrong_length() {
    assert!(RgbImage::from_raw(2, 1, vec![1, 2, 3, 4, 5]).is_none());
    assert!(RgbImage::from_raw(2, 2, vec![0; 6]).is_none());
    assert!(RgbImage::from_pixels(2, 2, vec![[0, 0, 0]; 3]).is_none());
}

#[test]
fn audio_message_packs_bits() {
    let mut enc = DfpwmEncoder::new();
    match audio_message(&mut enc, &[127; 9]) {
        WireMessage::Audio(a) => assert_eq!(a.samples, vec![0xFF, 0x80]),
        WireMessage::Video(_) => panic!("expected audio"),
    }
    assert_eq!(QUEUE_CAPACITY, 5);
}
