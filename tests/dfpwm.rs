use cc_streaming::dfpwm::{DfpwmEncoder, STRENGTH_FLOOR};

#[test]
fn silence_alternates_and_keeps_charge() {
    let mut enc = DfpwmEncoder::new();
    let out = enc.encode(&[0; 64]);
    assert_eq!(out.len(), 8);
    // The first bit is low (level equals charge, charge is not 127); the rule then
    // alternates the bits around a charge of zero.
    assert_eq!(out[0] & 0x80, 0);
    assert_eq!(out, vec![0x55; 8]);
    assert_eq!(enc.charge, 0);
    assert!(enc.previous_bit);
}

#[test]
fn saturation_emits_all_ones() {
    let mut enc = DfpwmEncoder::new();
    let out = enc.encode(&[127; 16]);
    assert_eq!(out, vec![0xFF, 0xFF]);
    assert_eq!(enc.charge, 26);
    assert!(enc.charge > 0);
}

#[test]
fn saturation_charge_rises() {
    let mut enc = DfpwmEncoder::new();
    let mut last = enc.charge;
    for _ in 0..16 {
        enc.encode(&[127]);
        assert!(enc.charge > last);
        last = enc.charge;
    }
}

#[test]
fn partial_byte_is_zero_padded() {
    let mut enc = DfpwmEncoder::new();
    assert_eq!(enc.encode(&[127; 3]), vec![0xE0]);
    assert_eq!(enc.charge, 3);
    assert_eq!(enc.strength, 10);
}

#[test]
fn empty_input_gives_no_bytes() {
    let mut enc = DfpwmEncoder::new();
    assert!(enc.encode(&[]).is_empty());
    assert_eq!(enc, DfpwmEncoder::new());
}

#[test]
fn mixed_levels_exact() {
    let mut enc = DfpwmEncoder::new();
    assert_eq!(enc.encode(&[10, -20, 30, -40, 50]), vec![0xA8]);
    assert_eq!((enc.charge, enc.strength, enc.previous_bit), (1, 8, true));
}

#[test]
fn deterministic_from_same_state() {
    let levels = [5, -7, 100, -128, 127, 0, 3, 3, -90, 44];
    let mut a = DfpwmEncoder::new();
    a.encode(&[12, 99]);
    let mut b = a;
    assert_eq!(a.encode(&levels), b.encode(&levels));
    assert_eq!(a, b);
}

#[test]
fn resumable_across_calls() {
    let levels: Vec<i32> = (0..40).map(|i| ((i * 37) % 256) - 128).collect();
    let mut whole = DfpwmEncoder::new();
    let all = whole.encode(&levels);
    let mut split = DfpwmEncoder::new();
    let mut first = split.encode(&levels[..16]);
    let second = split.encode(&levels[16..]);
    first.extend(second);
    assert_eq!(all, first);
    assert_eq!(whole, split);
}

#[test]
fn resumable_bits_on_odd_split() {
    let mut whole = DfpwmEncoder::new();
    assert_eq!(whole.encode(&[10, -20, 30, -40, 50]), vec![0xA8]);
    let mut split = DfpwmEncoder::new();
    // 101 then 01: the same five bits.
    assert_eq!(split.encode(&[10, -20, 30]), vec![0xA0]);
    assert_eq!(split.encode(&[-40, 50]), vec![0x40]);
    assert_eq!(whole, split);
}

#[test]
fn strength_floor_after_one_sample() {
    for level in [-128, -1, 0, 1, 127] {
        let mut enc = DfpwmEncoder::new();
        enc.encode(&[level]);
        assert!(enc.strength >= STRENGTH_FLOOR);
        assert_eq!(STRENGTH_FLOOR, 8);
    }
}
