use cc_streaming::dimensions::{Dimension, ResolutionHint};
use cc_streaming::web::session_hint;

#[test]
fn fixed_aspect_width() {
    let hint = ResolutionHint::fixed_aspect(Dimension::Width, 160);
    assert_eq!(hint.get_target_res(1920, 1080), (160, 90));
}

#[test]
fn fixed_aspect_height() {
    let hint = ResolutionHint::fixed_aspect(Dimension::Height, 90);
    assert_eq!(hint.get_target_res(1920, 1080), (160, 90));
    // 100 * 4 / 3 = 133.33 rounds down, 50 * 3 / 2 = 75 stays.
    let hint = ResolutionHint::fixed_aspect(Dimension::Height, 100);
    assert_eq!(hint.get_target_res(4, 3), (133, 100));
}

#[test]
fn fixed_aspect_rounds_half_up() {
    // 3 * 1 / 2 = 1.5
    let hint = ResolutionHint::fixed_aspect(Dimension::Width, 3);
    assert_eq!(hint.get_target_res(2, 1), (3, 2));
}

#[test]
fn fixed_resolution_ignores_source() {
    let hint = ResolutionHint::fixed_resolution(128, 72);
    assert_eq!(hint.get_target_res(1920, 1080), (128, 72));
    assert_eq!(hint.get_target_res(3, 7), (128, 72));
}

#[test]
fn fit_landscape_height_bound() {
    let hint = session_hint(256, 192);
    assert_eq!(hint, ResolutionHint::fit(256, 192, 2, 3));
    // 1920x1080 with pixels 2/3 as wide: ratio 32/27, height-bound: 192 * 32 / 27 = 227.6.
    assert_eq!(hint.get_target_res(1920, 1080), (228, 192));
}

#[test]
fn fit_landscape_width_bound() {
    let hint = ResolutionHint::fit(256, 192, 2, 3);
    // 4000x1000: ratio 8/3, width-bound: 256 * 3 / 8 = 96.
    assert_eq!(hint.get_target_res(4000, 1000), (256, 96));
}

#[test]
fn fit_portrait() {
    let hint = ResolutionHint::fit(256, 192, 2, 3);
    // 1080x1920: ratio 3/8, height-bound: 192 * 3 / 8 = 72.
    assert_eq!(hint.get_target_res(1080, 1920), (72, 192));
    let square = ResolutionHint::fit(100, 100, 1, 1);
    assert_eq!(square.get_target_res(500, 1000), (50, 100));
    assert_eq!(square.get_target_res(1000, 500), (100, 50));
}
