use cc_streaming::palette::bucket::{max_range_from_slice, PixelBucket};
use cc_streaming::palette::dither::bayer_rank;
use cc_streaming::palette::range::{Channel, GreatestRange, Ranges};
use cc_streaming::palette::Palette;
use cc_streaming::raster::RgbImage;

fn image(width: u32, height: u32, pixels: Vec<[u8; 3]>) -> RgbImage {
    RgbImage::from_pixels(width, height, pixels).unwrap()
}

#[test]
fn median_cut_black_and_white() {
    let img = image(2, 1, vec![[0, 0, 0], [255, 255, 255]]);
    let palette = Palette::new(2, &img);
    assert_eq!(palette.palette(), &vec![[0, 0, 0], [255, 255, 255]]);
}

#[test]
fn median_cut_white_first_still_black_first() {
    let img = image(2, 1, vec![[255, 255, 255], [0, 0, 0]]);
    let palette = Palette::new(2, &img);
    assert_eq!(palette.palette(), &vec![[0, 0, 0], [255, 255, 255]]);
}

#[test]
fn palette_size_with_enough_distinct_pixels() {
    let pixels: Vec<[u8; 3]> = (0..64u32)
        .map(|i| [(i * 4) as u8, (255 - i * 3) as u8, ((i * 7) % 251) as u8])
        .collect();
    let img = image(8, 8, pixels.clone());
    for k in [1usize, 2, 3, 5, 16] {
        let palette = Palette::new(k, &img);
        assert_eq!(palette.len(), k);
        for c in palette.palette() {
            assert!(pixels.contains(c));
        }
    }
}

#[test]
fn palette_size_with_fewer_pixels() {
    let img = image(3, 1, vec![[1, 2, 3], [1, 2, 3], [9, 9, 9]]);
    let palette = Palette::new(16, &img);
    assert_eq!(palette.len(), 3);
}

#[test]
fn palette_single_colour_image() {
    let img = image(2, 2, vec![[7, 7, 7]; 4]);
    let palette = Palette::new(16, &img);
    assert_eq!(palette.palette(), &vec![[7, 7, 7]; 4]);
}

#[test]
fn palette_of_one_is_last_pixel() {
    let img = image(3, 1, vec![[10, 0, 0], [0, 20, 0], [0, 0, 30]]);
    let palette = Palette::new(1, &img);
    assert_eq!(palette.palette(), &vec![[0, 0, 30]]);
}

#[test]
fn palette_splits_widest_channel() {
    // Blue spans most, so the first cut sorts by blue.
    let img = image(4, 1, vec![[0, 0, 200], [5, 5, 0], [3, 3, 100], [1, 1, 50]]);
    let palette = Palette::new(2, &img);
    assert_eq!(palette.palette(), &vec![[1, 1, 50], [0, 0, 200]]);
}

#[test]
fn ranges_track_extents() {
    let mut r = Ranges::new([10, 20, 30]);
    r.update([5, 25, 30]);
    r.update([12, 21, 0]);
    assert_eq!(r.min, [5, 20, 0]);
    assert_eq!(r.max, [12, 25, 30]);
    assert_eq!(r.greatest(), GreatestRange { range: 30, channel: Channel::Blue });
}

#[test]
fn greatest_range_prefers_red_then_green_on_ties() {
    let px = vec![[0, 0, 0], [10, 10, 10]];
    assert_eq!(
        max_range_from_slice(&px, 0, 2),
        GreatestRange { range: 10, channel: Channel::Red }
    );
    let px = vec![[0, 0, 0], [1, 10, 10]];
    assert_eq!(
        max_range_from_slice(&px, 0, 2),
        GreatestRange { range: 10, channel: Channel::Green }
    );
    assert_eq!(
        max_range_from_slice(&px, 1, 1),
        GreatestRange { range: 0, channel: Channel::Red }
    );
}

#[test]
fn split_at_median_floor_midpoint() {
    let b = PixelBucket { start: 3, end: 8, max_range: None };
    let (l, r) = b.split_at_median();
    assert_eq!(l, PixelBucket { start: 3, end: 5, max_range: None });
    assert_eq!(r, PixelBucket { start: 5, end: 8, max_range: None });
}

#[test]
fn bucket_sorts_its_run_only() {
    let mut px = vec![[9, 9, 9], [50, 0, 0], [10, 0, 0], [30, 0, 0], [1, 1, 1]];
    let mut b = PixelBucket::new(1, 4, &px);
    b.sort_by_greatest_range(&mut px);
    assert_eq!(px, vec![[9, 9, 9], [10, 0, 0], [30, 0, 0], [50, 0, 0], [1, 1, 1]]);
    assert_eq!(b.max_range, Some(GreatestRange { range: 40, channel: Channel::Red }));
}

#[test]
fn bucket_max_range_is_cached() {
    let px = vec![[0, 0, 0], [0, 9, 0]];
    let mut b = PixelBucket { start: 0, end: 2, max_range: None };
    let g = b.max_range(&px);
    assert_eq!(g, GreatestRange { range: 9, channel: Channel::Green });
    assert_eq!(b.max_range, Some(g));
}

#[test]
fn average_colors_blends_to_last() {
    let px = vec![[1, 2, 3], [4, 5, 6], [7, 8, 9]];
    let b = PixelBucket { start: 0, end: 3, max_range: None };
    assert_eq!(b.average_colors(&px), [7, 8, 9]);
    let empty = PixelBucket { start: 2, end: 2, max_range: None };
    assert_eq!(empty.average_colors(&px), [0, 0, 0]);
}

#[test]
fn bayer_threshold_order() {
    // Cells (row, column) (0,0) and (2,2) get the lowest thresholds, so they fall to the
    // lower entry more often than (0,1) and (3,3).
    assert_eq!(bayer_rank(0, 0), 0);
    assert_eq!(bayer_rank(2, 2), 1);
    assert_eq!(bayer_rank(1, 0), 12);
    assert_eq!(bayer_rank(3, 3), 5);
    assert!(bayer_rank(0, 0) < bayer_rank(1, 0));
    assert!(bayer_rank(2, 2) < bayer_rank(3, 3));
    assert_eq!(bayer_rank(4, 5), bayer_rank(0, 1));
    let mut seen = [false; 16];
    for y in 0..4 {
        for x in 0..4 {
            seen[bayer_rank(x, y) as usize] = true;
        }
    }
    assert!(seen.iter().all(|s| *s));
}

#[test]
fn palette_size_with_repeated_pixels() {
    let pixels = vec![
        [0, 0, 0],
        [0, 0, 0],
        [90, 0, 0],
        [90, 0, 0],
        [0, 180, 0],
        [0, 180, 0],
        [0, 0, 250],
        [0, 0, 250],
    ];
    let img = image(4, 2, pixels.clone());
    let palette = Palette::new(4, &img);
    assert_eq!(palette.len(), 4);
    for c in palette.palette() {
        assert!(pixels.contains(c));
    }
}
