use cc_streaming::palette::Palette;
use cc_streaming::raster::RgbImage;
use cc_streaming::web::ws::{hex_digit, index_rows, StreamVideoFrame};

#[test]
fn rows_have_image_shape_and_hex_digits() {
    let indices: Vec<usize> = (0..12).map(|i| (i * 5) % 16).collect();
    let rows = index_rows(&indices, 4, 3);
    assert_eq!(rows.len(), 3);
    for row in &rows {
        assert_eq!(row.len(), 4);
        assert!(row.chars().all(|c| c.is_ascii_hexdigit() && !c.is_ascii_uppercase()));
    }
    assert_eq!(rows[0], "05af");
    assert_eq!(rows[1], "49e3");
    assert_eq!(rows[2], "8d27");
}

#[test]
fn rows_round_trip_to_indices() {
    let indices: Vec<usize> = (0..32).map(|i| (i * 7 + 3) % 16).collect();
    let rows = index_rows(&indices, 8, 4);
    for (y, row) in rows.iter().enumerate() {
        for (x, c) in row.chars().enumerate() {
            assert_eq!(c.to_digit(16).unwrap() as usize, indices[y * 8 + x]);
        }
    }
}

#[test]
fn hex_digits() {
    assert_eq!(hex_digit(0), '0');
    assert_eq!(hex_digit(9), '9');
    assert_eq!(hex_digit(10), 'a');
    assert_eq!(hex_digit(15), 'f');
}

#[test]
fn video_message_carries_palette_and_rows() {
    let img = RgbImage::from_pixels(2, 1, vec![[0, 0, 0], [255, 255, 255]]).unwrap();
    let palette = Palette::new(2, &img);
    let msg = StreamVideoFrame::new(&palette, &vec![0, 1], 2, 1);
    assert_eq!(msg.palette, vec![[0, 0, 0], [255, 255, 255]]);
    assert_eq!(msg.rows, vec!["01".to_string()]);
}

#[test]
fn empty_image_has_no_rows() {
    assert!(index_rows(&vec![], 0, 0).is_empty());
    assert_eq!(index_rows(&vec![], 0, 2), vec![String::new(), String::new()]);
}
