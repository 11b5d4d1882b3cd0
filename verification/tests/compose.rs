//! End-to-end tests of the compositor pipeline on real encoded images.

use compositor::compose;
use compositor::pipeline::{ComposeError, ImageSource};
use image::ImageEncoder;

const RED: [u8; 4] = [255, 0, 0, 255];
const BLUE: [u8; 4] = [0, 0, 255, 255];
const BACKGROUND: [u8; 4] = [20, 20, 20, 255];

/// PNG bytes of a solid-color, fully opaque image.
fn solid_png(width: u32, height: u32, rgba: [u8; 4]) -> Vec<u8> {
    let img = image::RgbaImage::from_pixel(width, height, image::Rgba(rgba));
    let mut out: Vec<u8> = Vec::new();
    let encoder = image::codecs::png::PngEncoder::new(&mut out);
    encoder
        .write_image(img.as_raw(), width, height, image::ColorType::Rgba8)
        .unwrap();
    out
}

fn decode_rgba(bytes: &[u8]) -> image::RgbaImage {
    image::load_from_memory(bytes).unwrap().to_rgba8()
}

fn in_rect(x: u32, y: u32, left: u32, top: u32, side: u32) -> bool {
    left <= x && x < left + side && top <= y && y < top + side
}

/// Checks that the output is the red/blue layout: the first overlay
/// rectangle all `first`, the second all `second`, everything else the
/// background color.
fn assert_layout(out: &[u8], first: [u8; 4], second: [u8; 4]) {
    let img = decode_rgba(out);
    assert_eq!(img.width(), 1200);
    assert_eq!(img.height(), 605);
    for y in 0..605u32 {
        for x in 0..1200u32 {
            let got = img.get_pixel(x, y).0;
            let want = if in_rect(x, y, 10, 10, 585) {
                first
            } else if in_rect(x, y, 605, 10, 585) {
                second
            } else {
                BACKGROUND
            };
            assert_eq!(got, want, "pixel at ({x}, {y})");
        }
    }
}

#[test]
fn output_is_png_1200_by_605() {
    let g0 = solid_png(100, 100, RED);
    let g1 = solid_png(300, 200, BLUE);
    let out = compose(&g0, &g1).unwrap();
    assert_eq!(&out[..8], &[0x89, 0x50, 0x4E, 0x47, 0x0D, 0x0A, 0x1A, 0x0A]);
    let img = decode_rgba(&out);
    assert_eq!(img.width(), 1200);
    assert_eq!(img.height(), 605);
}

#[test]
fn red_and_blue_fill_their_rectangles() {
    let g0 = solid_png(100, 100, RED);
    let g1 = solid_png(300, 200, BLUE);
    let out = compose(&g0, &g1).unwrap();
    assert_layout(&out, RED, BLUE);
}

#[test]
fn swapped_inputs_swap_sides() {
    let g0 = solid_png(300, 200, BLUE);
    let g1 = solid_png(100, 100, RED);
    let out = compose(&g0, &g1).unwrap();
    assert_layout(&out, BLUE, RED);
}

#[test]
fn extreme_aspect_ratios_still_fill_the_squares() {
    let g0 = solid_png(50, 400, RED);
    let g1 = solid_png(400, 50, BLUE);
    let out = compose(&g0, &g1).unwrap();
    assert_layout(&out, RED, BLUE);
}

#[test]
fn overlay_corners_hold_the_resized_top_left_pixels() {
    let g0 = solid_png(64, 64, RED);
    let g1 = solid_png(64, 64, BLUE);
    let out = compose(&g0, &g1).unwrap();
    let img = decode_rgba(&out);
    assert_eq!(img.get_pixel(10, 10).0, RED);
    assert_eq!(img.get_pixel(605, 10).0, BLUE);
    assert_eq!(img.get_pixel(9, 9).0, BACKGROUND);
    assert_eq!(img.get_pixel(604, 10).0, BACKGROUND);
    assert_eq!(img.get_pixel(595, 10).0, BACKGROUND);
    assert_eq!(img.get_pixel(1190, 594).0, BACKGROUND);
    assert_eq!(img.get_pixel(0, 604).0, BACKGROUND);
}

#[test]
fn malformed_first_input_yields_first_decode_error() {
    let g1 = solid_png(16, 16, BLUE);
    let garbage: Vec<u8> = vec![0x00, 0x01, 0x02, 0x03];
    assert_eq!(
        compose(&garbage, &g1),
        Err(ComposeError::DecodeFailed(ImageSource::First))
    );
}

#[test]
fn truncated_first_input_yields_first_decode_error() {
    let g1 = solid_png(16, 16, BLUE);
    let mut truncated = solid_png(16, 16, RED);
    truncated.truncate(6);
    assert_eq!(
        compose(&truncated, &g1),
        Err(ComposeError::DecodeFailed(ImageSource::First))
    );
}

#[test]
fn empty_first_input_yields_first_decode_error() {
    let g1 = solid_png(16, 16, BLUE);
    let empty: Vec<u8> = Vec::new();
    assert_eq!(
        compose(&empty, &g1),
        Err(ComposeError::DecodeFailed(ImageSource::First))
    );
}

#[test]
fn malformed_second_input_yields_second_decode_error() {
    let g0 = solid_png(16, 16, RED);
    let garbage: Vec<u8> = vec![0xFF; 32];
    assert_eq!(
        compose(&g0, &garbage),
        Err(ComposeError::DecodeFailed(ImageSource::Second))
    );
}

#[test]
fn both_inputs_malformed_names_the_first() {
    let garbage: Vec<u8> = vec![0xAB; 10];
    assert_eq!(
        compose(&garbage, &garbage),
        Err(ComposeError::DecodeFailed(ImageSource::First))
    );
}

#[test]
fn byte_identical_inputs_give_byte_identical_output() {
    let g0 = solid_png(100, 100, RED);
    let g1 = solid_png(300, 200, BLUE);
    let first = compose(&g0, &g1).unwrap();
    let second = compose(&g0, &g1).unwrap();
    assert_eq!(first, second);
}
