//! Unit tests of the verified canvas, blitter and per-pixel compositing.

use compositor::buffer::{blit, PixelBuffer};
use compositor::pixel::{background_pixel, blend_over, Pixel};

const RED: Pixel = Pixel { r: 255, g: 0, b: 0, a: 255 };

#[test]
fn filled_sets_every_pixel() {
    let buf = PixelBuffer::filled(3, 2, RED);
    assert_eq!(buf.width, 3);
    assert_eq!(buf.height, 2);
    assert_eq!(buf.pixels.len(), 6);
    for y in 0..2 {
        for x in 0..3 {
            assert_eq!(buf.pixel_at(x, y), RED);
        }
    }
}

#[test]
fn blit_overwrites_with_opaque_source() {
    let bg = background_pixel();
    let mut canvas = PixelBuffer::filled(4, 4, bg);
    let tile = PixelBuffer::filled(2, 2, RED);
    blit(&mut canvas, &tile, 1, 1);
    for y in 0..4 {
        for x in 0..4 {
            let want = if (1..3).contains(&x) && (1..3).contains(&y) {
                RED
            } else {
                bg
            };
            assert_eq!(canvas.pixel_at(x, y), want, "pixel at ({x}, {y})");
        }
    }
}

#[test]
fn blit_clips_source_pixels_outside_the_destination() {
    let bg = background_pixel();
    let mut canvas = PixelBuffer::filled(4, 4, bg);
    let tile = PixelBuffer::filled(3, 3, RED);
    blit(&mut canvas, &tile, 2, 2);
    assert_eq!(canvas.width, 4);
    assert_eq!(canvas.height, 4);
    assert_eq!(canvas.pixels.len(), 16);
    for y in 0..4 {
        for x in 0..4 {
            let want = if x >= 2 && y >= 2 { RED } else { bg };
            assert_eq!(canvas.pixel_at(x, y), want, "pixel at ({x}, {y})");
        }
    }
}

#[test]
fn blend_opaque_source_replaces_destination() {
    let dst = Pixel { r: 1, g: 2, b: 3, a: 255 };
    assert_eq!(blend_over(RED, dst), RED);
}

#[test]
fn blend_transparent_source_keeps_destination() {
    let src = Pixel { r: 200, g: 100, b: 50, a: 0 };
    let dst = Pixel { r: 1, g: 2, b: 3, a: 255 };
    assert_eq!(blend_over(src, dst), dst);
}

#[test]
fn blend_half_alpha_has_exact_integer_value() {
    let src = Pixel { r: 255, g: 0, b: 0, a: 128 };
    let dst = Pixel { r: 0, g: 0, b: 255, a: 255 };
    // alpha: 128 + 255 * 127 / 255 = 255
    // red:   (255 * 128 * 255 + 0) / (255 * 255) = 128
    // blue:  (0 + 255 * 255 * 127) / (255 * 255) = 127
    assert_eq!(
        blend_over(src, dst),
        Pixel { r: 128, g: 0, b: 127, a: 255 }
    );
}

#[test]
fn blend_of_two_fully_transparent_pixels_is_zero() {
    let src = Pixel { r: 9, g: 8, b: 7, a: 0 };
    let dst = Pixel { r: 1, g: 2, b: 3, a: 0 };
    assert_eq!(blend_over(src, dst), Pixel { r: 0, g: 0, b: 0, a: 0 });
}
