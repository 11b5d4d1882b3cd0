//! The compositor pipeline: decode and resize both inputs, fill the canvas,
//! composite the two resized images onto it, and serialize the canvas as PNG.

use vstd::prelude::*;

use crate::buffer::{blit, blit_pixel, in_rect, lemma_row_major_index_bounds, PixelBuffer};
use crate::codec::{decode_and_resize, decoded_resized, encode_png, png_encoding};
use crate::pixel::{background, background_pixel, lemma_blend_opaque, spec_blend, Pixel};

verus! {

/// Width of the output canvas in pixels.
pub const CANVAS_WIDTH: usize = 1200;

/// Height of the output canvas in pixels.
pub const CANVAS_HEIGHT: usize = 605;

/// Side length of each resized input: both inputs become exact squares of
/// this size, whatever their source dimensions or aspect ratio.
pub const RESIZED_SIDE: usize = 585;

/// Left and top margin of the first overlay; also the top margin of the
/// second.
pub const MARGIN: usize = 10;

/// Left edge of the second overlay.
pub const SECOND_LEFT: usize = 605;

/// Which input image an error refers to.
#[derive(Clone, Copy, PartialEq, Eq, Structural, Debug)]
pub enum ImageSource {
    First,
    Second,
}

/// Why composition failed: one of the inputs could not be decoded as an
/// image, or the finished canvas could not be serialized. No partial output
/// accompanies an error.
#[derive(Clone, Copy, PartialEq, Eq, Structural, Debug)]
pub enum ComposeError {
    DecodeFailed(ImageSource),
    EncodeFailed,
}

/// Whether `(x, y)` lies under the first resized image.
pub open spec fn in_first_overlay(x: int, y: int) -> bool {
    in_rect(x, y, MARGIN as int, MARGIN as int, RESIZED_SIDE as int, RESIZED_SIDE as int)
}

/// Whether `(x, y)` lies under the second resized image.
pub open spec fn in_second_overlay(x: int, y: int) -> bool {
    in_rect(x, y, SECOND_LEFT as int, MARGIN as int, RESIZED_SIDE as int, RESIZED_SIDE as int)
}

/// The finished canvas pixel at `(x, y)`, given the pixels `a` and `b` of
/// the two resized inputs: under an overlay, the resized pixel blended over
/// the background; everywhere else the untouched background. The two overlay
/// rectangles are disjoint, so at most one case applies.
pub open spec fn composed_pixel(a: Seq<Pixel>, b: Seq<Pixel>, x: int, y: int) -> Pixel {
    if in_first_overlay(x, y) {
        spec_blend(a[(y - MARGIN) * (RESIZED_SIDE as int) + (x - MARGIN)], background())
    } else if in_second_overlay(x, y) {
        spec_blend(b[(y - MARGIN) * (RESIZED_SIDE as int) + (x - SECOND_LEFT)], background())
    } else {
        background()
    }
}

/// The finished canvas, row-major.
pub open spec fn composed_canvas(a: Seq<Pixel>, b: Seq<Pixel>) -> Seq<Pixel> {
    Seq::new(
        (CANVAS_WIDTH * CANVAS_HEIGHT) as nat,
        |i: int| composed_pixel(a, b, i % (CANVAS_WIDTH as int), i / (CANVAS_WIDTH as int)),
    )
}

/// What `compose` returns, as a function of the input bytes alone: the PNG
/// serialization of the composed canvas when both inputs decode and the
/// encoder succeeds, and otherwise the error naming the stage — and for a
/// decode failure the input — that failed. The first input is decoded first,
/// so when both are malformed the error names the first.
pub open spec fn compose_spec(g0: Seq<u8>, g1: Seq<u8>) -> Result<Seq<u8>, ComposeError> {
    let d0 = decoded_resized(g0, RESIZED_SIDE as nat, RESIZED_SIDE as nat);
    let d1 = decoded_resized(g1, RESIZED_SIDE as nat, RESIZED_SIDE as nat);
    if d0 is None {
        Err(ComposeError::DecodeFailed(ImageSource::First))
    } else if d1 is None {
        Err(ComposeError::DecodeFailed(ImageSource::Second))
    } else {
        match png_encoding(
            CANVAS_WIDTH as nat,
            CANVAS_HEIGHT as nat,
            composed_canvas(d0.unwrap(), d1.unwrap()),
        ) {
            Some(bytes) => Ok(bytes),
            None => Err(ComposeError::EncodeFailed),
        }
    }
}

/// A composition result with its payload read back as a byte sequence.
pub open spec fn as_byte_result(r: Result<Vec<u8>, ComposeError>) -> Result<
    Seq<u8>,
    ComposeError,
> {
    match r {
        Ok(v) => Ok(v@),
        Err(e) => Err(e),
    }
}

/// Decodes the two encoded inputs, resizes each to an exact
/// `RESIZED_SIDE`-square, composites them side by side over the background
/// canvas, and returns the canvas serialized as a PNG — or the error saying
/// which stage failed. All-or-nothing: on any error no output bytes exist.
pub fn compose(g0: &[u8], g1: &[u8]) -> (out: Result<Vec<u8>, ComposeError>)
    ensures
        as_byte_result(out) == compose_spec(g0@, g1@),
{
    let a = match decode_and_resize(g0, RESIZED_SIDE as u32, RESIZED_SIDE as u32) {
        Some(p) => p,
        None => {
            return Err(ComposeError::DecodeFailed(ImageSource::First));
        },
    };
    let b = match decode_and_resize(g1, RESIZED_SIDE as u32, RESIZED_SIDE as u32) {
        Some(p) => p,
        None => {
            return Err(ComposeError::DecodeFailed(ImageSource::Second));
        },
    };
    let mut canvas = PixelBuffer::filled(CANVAS_WIDTH, CANVAS_HEIGHT, background_pixel());
    let ghost c0 = canvas;
    blit(&mut canvas, &a, MARGIN, MARGIN);
    let ghost c1 = canvas;
    blit(&mut canvas, &b, SECOND_LEFT, MARGIN);
    proof {
        lemma_two_blits_compose(c0, c1, canvas, a, b);
    }
    match encode_png(&canvas) {
        Some(encoded) => Ok(encoded),
        None => Err(ComposeError::EncodeFailed),
    }
}

/// A background canvas with the first resized image blitted at
/// (`MARGIN`, `MARGIN`) and the second at (`SECOND_LEFT`, `MARGIN`) is
/// exactly the composed canvas of the two pixel sequences.
proof fn lemma_two_blits_compose(
    c0: PixelBuffer,
    c1: PixelBuffer,
    c2: PixelBuffer,
    a: PixelBuffer,
    b: PixelBuffer,
)
    requires
        c0.wf(),
        c0.width == CANVAS_WIDTH,
        c0.height == CANVAS_HEIGHT,
        forall|i: int| 0 <= i < CANVAS_WIDTH * CANVAS_HEIGHT ==> c0.pixels@[i] == background(),
        a.wf(),
        a.width == RESIZED_SIDE,
        a.height == RESIZED_SIDE,
        b.wf(),
        b.width == RESIZED_SIDE,
        b.height == RESIZED_SIDE,
        c1.wf(),
        c1.width == CANVAS_WIDTH,
        c1.height == CANVAS_HEIGHT,
        forall|x: int, y: int|
            0 <= x < CANVAS_WIDTH && 0 <= y < CANVAS_HEIGHT ==> c1.spec_pixel(x, y) == blit_pixel(
                c0,
                a,
                MARGIN as int,
                MARGIN as int,
                x,
                y,
            ),
        c2.wf(),
        c2.width == CANVAS_WIDTH,
        c2.height == CANVAS_HEIGHT,
        forall|x: int, y: int|
            0 <= x < CANVAS_WIDTH && 0 <= y < CANVAS_HEIGHT ==> c2.spec_pixel(x, y) == blit_pixel(
                c1,
                b,
                SECOND_LEFT as int,
                MARGIN as int,
                x,
                y,
            ),
    ensures
        c2.pixels@ == composed_canvas(a.pixels@, b.pixels@),
{
    let w = CANVAS_WIDTH as int;
    let h = CANVAS_HEIGHT as int;
    assert(c2.pixels@ =~= composed_canvas(a.pixels@, b.pixels@)) by {
        assert forall|i: int| 0 <= i < w * h implies c2.pixels@[i] == composed_pixel(
            a.pixels@,
            b.pixels@,
            i % w,
            i / w,
        ) by {
            vstd::arithmetic::div_mod::lemma_fundamental_div_mod(i, w);
            vstd::arithmetic::div_mod::lemma_mod_pos_bound(i, w);
            let x = i % w;
            let y = i / w;
            assert(0 <= y < h);
            assert(y * w + x == i);
            assert(c2.spec_pixel(x, y) == blit_pixel(c1, b, SECOND_LEFT as int, MARGIN as int, x, y));
            assert(c1.spec_pixel(x, y) == blit_pixel(c0, a, MARGIN as int, MARGIN as int, x, y));
            assert(c0.pixels@[y * w + x] == background());
        }
    }
}

/// The composed canvas holds the composed pixel of `(x, y)` at the
/// row-major index of `(x, y)`.
pub proof fn lemma_composed_canvas_index(a: Seq<Pixel>, b: Seq<Pixel>, x: int, y: int)
    requires
        0 <= x < CANVAS_WIDTH,
        0 <= y < CANVAS_HEIGHT,
    ensures
        composed_canvas(a, b)[y * (CANVAS_WIDTH as int) + x] == composed_pixel(a, b, x, y),
{
    let w = CANVAS_WIDTH as int;
    lemma_row_major_index_bounds(w, CANVAS_HEIGHT as int, x, y);
    vstd::arithmetic::div_mod::lemma_fundamental_div_mod_converse(y * w + x, w, y, x);
}

/// Law: every canvas pixel outside both overlay rectangles is the untouched
/// background color.
pub proof fn lemma_background_outside_overlays(a: Seq<Pixel>, b: Seq<Pixel>, x: int, y: int)
    requires
        0 <= x < CANVAS_WIDTH,
        0 <= y < CANVAS_HEIGHT,
        !in_first_overlay(x, y),
        !in_second_overlay(x, y),
    ensures
        composed_pixel(a, b, x, y) == background(),
        composed_canvas(a, b)[y * (CANVAS_WIDTH as int) + x] == background(),
{
    lemma_composed_canvas_index(a, b, x, y);
}

/// Law: wherever the resized input under an overlay is opaque, the canvas
/// shows that input's pixel exactly — the overlays hold the resized images,
/// stretched or squashed to the `RESIZED_SIDE`-square, not refitted.
pub proof fn lemma_opaque_overlay_pixel(a: Seq<Pixel>, b: Seq<Pixel>, x: int, y: int)
    requires
        0 <= x < CANVAS_WIDTH,
        0 <= y < CANVAS_HEIGHT,
        in_first_overlay(x, y) ==> a[(y - MARGIN) * (RESIZED_SIDE as int) + (x - MARGIN)].a
            == 255,
        in_second_overlay(x, y) ==> b[(y - MARGIN) * (RESIZED_SIDE as int) + (x - SECOND_LEFT)].a
            == 255,
    ensures
        in_first_overlay(x, y) ==> composed_canvas(a, b)[y * (CANVAS_WIDTH as int) + x] == a[(y
            - MARGIN) * (RESIZED_SIDE as int) + (x - MARGIN)],
        in_second_overlay(x, y) ==> composed_canvas(a, b)[y * (CANVAS_WIDTH as int) + x] == b[(y
            - MARGIN) * (RESIZED_SIDE as int) + (x - SECOND_LEFT)],
{
    lemma_composed_canvas_index(a, b, x, y);
    if in_first_overlay(x, y) {
        lemma_blend_opaque(a[(y - MARGIN) * (RESIZED_SIDE as int) + (x - MARGIN)], background());
    } else if in_second_overlay(x, y) {
        lemma_blend_opaque(
            b[(y - MARGIN) * (RESIZED_SIDE as int) + (x - SECOND_LEFT)],
            background(),
        );
    }
}

/// Law: when the top-left pixels of the two resized inputs are opaque, the
/// canvas pixel at (`MARGIN`, `MARGIN`) is the first input's top-left pixel
/// and the one at (`SECOND_LEFT`, `MARGIN`) is the second's.
pub proof fn lemma_overlay_corners(a: Seq<Pixel>, b: Seq<Pixel>)
    requires
        a[0].a == 255,
        b[0].a == 255,
    ensures
        composed_pixel(a, b, MARGIN as int, MARGIN as int) == a[0],
        composed_pixel(a, b, SECOND_LEFT as int, MARGIN as int) == b[0],
        composed_canvas(a, b)[(MARGIN * CANVAS_WIDTH + MARGIN) as int] == a[0],
        composed_canvas(a, b)[(MARGIN * CANVAS_WIDTH + SECOND_LEFT) as int] == b[0],
{
    lemma_blend_opaque(a[0], background());
    lemma_blend_opaque(b[0], background());
    lemma_composed_canvas_index(a, b, MARGIN as int, MARGIN as int);
    lemma_composed_canvas_index(a, b, SECOND_LEFT as int, MARGIN as int);
}

/// Law: a first input that does not decode yields the error naming the
/// first input, whatever the second input holds, and no output bytes.
pub proof fn lemma_malformed_first(g0: Seq<u8>, g1: Seq<u8>)
    requires
        decoded_resized(g0, RESIZED_SIDE as nat, RESIZED_SIDE as nat) is None,
    ensures
        compose_spec(g0, g1) == Err::<Seq<u8>, ComposeError>(
            ComposeError::DecodeFailed(ImageSource::First),
        ),
{
}

/// Law: composition is deterministic — byte-identical inputs give
/// byte-identical results.
pub proof fn lemma_compose_deterministic(g0a: Seq<u8>, g1a: Seq<u8>, g0b: Seq<u8>, g1b: Seq<u8>)
    requires
        g0a == g0b,
        g1a == g1b,
    ensures
        compose_spec(g0a, g1a) == compose_spec(g0b, g1b),
{
}

/// Law: a successful composition returns exactly the PNG serialization of
/// the composed `CANVAS_WIDTH` x `CANVAS_HEIGHT` canvas of the two decoded,
/// resized inputs.
pub proof fn lemma_output_is_canvas_png(g0: Seq<u8>, g1: Seq<u8>)
    requires
        compose_spec(g0, g1) is Ok,
    ensures
        ({
            let d0 = decoded_resized(g0, RESIZED_SIDE as nat, RESIZED_SIDE as nat);
            let d1 = decoded_resized(g1, RESIZED_SIDE as nat, RESIZED_SIDE as nat);
            let canvas = composed_canvas(d0.unwrap(), d1.unwrap());
            &&& d0 is Some
            &&& d1 is Some
            &&& canvas.len() == CANVAS_WIDTH * CANVAS_HEIGHT
            &&& compose_spec(g0, g1) == Ok::<Seq<u8>, ComposeError>(
                png_encoding(CANVAS_WIDTH as nat, CANVAS_HEIGHT as nat, canvas).unwrap(),
            )
        }),
{
}

} // verus!
