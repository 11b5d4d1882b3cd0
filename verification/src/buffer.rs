//! Row-major RGBA pixel buffers: canvas allocation and the overlay blitter.

use vstd::prelude::*;

use crate::pixel::{blend_over, spec_blend, Pixel};

verus! {

/// A width x height pixel buffer whose pixels are stored row-major: the
/// pixel at column `x` of row `y` sits at index `y * width + x`.
pub struct PixelBuffer {
    pub width: usize,
    pub height: usize,
    pub pixels: Vec<Pixel>,
}

impl PixelBuffer {
    /// Well-formed: the storage holds exactly one pixel per coordinate.
    pub open spec fn wf(self) -> bool {
        self.pixels@.len() == self.width * self.height
    }

    /// The pixel at column `x` of row `y`.
    pub open spec fn spec_pixel(self, x: int, y: int) -> Pixel {
        self.pixels@[y * self.width + x]
    }

    /// Builds a buffer with every pixel set to `color`: the canvas allocator.
    pub fn filled(width: usize, height: usize, color: Pixel) -> (out: PixelBuffer)
        requires
            width * height <= usize::MAX,
        ensures
            out.wf(),
            out.width == width,
            out.height == height,
            forall|i: int| 0 <= i < width * height ==> out.pixels@[i] == color,
    {
        let total: usize = width * height;
        let mut pixels: Vec<Pixel> = Vec::new();
        let mut i: usize = 0;
        while i < total
            invariant
                i <= total,
                pixels@.len() == i,
                forall|j: int| 0 <= j < i ==> pixels@[j] == color,
            decreases total - i,
        {
            pixels.push(color);
            i += 1;
        }
        PixelBuffer { width, height, pixels }
    }

    /// Reads the pixel at column `x` of row `y`.
    pub fn pixel_at(&self, x: usize, y: usize) -> (p: Pixel)
        requires
            self.wf(),
            x < self.width,
            y < self.height,
        ensures
            p == self.spec_pixel(x as int, y as int),
    {
        proof {
            lemma_row_major_index_bounds(
                self.width as int,
                self.height as int,
                x as int,
                y as int,
            );
        }
        let n: usize = self.pixels.len();
        let idx: usize = y * self.width + x;
        proof {
            assert(idx < n);
        }
        self.pixels[idx]
    }
}

/// A row-major index built from in-range coordinates is in range.
pub proof fn lemma_row_major_index_bounds(w: int, h: int, x: int, y: int)
    requires
        0 <= x < w,
        0 <= y < h,
    ensures
        0 <= y * w + x < w * h,
{
    assert(y * w + x < w * h) by (nonlinear_arith)
        requires
            0 <= x < w,
            0 <= y < h,
    ;
    assert(y * w >= 0) by (nonlinear_arith)
        requires
            y >= 0,
            w > 0,
    ;
}

/// Distinct in-range coordinates give distinct row-major indices.
pub proof fn lemma_row_major_index_injective(w: int, x1: int, y1: int, x2: int, y2: int)
    requires
        0 <= x1 < w,
        0 <= x2 < w,
        y1 * w + x1 == y2 * w + x2,
    ensures
        x1 == x2,
        y1 == y2,
{
    assert(y1 == y2 && x1 == x2) by (nonlinear_arith)
        requires
            0 <= x1 < w,
            0 <= x2 < w,
            y1 * w + x1 == y2 * w + x2,
    ;
}

/// Whether `(x, y)` lies in the `w` x `h` rectangle whose top-left corner is
/// `(left, top)`.
pub open spec fn in_rect(x: int, y: int, left: int, top: int, w: int, h: int) -> bool {
    left <= x < left + w && top <= y < top + h
}

/// The pixel at destination coordinate `(x, y)` after `src` is composited
/// onto `dst` with its top-left corner at `(off_x, off_y)`: inside the
/// overlay rectangle the source pixel is blended over the destination pixel;
/// everywhere else the destination pixel is untouched.
pub open spec fn blit_pixel(
    dst: PixelBuffer,
    src: PixelBuffer,
    off_x: int,
    off_y: int,
    x: int,
    y: int,
) -> Pixel {
    if in_rect(x, y, off_x, off_y, src.width as int, src.height as int) {
        spec_blend(src.spec_pixel(x - off_x, y - off_y), dst.spec_pixel(x, y))
    } else {
        dst.spec_pixel(x, y)
    }
}

/// The pixel at `(x, y)` while the blit is underway: rows of `src` before
/// `rows` are fully composited, and on row `rows` the columns before `cols`.
spec fn blit_pixel_upto(
    dst: PixelBuffer,
    src: PixelBuffer,
    off_x: int,
    off_y: int,
    x: int,
    y: int,
    rows: int,
    cols: int,
) -> Pixel {
    if in_rect(x, y, off_x, off_y, src.width as int, src.height as int) && (y - off_y < rows || (
    y - off_y == rows && x - off_x < cols)) {
        spec_blend(src.spec_pixel(x - off_x, y - off_y), dst.spec_pixel(x, y))
    } else {
        dst.spec_pixel(x, y)
    }
}

/// Composites `src` onto `dst` with the top-left corner of `src` at
/// `(off_x, off_y)`, blending each source pixel over the destination pixel
/// it lands on. Source pixels that fall outside `dst` are clipped silently;
/// the destination keeps its dimensions.
pub fn blit(dst: &mut PixelBuffer, src: &PixelBuffer, off_x: usize, off_y: usize)
    requires
        old(dst).wf(),
        src.wf(),
    ensures
        final(dst).wf(),
        final(dst).width == old(dst).width,
        final(dst).height == old(dst).height,
        forall|x: int, y: int|
            0 <= x < old(dst).width && 0 <= y < old(dst).height ==> final(dst).spec_pixel(x, y)
                == blit_pixel(*old(dst), *src, off_x as int, off_y as int, x, y),
{
    let dst_w: usize = dst.width;
    let dst_h: usize = dst.height;
    let mut sy: usize = 0;
    while sy < src.height
        invariant
            old(dst).wf(),
            src.wf(),
            dst.wf(),
            dst.width == old(dst).width,
            dst.height == old(dst).height,
            dst_w == dst.width,
            dst_h == dst.height,
            sy <= src.height,
            forall|x: int, y: int|
                0 <= x < dst.width && 0 <= y < dst.height ==> dst.spec_pixel(x, y)
                    == blit_pixel_upto(*old(dst), *src, off_x as int, off_y as int, x, y, sy as int, 0),
        decreases src.height - sy,
    {
        if off_y < dst_h && sy < dst_h - off_y {
            let dy: usize = off_y + sy;
            let mut sx: usize = 0;
            while sx < src.width
                invariant
                    old(dst).wf(),
                    src.wf(),
                    dst.wf(),
                    dst.width == old(dst).width,
                    dst.height == old(dst).height,
                    dst_w == dst.width,
                    dst_h == dst.height,
                    sy < src.height,
                    off_y < dst_h,
                    dy == off_y + sy,
                    dy < dst_h,
                    sx <= src.width,
                    forall|x: int, y: int|
                        0 <= x < dst.width && 0 <= y < dst.height ==> dst.spec_pixel(x, y)
                            == blit_pixel_upto(
                            *old(dst),
                            *src,
                            off_x as int,
                            off_y as int,
                            x,
                            y,
                            sy as int,
                            sx as int,
                        ),
                decreases src.width - sx,
            {
                if off_x < dst_w && sx < dst_w - off_x {
                    let dx: usize = off_x + sx;
                    proof {
                        lemma_row_major_index_bounds(
                            dst.width as int,
                            dst.height as int,
                            dx as int,
                            dy as int,
                        );
                        lemma_row_major_index_bounds(
                            src.width as int,
                            src.height as int,
                            sx as int,
                            sy as int,
                        );
                    }
                    let sn: usize = src.pixels.len();
                    let dn: usize = dst.pixels.len();
                    let sidx: usize = sy * src.width + sx;
                    let didx: usize = dy * dst_w + dx;
                    proof {
                        assert(sidx < sn);
                        assert(didx < dn);
                    }
                    let s: Pixel = src.pixels[sidx];
                    let d: Pixel = dst.pixels[didx];
                    let blended: Pixel = blend_over(s, d);
                    let ghost prev = *dst;
                    dst.pixels.set(didx, blended);
                    proof {
                        assert forall|x: int, y: int|
                            0 <= x < dst.width && 0 <= y < dst.height implies dst.spec_pixel(x, y)
                            == blit_pixel_upto(
                            *old(dst),
                            *src,
                            off_x as int,
                            off_y as int,
                            x,
                            y,
                            sy as int,
                            sx as int + 1,
                        ) by {
                            lemma_row_major_index_bounds(dst.width as int, dst.height as int, x, y);
                            assert(prev.spec_pixel(x, y) == blit_pixel_upto(
                                *old(dst),
                                *src,
                                off_x as int,
                                off_y as int,
                                x,
                                y,
                                sy as int,
                                sx as int,
                            ));
                            if x == dx as int && y == dy as int {
                                assert(dst.spec_pixel(x, y) == blended);
                            } else {
                                if y * (dst.width as int) + x == dy as int * (dst.width as int)
                                    + dx as int {
                                    lemma_row_major_index_injective(
                                        dst.width as int,
                                        x,
                                        y,
                                        dx as int,
                                        dy as int,
                                    );
                                    assert(false);
                                }
                                assert(dst.spec_pixel(x, y) == prev.spec_pixel(x, y));
                            }
                        }
                    }
                } else {
                    proof {
                        assert forall|x: int, y: int|
                            0 <= x < dst.width && 0 <= y < dst.height implies blit_pixel_upto(
                            *old(dst),
                            *src,
                            off_x as int,
                            off_y as int,
                            x,
                            y,
                            sy as int,
                            sx as int + 1,
                        ) == blit_pixel_upto(
                            *old(dst),
                            *src,
                            off_x as int,
                            off_y as int,
                            x,
                            y,
                            sy as int,
                            sx as int,
                        ) by {
                            // the one candidate coordinate lies outside `dst`
                        }
                    }
                }
                sx += 1;
            }
        } else {
            proof {
                assert forall|x: int, y: int|
                    0 <= x < dst.width && 0 <= y < dst.height implies blit_pixel_upto(
                    *old(dst),
                    *src,
                    off_x as int,
                    off_y as int,
                    x,
                    y,
                    sy as int + 1,
                    0,
                ) == blit_pixel_upto(
                    *old(dst),
                    *src,
                    off_x as int,
                    off_y as int,
                    x,
                    y,
                    sy as int,
                    0,
                ) by {
                    // the one row that differs lies below the bottom of `dst`
                }
            }
        }
        proof {
            assert forall|x: int, y: int|
                0 <= x < dst.width && 0 <= y < dst.height implies blit_pixel_upto(
                *old(dst),
                *src,
                off_x as int,
                off_y as int,
                x,
                y,
                sy as int + 1,
                0,
            ) == blit_pixel_upto(
                *old(dst),
                *src,
                off_x as int,
                off_y as int,
                x,
                y,
                sy as int,
                src.width as int,
            ) by {}
        }
        sy += 1;
    }
    proof {
        assert forall|x: int, y: int|
            0 <= x < dst.width && 0 <= y < dst.height implies blit_pixel_upto(
            *old(dst),
            *src,
            off_x as int,
            off_y as int,
            x,
            y,
            src.height as int,
            0,
        ) == blit_pixel(*old(dst), *src, off_x as int, off_y as int, x, y) by {}
    }
}

} // verus!
