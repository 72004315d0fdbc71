//! The logical resolution of a game and the letterboxed, integer-upscaled
//! viewport that presents it inside a window of arbitrary size.

use vstd::prelude::*;

verus! {

/// The largest integer factor by which a `lw` x `lh` image fits inside a
/// `w` x `h` window, and never less than one.
pub open spec fn upscale_ratio(lw: int, lh: int, w: int, h: int) -> int
    recommends
        lw > 0,
        lh > 0,
{
    let by_width = w / lw;
    let by_height = h / lh;
    let fit = if by_width < by_height { by_width } else { by_height };
    if fit < 1 { 1 } else { fit }
}

/// An image scaled by `r` fits inside the window.
pub open spec fn fits(lw: int, lh: int, w: int, h: int, r: int) -> bool {
    lw * r <= w && lh * r <= h
}

/// Offset that centers `content` pixels inside `window` pixels; negative when
/// the content overflows the window, split evenly on both sides.
pub open spec fn center_offset(window: int, content: int) -> int {
    if window >= content {
        (window - content) / 2
    } else {
        -((content - window) / 2)
    }
}

/// The fixed logical resolution that a game renders into before upscaling.
pub struct Context {
    pub render_width: u32,
    pub render_height: u32,
}

impl Context {
    pub fn new(render_width: u32, render_height: u32) -> (r: Context)
        ensures
            r.render_width == render_width,
            r.render_height == render_height,
    {
        Context { render_width, render_height }
    }

    /// The largest integer upscale of the logical resolution that fits a
    /// window of `windoww` x `windowh` pixels, at least one.
    pub fn compute_upscale(&self, windoww: u32, windowh: u32) -> (r: u32)
        requires
            self.render_width > 0,
            self.render_height > 0,
        ensures
            r == upscale_ratio(
                self.render_width as int,
                self.render_height as int,
                windoww as int,
                windowh as int,
            ),
    {
        let by_width = windoww / self.render_width;
        let by_height = windowh / self.render_height;
        let fit = if by_width < by_height { by_width } else { by_height };
        if fit < 1 { 1 } else { fit }
    }
}

/// A render destination rectangle inside the window: its size and the
/// position of its top left corner.
pub struct Viewport {
    pub width: u32,
    pub height: u32,
    pub offset_x: i64,
    pub offset_y: i64,
}

impl Viewport {
    /// The offscreen target: the logical resolution at the origin.
    pub fn offscreen(ctx: &Context) -> (r: Viewport)
        ensures
            r.width == ctx.render_width,
            r.height == ctx.render_height,
            r.offset_x == 0,
            r.offset_y == 0,
    {
        Viewport { width: ctx.render_width, height: ctx.render_height, offset_x: 0, offset_y: 0 }
    }

    /// The screen target for a window of `windoww` x `windowh` pixels: the
    /// logical resolution scaled by `compute_upscale`, centered.
    pub fn screen(ctx: &Context, windoww: u32, windowh: u32) -> (r: Viewport)
        requires
            ctx.render_width > 0,
            ctx.render_height > 0,
        ensures
            ({
                let ratio = upscale_ratio(
                    ctx.render_width as int,
                    ctx.render_height as int,
                    windoww as int,
                    windowh as int,
                );
                &&& r.width == ctx.render_width * ratio
                &&& r.height == ctx.render_height * ratio
                &&& r.offset_x == center_offset(windoww as int, r.width as int)
                &&& r.offset_y == center_offset(windowh as int, r.height as int)
            }),
    {
        let ratio = ctx.compute_upscale(windoww, windowh);
        proof {
            lemma_scaled_size_fits_u32(
                ctx.render_width as int,
                ctx.render_height as int,
                windoww as int,
                windowh as int,
            );
        }
        let width = ctx.render_width * ratio;
        let height = ctx.render_height * ratio;
        Viewport {
            width,
            height,
            offset_x: centered(windoww, width),
            offset_y: centered(windowh, height),
        }
    }
}

fn centered(window: u32, content: u32) -> (r: i64)
    ensures
        r == center_offset(window as int, content as int),
{
    if window >= content {
        ((window - content) / 2) as i64
    } else {
        -(((content - window) / 2) as i64)
    }
}

proof fn lemma_scaled_size_fits_u32(lw: int, lh: int, w: int, h: int)
    requires
        0 < lw <= u32::MAX,
        0 < lh <= u32::MAX,
        0 <= w <= u32::MAX,
        0 <= h <= u32::MAX,
    ensures
        lw * upscale_ratio(lw, lh, w, h) <= u32::MAX,
        lh * upscale_ratio(lw, lh, w, h) <= u32::MAX,
{
    lemma_upscale_is_largest_fit(lw, lh, w, h);
    let r = upscale_ratio(lw, lh, w, h);
    if !fits(lw, lh, w, h, r) {
        assert(r == 1);
        assert(lw * r == lw && lh * r == lh);
    }
}

/// The upscale ratio is at least one; it fits the window unless even the
/// unscaled image does not; and no larger integer factor fits.
pub proof fn lemma_upscale_is_largest_fit(lw: int, lh: int, w: int, h: int)
    requires
        lw > 0,
        lh > 0,
        w >= 0,
        h >= 0,
    ensures
        upscale_ratio(lw, lh, w, h) >= 1,
        fits(lw, lh, w, h, upscale_ratio(lw, lh, w, h)) || (upscale_ratio(lw, lh, w, h) == 1
            && !fits(lw, lh, w, h, 1)),
        forall|k: int| k > upscale_ratio(lw, lh, w, h) ==> !#[trigger] fits(lw, lh, w, h, k),
{
    let r = upscale_ratio(lw, lh, w, h);
    let qw = w / lw;
    let qh = h / lh;
    assert(lw * qw <= w < lw * (qw + 1)) by (nonlinear_arith)
        requires
            lw > 0,
            w >= 0,
            qw == w / lw,
    ;
    assert(lh * qh <= h < lh * (qh + 1)) by (nonlinear_arith)
        requires
            lh > 0,
            h >= 0,
            qh == h / lh,
    ;
    assert(qw >= 0 && qh >= 0) by (nonlinear_arith)
        requires
            lw > 0,
            w >= 0,
            qw == w / lw,
            lh > 0,
            h >= 0,
            qh == h / lh,
    ;
    if r > 1 || fits(lw, lh, w, h, 1) {
        assert(r <= qw && r <= qh);
        assert(lw * r <= lw * qw) by (nonlinear_arith)
            requires
                lw > 0,
                r <= qw,
        ;
        assert(lh * r <= lh * qh) by (nonlinear_arith)
            requires
                lh > 0,
                r <= qh,
        ;
    }
    assert forall|k: int| k > r implies !#[trigger] fits(lw, lh, w, h, k) by {
        if qw <= qh {
            assert(k >= qw + 1);
            assert(lw * k >= lw * (qw + 1)) by (nonlinear_arith)
                requires
                    lw > 0,
                    k >= qw + 1,
            ;
        } else {
            assert(k >= qh + 1);
            assert(lh * k >= lh * (qh + 1)) by (nonlinear_arith)
                requires
                    lh > 0,
                    k >= qh + 1,
            ;
        }
    }
}

/// Letterboxing: the screen target is centered in the window, with equal
/// borders on both sides up to one pixel of rounding.
pub proof fn lemma_letterbox_centered(window: int, content: int)
    requires
        0 <= content <= window,
    ensures
        center_offset(window, content) >= 0,
        window - content - 2 * center_offset(window, content) == (window - content) % 2,
{
}

} // verus!
