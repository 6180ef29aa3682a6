//! The coordinate space: a uniform scale from world units to screen pixels that keeps
//! the logical 16:9 layout whatever the window size (letterboxing the rest).
use vstd::prelude::*;
use crate::world_unit::{floor_div, lemma_floor_div_bounds, saturate, saturate_i128, WorldUnit, WorldVec2};

verus! {

/// The live window size in pixels.
#[derive(Clone, Copy, Debug, PartialEq, Eq, Structural)]
pub struct WinInfo {
    pub width: u32,
    pub height: u32,
}

/// Micro-units across the logical screen width, times the aspect denominator 9.
pub const SCALE_DEN: i64 = 450_000_000;

/// Nine times the effective width: the window width, or the widest 16:9 area that fits
/// the window height, whichever is smaller.
pub open spec fn scale_num(w: int, h: int) -> int {
    if 9 * w <= 16 * h {
        9 * w
    } else {
        16 * h
    }
}

/// Pixels for a logical distance: `u * scale_num / SCALE_DEN`, rounded down.
pub open spec fn to_pixels(u: int, w: int, h: int) -> int {
    u * scale_num(w, h) / (SCALE_DEN as int)
}

/// Logical distance for a pixel distance, rounded down (the window must not be empty).
pub open spec fn from_pixels(p: int, w: int, h: int) -> int {
    p * SCALE_DEN / scale_num(w, h)
}

impl Default for WinInfo {
    fn default() -> (r: WinInfo)
        ensures
            r.width == 1280 && r.height == 720,
    {
        WinInfo { width: 1280, height: 720 }
    }
}

impl WinInfo {
    /// The scale as the fraction `(num, den)` of pixels per micro-unit, the same on both axes.
    /// A window with no area gives a zero numerator.
    pub fn scale(&self) -> (r: (i64, i64))
        ensures
            r.0 == scale_num(self.width as int, self.height as int),
            r.1 == SCALE_DEN,
    {
        let w: i64 = self.width as i64;
        let h: i64 = self.height as i64;
        if 9 * w <= 16 * h {
            (9 * w, SCALE_DEN)
        } else {
            (16 * h, SCALE_DEN)
        }
    }

    /// Whether the window has an area to draw in.
    pub fn is_degenerate(&self) -> (r: bool)
        ensures
            r == (scale_num(self.width as int, self.height as int) == 0),
    {
        let (num, _) = self.scale();
        num == 0
    }
}

impl WorldUnit {
    /// This horizontal distance in pixels.
    pub fn to_x(self, win_info: &WinInfo) -> (r: i64)
        requires
            self.wf(),
        ensures
            r == to_pixels(self@, win_info.width as int, win_info.height as int),
    {
        let (num, den) = win_info.scale();
        proof { lemma_pixels_fit(self@, num as int); }
        floor_div(self.0 as i128 * num as i128, den as i128) as i64
    }

    /// This vertical distance in pixels.
    pub fn to_y(self, win_info: &WinInfo) -> (r: i64)
        requires
            self.wf(),
        ensures
            r == to_pixels(self@, win_info.width as int, win_info.height as int),
    {
        self.to_x(win_info)
    }

    /// The logical distance of `pixels` screen pixels (saturated), or `None` for a window
    /// with no area.
    pub fn from_pixels(pixels: i64, win_info: &WinInfo) -> (r: Option<WorldUnit>)
        ensures
            scale_num(win_info.width as int, win_info.height as int) == 0 ==> r is None,
            scale_num(win_info.width as int, win_info.height as int) != 0 ==> r is Some
                && r->0@ == saturate(from_pixels(pixels as int, win_info.width as int, win_info.height as int)),
    {
        let (num, den) = win_info.scale();
        if num == 0 {
            None
        } else {
            proof {
                assert(pixels * den <= 0x8000_0000_0000_0000 * 450_000_000) by (nonlinear_arith)
                    requires pixels <= 0x8000_0000_0000_0000, den == 450_000_000;
                assert(pixels * den >= -0x8000_0000_0000_0000 * 450_000_000) by (nonlinear_arith)
                    requires pixels >= -0x8000_0000_0000_0000, den == 450_000_000;
            }
            Some(WorldUnit(saturate_i128(floor_div(pixels as i128 * den as i128, num as i128))))
        }
    }
}

impl WorldVec2 {
    /// This position in screen pixels, with (0, 0) the center of the window.
    pub fn to_absolute(self, win_info: &WinInfo) -> (r: (i64, i64))
        requires
            self.wf(),
        ensures
            r.0 == to_pixels(self@.0, win_info.width as int, win_info.height as int),
            r.1 == to_pixels(self@.1, win_info.width as int, win_info.height as int),
    {
        (self.x.to_x(win_info), self.y.to_y(win_info))
    }
}

proof fn lemma_pixels_fit(u: int, num: int)
    requires
        -2_000_000_000 <= u <= 2_000_000_000,
        0 <= num <= 16 * 0xffff_ffff,
    ensures
        -0x1_0000_0000_0000_0000_0000 <= u * num <= 0x1_0000_0000_0000_0000_0000,
        -0x7fff_ffff_ffff_ffff <= u * num / (SCALE_DEN as int) <= 0x7fff_ffff_ffff_ffff,
{
    assert(-0x1_0000_0000_0000_0000_0000 <= u * num <= 0x1_0000_0000_0000_0000_0000) by (nonlinear_arith)
        requires
            -2_000_000_000 <= u <= 2_000_000_000,
            0 <= num <= 16 * 0xffff_ffff,
    ;
    lemma_floor_div_bounds(u * num, SCALE_DEN as int);
}

/// Converting a logical distance to pixels and back, in the same window of positive size,
/// gives the distance back to within one pixel's worth of micro-units: the result is never
/// larger, and falls short by less than `1 + SCALE_DEN / scale_num` micro-units.
pub proof fn lemma_pixel_round_trip(u: int, w: int, h: int)
    requires
        w > 0,
        h > 0,
    ensures
        from_pixels(to_pixels(u, w, h), w, h) <= u,
        (u - from_pixels(to_pixels(u, w, h), w, h)) * scale_num(w, h) < scale_num(w, h) + SCALE_DEN,
{
    let a = scale_num(w, h);
    let b = SCALE_DEN as int;
    let p = to_pixels(u, w, h);
    let v = from_pixels(p, w, h);
    assert(a > 0);
    lemma_floor_div_bounds(u * a, b);
    lemma_floor_div_bounds(p * b, a);
    assert(b * p <= u * a && u * a < b * p + b);
    assert(a * v <= p * b && p * b < a * v + a);
    assert(v <= u) by (nonlinear_arith)
        requires
            a * v <= p * b,
            b * p <= u * a,
            a > 0,
    ;
    assert((u - v) * a < a + b) by (nonlinear_arith)
        requires
            u * a < b * p + b,
            p * b < a * v + a,
    ;
}

} // verus!
