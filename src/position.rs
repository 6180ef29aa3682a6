//! Per-entity logical placement, and its conversion to an absolute screen transform.
use vstd::prelude::*;
use crate::win_info::{scale_num, to_pixels, WinInfo};
use crate::world_unit::{WorldUnit, WorldVec2};

verus! {

/// Where and how large an entity is drawn, in logical terms.
#[derive(Clone, Copy, Debug, PartialEq, Eq, Structural)]
pub struct Position {
    /// The center of the entity, with (0, 0) the center of the screen.
    pub pos: WorldVec2,
    /// The entity's on-screen width in world units.
    pub scale: WorldUnit,
    /// The width of the entity's image in pixels.
    pub image_width: u32,
    /// Paint order: higher is drawn above lower.
    pub z_idx: i32,
}

/// The absolute screen placement of an entity for one frame.
#[derive(Clone, Copy, Debug, PartialEq, Eq, Structural)]
pub struct ScreenTransform {
    /// Pixels from the window's center.
    pub x: i64,
    pub y: i64,
    pub z_idx: i32,
    /// The entity's width on screen in pixels; the image is scaled by
    /// `width_px / image_width` on both axes.
    pub width_px: i64,
    pub image_width: u32,
}

impl Position {
    pub fn new(pos: WorldVec2, scale: WorldUnit, image_width: u32, z_idx: i32) -> (r: Position)
        ensures
            r.pos == pos,
            r.scale == scale,
            r.image_width == image_width,
            r.z_idx == z_idx,
    {
        Position { pos, scale, image_width, z_idx }
    }
}

/// The render synchronization.
pub struct PositionPlugin;

impl PositionPlugin {
    /// The screen transform of `p` in the current window, or `None` when the window has no
    /// area (the frame's sync is then skipped).
    pub fn sync_render_position(p: &Position, win_info: &WinInfo) -> (r: Option<ScreenTransform>)
        requires
            p.pos.wf(),
            p.scale.wf(),
        ensures
            scale_num(win_info.width as int, win_info.height as int) == 0 <==> r is None,
            r is Some ==> {
                let w = win_info.width as int;
                let h = win_info.height as int;
                &&& r->0.x == to_pixels(p.pos.x@, w, h)
                &&& r->0.y == to_pixels(p.pos.y@, w, h)
                &&& r->0.z_idx == p.z_idx
                &&& r->0.width_px == to_pixels(p.scale@, w, h)
                &&& r->0.image_width == p.image_width
            },
    {
        if win_info.is_degenerate() {
            return None;
        }
        let (x, y) = p.pos.to_absolute(win_info);
        Some(ScreenTransform {
            x,
            y,
            z_idx: p.z_idx,
            width_px: p.scale.to_x(win_info),
            image_width: p.image_width,
        })
    }
}

} // verus!
