//! The affine transform between canvas pixel coordinates and unit-sphere
//! model coordinates: the renderer scales by half the smaller canvas
//! dimension, flips the vertical axis, and translates to the canvas centre;
//! mapping a pointer position back to model space inverts exactly those
//! matrix components.

use crate::fixed::{iabs, sdiv, sdiv64, SCALE};
use vstd::prelude::*;

verus! {

/// A pixel position on the drawing surface.
#[derive(Clone, Copy, Debug, PartialEq, Eq, Structural)]
pub struct ScreenPosition {
    pub x: i32,
    pub y: i32,
}

/// The forward affine transform the drawing surface is set up with:
/// model coordinates are scaled by `(scale_x, scale_y)` and translated by
/// `(translate_x, translate_y)` to give pixel coordinates. The vertical
/// scale is negative: the model's vertical axis points up, the canvas's
/// points down.
#[derive(Clone, Copy, Debug, PartialEq, Eq, Structural)]
pub struct CanvasTransform {
    pub scale_x: i64,
    pub scale_y: i64,
    pub translate_x: i64,
    pub translate_y: i64,
}

impl CanvasTransform {
    /// The component bounds under which the inverse transform cannot
    /// overflow: nonzero scales with the vertical flip, all components
    /// within the pixel range of a canvas.
    pub open spec fn wf(&self) -> bool {
        &&& 0 < self.scale_x <= 2147483648
        &&& -2147483648 <= self.scale_y < 0
        &&& iabs(self.translate_x as int) <= 2147483648
        &&& iabs(self.translate_y as int) <= 2147483648
    }

    /// Model coordinates of a pixel position: the algebraic inverse of the
    /// forward transform, `u = (px - translate_x) / scale_x` and
    /// `v = (py - translate_y) / scale_y`, in fixed-point units.
    pub open spec fn spec_to_model(&self, px: int, py: int) -> (int, int) {
        (
            sdiv((px - self.translate_x) * (SCALE as int), self.scale_x as int),
            sdiv((py - self.translate_y) * (SCALE as int), self.scale_y as int),
        )
    }

    /// The transform the renderer applies for a canvas of the given pixel
    /// size: scale by half the smaller dimension, flip the vertical axis,
    /// translate by the same half dimension in both axes.
    pub fn for_canvas(width: u32, height: u32) -> (t: CanvasTransform)
        requires
            2 <= width,
            2 <= height,
        ensures
            t.wf(),
            t.scale_x == (if width < height {
                width as int
            } else {
                height as int
            }) / 2,
            t.scale_y == -t.scale_x,
            t.translate_x == t.scale_x,
            t.translate_y == t.scale_x,
    {
        let smaller: u32 = if width < height {
            width
        } else {
            height
        };
        let half: i64 = (smaller / 2) as i64;
        CanvasTransform {
            scale_x: half,
            scale_y: -half,
            translate_x: half,
            translate_y: half,
        }
    }

    /// Map a pixel position to unit-sphere model coordinates; positions
    /// outside the visible disc come back with magnitude above `SCALE` and
    /// are rejected by the caller's depth check.
    pub fn to_model_space(&self, p: ScreenPosition) -> (m: (i64, i64))
        requires
            self.wf(),
        ensures
            m.0 == self.spec_to_model(p.x as int, p.y as int).0,
            m.1 == self.spec_to_model(p.x as int, p.y as int).1,
    {
        let dx: i64 = (p.x as i64) - self.translate_x;
        let dy: i64 = (p.y as i64) - self.translate_y;
        let u: i64 = sdiv64(dx * SCALE, self.scale_x);
        let v: i64 = sdiv64(dy * SCALE, self.scale_y);
        (u, v)
    }
}

} // verus!
