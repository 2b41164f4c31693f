//! Pan/zoom camera state.
//!
//! Every coordinate in the library is a fixed-point number: the stored `i64`
//! is the real value multiplied by [`crate::mandelbrot::SCALE`].  The camera
//! starts at zoom 200, center (100, 50), and every step moves or zooms by 50,
//! so all reachable states are whole numbers of fixed-point units.

use vstd::prelude::*;

verus! {

use crate::mandelbrot::SCALE;

/// The viewport state: zoom factor, center coordinates and the per-step
/// velocities, all in fixed-point units of `1 / SCALE`.
#[derive(Clone, Copy, PartialEq, Eq, Structural, Debug)]
pub struct Camera {
    pub camera_zoom: i64,
    pub camera_x: i64,
    pub camera_y: i64,
    pub velocity_x: i64,
    pub velocity_y: i64,
    pub velocity_zoom: i64,
}

impl Camera {
    /// The initial viewport: zoom 200, centered at (100, 50), step 50.
    pub fn new() -> (camera: Camera)
        ensures
            camera.camera_zoom == 200 * SCALE,
            camera.camera_x == 100 * SCALE,
            camera.camera_y == 50 * SCALE,
            camera.velocity_x == 50 * SCALE,
            camera.velocity_y == 50 * SCALE,
            camera.velocity_zoom == 50 * SCALE,
    {
        Camera {
            camera_zoom: 200 * SCALE,
            camera_x: 100 * SCALE,
            camera_y: 50 * SCALE,
            velocity_x: 50 * SCALE,
            velocity_y: 50 * SCALE,
            velocity_zoom: 50 * SCALE,
        }
    }

    /// Moves the viewport up by one vertical step.
    pub fn go_up(&mut self)
        requires
            i64::MIN <= old(self).camera_y - old(self).velocity_y <= i64::MAX,
        ensures
            *final(self) == (Camera { camera_y: (old(self).camera_y - old(self).velocity_y) as i64, ..*old(self) }),
    {
        self.camera_y = self.camera_y - self.velocity_y;
    }

    /// Moves the viewport down by one vertical step.
    pub fn go_down(&mut self)
        requires
            i64::MIN <= old(self).camera_y + old(self).velocity_y <= i64::MAX,
        ensures
            *final(self) == (Camera { camera_y: (old(self).camera_y + old(self).velocity_y) as i64, ..*old(self) }),
    {
        self.camera_y = self.camera_y + self.velocity_y;
    }

    /// Moves the viewport left by one horizontal step.
    pub fn go_left(&mut self)
        requires
            i64::MIN <= old(self).camera_x - old(self).velocity_x <= i64::MAX,
        ensures
            *final(self) == (Camera { camera_x: (old(self).camera_x - old(self).velocity_x) as i64, ..*old(self) }),
    {
        self.camera_x = self.camera_x - self.velocity_x;
    }

    /// Moves the viewport right by one horizontal step.
    pub fn go_right(&mut self)
        requires
            i64::MIN <= old(self).camera_x + old(self).velocity_x <= i64::MAX,
        ensures
            *final(self) == (Camera { camera_x: (old(self).camera_x + old(self).velocity_x) as i64, ..*old(self) }),
    {
        self.camera_x = self.camera_x + self.velocity_x;
    }

    /// Zooms in by one zoom step.
    pub fn zoom_in(&mut self)
        requires
            i64::MIN <= old(self).camera_zoom + old(self).velocity_zoom <= i64::MAX,
        ensures
            *final(self) == (Camera { camera_zoom: (old(self).camera_zoom + old(self).velocity_zoom) as i64, ..*old(self) }),
    {
        self.camera_zoom = self.camera_zoom + self.velocity_zoom;
    }

    /// Zooms out by one zoom step.
    pub fn zoom_out(&mut self)
        requires
            i64::MIN <= old(self).camera_zoom - old(self).velocity_zoom <= i64::MAX,
        ensures
            *final(self) == (Camera { camera_zoom: (old(self).camera_zoom - old(self).velocity_zoom) as i64, ..*old(self) }),
    {
        self.camera_zoom = self.camera_zoom - self.velocity_zoom;
    }

    /// Takes an immutable snapshot of the current viewport state.
    pub fn get_state(&self) -> (state: Camera)
        ensures
            state == *self,
    {
        let state = Camera {
            camera_zoom: self.camera_zoom,
            camera_x: self.camera_x,
            camera_y: self.camera_y,
            velocity_x: self.velocity_x,
            velocity_y: self.velocity_y,
            velocity_zoom: self.velocity_zoom,
        };
        state
    }
}

} // verus!
