use vstd::prelude::*;

verus! {

/// A simple camera that can be used to move the view around.
///
/// If `is_active` is false the renderer does not use the camera.
#[derive(Clone)]
pub struct Camera {
    pub(crate) width: u32,
    pub(crate) height: u32,
    pub(crate) is_active: bool,
}

impl Camera {
    /// The width of the view in pixels.
    pub closed spec fn spec_width(&self) -> u32 {
        self.width
    }

    /// The height of the view in pixels.
    pub closed spec fn spec_height(&self) -> u32 {
        self.height
    }

    /// Whether the renderer uses this camera.
    pub closed spec fn spec_is_active(&self) -> bool {
        self.is_active
    }

    /// Creates a new, active camera of the given size.
    pub fn new(width: u32, height: u32) -> (camera: Self)
        ensures
            camera.spec_width() == width,
            camera.spec_height() == height,
            camera.spec_is_active(),
    {
        Self { width, height, is_active: true }
    }

    /// Creates a new, active camera of size 160 x 160.
    pub fn default() -> (camera: Self)
        ensures
            camera.spec_width() == 160,
            camera.spec_height() == 160,
            camera.spec_is_active(),
    {
        Self { width: 160, height: 160, is_active: true }
    }

    /// Sets the size of the camera; whether it is active does not change.
    pub fn set_size(&mut self, width: u32, height: u32)
        ensures
            final(self).spec_width() == width,
            final(self).spec_height() == height,
            final(self).spec_is_active() == old(self).spec_is_active(),
    {
        self.width = width;
        self.height = height;
    }

    /// Makes the camera active or inactive; its size does not change.
    pub fn set_active(&mut self, is_active: bool)
        ensures
            final(self).spec_is_active() == is_active,
            final(self).spec_width() == old(self).spec_width(),
            final(self).spec_height() == old(self).spec_height(),
    {
        self.is_active = is_active;
    }

    /// The width of the view in pixels.
    pub fn width(&self) -> (w: u32)
        ensures
            w == self.spec_width(),
    {
        self.width
    }

    /// The height of the view in pixels.
    pub fn height(&self) -> (h: u32)
        ensures
            h == self.spec_height(),
    {
        self.height
    }

    /// Whether the renderer uses this camera.
    pub fn is_active(&self) -> (a: bool)
        ensures
            a == self.spec_is_active(),
    {
        self.is_active
    }
}

} // verus!
