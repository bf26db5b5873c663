//! What the kernel would like the boot stage to set up.

use vstd::prelude::*;

verus! {

/// The preferences of the kernel for the boot; to be respected where
/// possible.
#[derive(Debug, Copy, Clone, PartialEq, Eq, Structural)]
pub struct SystemConfig {
    /// The width of the screen that the kernel would like, in pixels.
    pub preferred_width: u32,
    /// The height of the screen that the kernel would like, in pixels.
    pub preferred_height: u32,
}

impl SystemConfig {
    /// The width of the screen that the kernel would like, in pixels.
    pub fn preferred_width(&self) -> (value: u32)
        ensures
            value == self.preferred_width,
    {
        self.preferred_width
    }

    /// The height of the screen that the kernel would like, in pixels.
    pub fn preferred_height(&self) -> (value: u32)
        ensures
            value == self.preferred_height,
    {
        self.preferred_height
    }

    /// The preferences for a screen of `width` by `height` pixels.
    pub fn new(width: u32, height: u32) -> (config: Self)
        ensures
            config == (SystemConfig { preferred_width: width, preferred_height: height }),
    {
        SystemConfig { preferred_width: width, preferred_height: height }
    }

    /// The preferences that hold when nothing else is known: a screen of
    /// 1920 by 1080 pixels.
    pub fn default() -> (config: Self)
        ensures
            config == (SystemConfig { preferred_width: 1920, preferred_height: 1080 }),
    {
        SystemConfig { preferred_width: 1920, preferred_height: 1080 }
    }
}

} // verus!
