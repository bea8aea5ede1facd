//! Emulator presentation configuration.
use vstd::prelude::*;

verus! {

/// Display rotation modes.
///
/// Rotation applies to the window presentation only; drawing coordinates
/// stay logical (e.g. 800×480).
#[derive(Debug, Clone, Copy, PartialEq, Eq, Structural)]
pub enum Rotation {
    /// No rotation (landscape: width × height)
    Degrees0,
    /// Rotate 90° clockwise (portrait: height × width)
    Degrees90,
    /// Rotate 180° (upside-down landscape: width × height)
    Degrees180,
    /// Rotate 270° clockwise / 90° counter-clockwise (portrait: height × width)
    Degrees270,
}

/// Whether `r` swaps width and height.
pub open spec fn rotation_swaps(r: Rotation) -> bool {
    r == Rotation::Degrees90 || r == Rotation::Degrees270
}

impl Rotation {
    /// Check if rotation swaps width and height
    pub fn swaps_dimensions(&self) -> (r: bool)
        ensures
            r == rotation_swaps(*self),
    {
        matches!(self, Rotation::Degrees90 | Rotation::Degrees270)
    }

    /// Calculate window dimensions after rotation
    pub fn apply_to_dimensions(&self, width: u32, height: u32) -> (r: (u32, u32))
        ensures
            rotation_swaps(*self) ==> r == (height, width),
            !rotation_swaps(*self) ==> r == (width, height),
    {
        if self.swaps_dimensions() {
            (height, width)
        } else {
            (width, height)
        }
    }
}

/// Configuration for emulator display presentation.
#[derive(Debug, Clone, PartialEq, Eq, Structural)]
pub struct EmulatorConfig {
    /// Display rotation (affects window orientation only, not drawing coordinates)
    pub rotation: Rotation,
    /// Upscaling factor (1 = no scaling, 2 = 2x for visibility, etc.)
    pub scale: u32,
}

impl EmulatorConfig {
    /// No rotation, 2x scaling for visibility (the default).
    pub fn standard() -> (r: Self)
        ensures
            r == (EmulatorConfig { rotation: Rotation::Degrees0, scale: 2 }),
    {
        EmulatorConfig { rotation: Rotation::Degrees0, scale: 2 }
    }

    /// No rotation, no upscaling (1:1 pixel mapping)
    pub fn native() -> (r: Self)
        ensures
            r == (EmulatorConfig { rotation: Rotation::Degrees0, scale: 1 }),
    {
        EmulatorConfig { rotation: Rotation::Degrees0, scale: 1 }
    }

    /// Portrait mode (90° rotation), no upscaling
    pub fn portrait() -> (r: Self)
        ensures
            r == (EmulatorConfig { rotation: Rotation::Degrees90, scale: 1 }),
    {
        EmulatorConfig { rotation: Rotation::Degrees90, scale: 1 }
    }

    /// Portrait mode (90° rotation), 2x upscaling
    pub fn portrait_2x() -> (r: Self)
        ensures
            r == (EmulatorConfig { rotation: Rotation::Degrees90, scale: 2 }),
    {
        EmulatorConfig { rotation: Rotation::Degrees90, scale: 2 }
    }
}

impl Default for EmulatorConfig {
    fn default() -> (r: Self)
        ensures
            r == (EmulatorConfig { rotation: Rotation::Degrees0, scale: 2 }),
    {
        Self::standard()
    }
}

} // verus!
