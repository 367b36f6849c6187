//! Background layer settings that do not touch the GPU.
use vstd::prelude::*;

verus! {

/// Background fit mode used by the fullscreen-quad shader.
///
/// The variant order gives the shader codes: `Contain` is 0, `Cover` is 1.
#[derive(Debug, Clone, Copy, PartialEq, Eq, Structural)]
pub enum FitMode {
    /// Show the whole texture, keep the aspect ratio, letterbox the rest.
    Contain,
    /// Scale to fill the window, keep the aspect ratio, crop the overflow.
    Cover,
}

impl FitMode {
    /// Integer code of the mode as the shader reads it.
    pub fn code(self) -> (c: u8)
        ensures
            c == (match self {
                FitMode::Contain => 0u8,
                FitMode::Cover => 1u8,
            }),
    {
        match self {
            FitMode::Contain => 0,
            FitMode::Cover => 1,
        }
    }
}

impl Default for FitMode {
    /// `Cover` is the default.
    fn default() -> (m: Self)
        ensures
            m == FitMode::Cover,
    {
        FitMode::Cover
    }
}

} // verus!
