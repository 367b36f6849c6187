//! Errors of the GPU layer, and the choices made when the drawing surface is
//! configured: its size and its pixel format.
use vstd::prelude::*;

verus! {

#[verifier::external_type_specification]
#[verifier::external_body]
pub struct ExOsError(winit::error::OsError);

#[verifier::external_type_specification]
#[verifier::external_body]
pub struct ExCreateSurfaceError(wgpu::CreateSurfaceError);

#[verifier::external_type_specification]
#[verifier::external_body]
pub struct ExRequestDeviceError(wgpu::RequestDeviceError);

#[verifier::external_type_specification]
#[verifier::external_body]
pub struct ExSurfaceError(wgpu::SurfaceError);

/// Everything that can go wrong while drawing.
#[derive(Debug)]
pub enum RenderError {
    /// The window could not be created.
    WindowCreation(winit::error::OsError),
    /// The drawing surface could not be created.
    SurfaceCreation(wgpu::CreateSurfaceError),
    /// Headless mode: there is no surface to draw a frame on.
    InvalidSurface,
    /// No GPU adapter suits the surface.
    NoSuitableAdapter,
    /// The GPU device could not be obtained.
    RequestDeviceFailed(wgpu::RequestDeviceError),
    /// The frame texture could not be acquired.
    SurfaceTextureFailed(wgpu::SurfaceError),
    /// Any other failure, described in words.
    Generic(String),
}

/// The surface size actually configured: each side at least 1 pixel.
pub fn clamp_surface_size(width: u32, height: u32) -> (wh: (u32, u32))
    ensures
        wh.0 == (if width >= 1 { width } else { 1 }),
        wh.1 == (if height >= 1 { height } else { 1 }),
{
    let w = if width >= 1 { width } else { 1 };
    let h = if height >= 1 { height } else { 1 };
    (w, h)
}

/// Index of the surface format to use, given for each supported format
/// (in the order the surface lists them) whether it is sRGB: the first sRGB
/// format, or else the first format.
pub fn preferred_format_index(is_srgb: &[bool]) -> (i: usize)
    requires
        is_srgb@.len() > 0,
    ensures
        i < is_srgb@.len(),
        (exists|j: int| 0 <= j < is_srgb@.len() && is_srgb@[j]) ==> {
            &&& is_srgb@[i as int]
            &&& forall|j: int| 0 <= j < i ==> !is_srgb@[j]
        },
        (forall|j: int| 0 <= j < is_srgb@.len() ==> !is_srgb@[j]) ==> i == 0,
{
    let mut i: usize = 0;
    while i < is_srgb.len()
        invariant
            i <= is_srgb@.len(),
            forall|j: int| 0 <= j < i ==> !is_srgb@[j],
        decreases is_srgb@.len() - i,
    {
        if is_srgb[i] {
            return i;
        }
        i = i + 1;
    }
    0
}

} // verus!
