//! Surface configuration scenarios.
use asterism::gpu_context::{clamp_surface_size, preferred_format_index};

#[test]
fn ac03_resize_updates_config() {
    assert_eq!(clamp_surface_size(1280, 720), (1280, 720));
}

#[test]
fn ac03_resize_zero_clamped_to_one() {
    assert_eq!(clamp_surface_size(0, 0), (1, 1));
    assert_eq!(clamp_surface_size(0, 5), (1, 5));
}

#[test]
fn srgb_format_is_preferred() {
    assert_eq!(preferred_format_index(&[false, true, true]), 1);
    assert_eq!(preferred_format_index(&[true]), 0);
    assert_eq!(preferred_format_index(&[false, false]), 0);
}
