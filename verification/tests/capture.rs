use garshot::capture::{
    clip_in_range, focus_window, frame_step, full_screen_region_result, plan_region_capture, property_window,
    region_capture_result, screen_capture_result, window_capture_region, FrameStep,
};
use garshot::region::{Region, WindowGeometry};
use garshot::GarshotError;

#[test]
fn region_plan_clips_or_rejects() {
    let r = Region::new(-10, -10, 100, 100);
    assert!(clip_in_range(&r, 1920, 1080));
    assert_eq!(plan_region_capture(&r, 1920, 1080).unwrap(), Region::new(0, 0, 90, 90));
    let off = Region::new(-300, 5, 100, 10);
    match plan_region_capture(&off, 1920, 1080) {
        Err(GarshotError::InvalidRegion(m)) => assert_eq!(m, "region 100x10+-300+5 is outside screen bounds"),
        _ => panic!("expected an invalid region"),
    }
    assert!(!clip_in_range(&Region::new(i16::MIN, 0, 1, 1), 10, 10));
}

#[test]
fn capture_results_convert_pixels() {
    let r = region_capture_result(&[1, 2, 3, 0], Region::new(5, 6, 1, 1), true);
    assert_eq!(r.data, vec![3, 2, 1, 255]);
    assert_eq!((r.width, r.height), (1, 1));
    assert_eq!(r.region, Region::new(5, 6, 1, 1));
    let s = screen_capture_result(&[1, 2, 3, 4], 1, 1, false);
    assert_eq!(s.data, vec![3, 2, 1, 4]);
    let full = full_screen_region_result(s, 1, 1);
    assert_eq!(full.region, Region::new(0, 0, 1, 1));
    assert_eq!(full.data, vec![3, 2, 1, 4]);
}

#[test]
fn window_regions_and_frames() {
    let g = WindowGeometry { id: 1, x: 10, y: 20, width: 30, height: 40, border_width: 3 };
    assert_eq!(window_capture_region(&g, false), Region::new(10, 20, 30, 40));
    assert_eq!(window_capture_region(&g, true), Region::new(7, 17, 36, 46));
    assert_eq!(frame_step(5, 1, 1), FrameStep::Found(5));
    assert_eq!(frame_step(5, 0, 1), FrameStep::Found(5));
    assert_eq!(frame_step(5, 9, 1), FrameStep::Parent(9));
}

#[test]
fn active_window_choice() {
    let bytes = 0x1234u32.to_ne_bytes();
    assert!(matches!(property_window(1, 32, &bytes), Ok(Some(0x1234))));
    assert!(matches!(property_window(1, 32, &[0, 0, 0, 0]), Ok(None)));
    assert!(matches!(property_window(0, 32, &bytes), Ok(None)));
    assert!(matches!(property_window(1, 8, &bytes), Ok(None)));
    assert!(matches!(property_window(1, 32, &[1, 2]), Err(GarshotError::NoActiveWindow)));
    assert!(matches!(focus_window(0, 7), Err(GarshotError::NoActiveWindow)));
    assert!(matches!(focus_window(7, 7), Err(GarshotError::NoActiveWindow)));
    assert!(matches!(focus_window(9, 7), Ok(9)));
}

#[test]
fn shm_buffer_checks() {
    use_shm_checks();
}

fn use_shm_checks() {
    assert_eq!(garshot::capture::shm_capture_bytes(2, 3, 24).unwrap(), 24);
    match garshot::capture::shm_capture_bytes(2, 3, 20) {
        Err(GarshotError::InvalidRegion(m)) => {
            assert_eq!(m, "Region 2x3 requires 24 bytes, but buffer is only 20 bytes")
        }
        _ => panic!("expected a buffer error"),
    }
    assert_eq!(garshot::capture::capture_drawable(Some(9), 1), 9);
    assert_eq!(garshot::capture::capture_drawable(None, 1), 1);
    assert_eq!(garshot::capture::compositor_selection_name(0), "_NET_WM_CM_S0");
}
