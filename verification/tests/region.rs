use garshot::region::{
    find_monitor, get_primary_monitor, sort_monitors, usable_output, Monitor, Region,
    WindowGeometry,
};
use garshot::GarshotError;

#[test]
fn test_region_from_geometry() {
    let r = Region::from_geometry("800x600+100+50").unwrap();
    assert_eq!(r.width, 800);
    assert_eq!(r.height, 600);
    assert_eq!(r.x, 100);
    assert_eq!(r.y, 50);
}

#[test]
fn test_region_from_geometry_negative() {
    let r = Region::from_geometry("640x480-10-20").unwrap();
    assert_eq!(r.width, 640);
    assert_eq!(r.height, 480);
    assert_eq!(r.x, -10);
    assert_eq!(r.y, -20);
}

#[test]
fn test_region_clip() {
    let r = Region::new(-10, -10, 100, 100);
    let clipped = r.clip_to_screen(1920, 1080);
    assert_eq!(clipped.x, 0);
    assert_eq!(clipped.y, 0);
    assert_eq!(clipped.width, 90);
    assert_eq!(clipped.height, 90);
}

#[test]
fn test_region_clip_overflow() {
    let r = Region::new(1900, 1000, 100, 200);
    let clipped = r.clip_to_screen(1920, 1080);
    assert_eq!(clipped.x, 1900);
    assert_eq!(clipped.y, 1000);
    assert_eq!(clipped.width, 20);
    assert_eq!(clipped.height, 80);
}

fn invalid_region_message(s: &str) -> String {
    match Region::from_geometry(s) {
        Err(GarshotError::InvalidRegion(m)) => m,
        _ => panic!("expected an invalid region"),
    }
}

#[test]
fn geometry_errors_name_the_bad_field() {
    assert_eq!(invalid_region_message("800600+1+1"), "missing 'x' separator");
    assert_eq!(invalid_region_message("abcx600+1+1"), "invalid width");
    assert_eq!(invalid_region_message("800x600"), "missing +/- for x coordinate");
    assert_eq!(invalid_region_message("800xab+1+1"), "invalid height");
    assert_eq!(invalid_region_message("800x600+1"), "missing +/- for y coordinate");
    assert_eq!(invalid_region_message("800x600+q+1"), "invalid x coordinate");
    assert_eq!(invalid_region_message("800x600+1+q"), "invalid y coordinate");
}

#[test]
fn geometry_is_trimmed_and_mixes_signs() {
    let r = Region::from_geometry("  10x20-3+4 ").unwrap();
    assert_eq!(r, Region::new(-3, 4, 10, 20));
}

#[test]
fn geometry_offsets_take_one_sign() {
    assert_eq!(invalid_region_message("10x10+5--7"), "invalid y coordinate");
    assert_eq!(invalid_region_message("10x10+5-+7"), "invalid y coordinate");
    assert_eq!(invalid_region_message("1x1+0--32768"), "invalid y coordinate");
    assert_eq!(invalid_region_message("1x1+0-32768"), "invalid y coordinate");
    assert_eq!(invalid_region_message("1x1+32768+0"), "invalid x coordinate");
    assert_eq!(Region::from_geometry("1x1-32767-32767").unwrap(), Region::new(-32767, -32767, 1, 1));
}

#[test]
fn formatted_geometry_parses_back() {
    assert_eq!(Region::from_geometry("1920x1080+0+0").unwrap(), Region::new(0, 0, 1920, 1080));
    assert_eq!(Region::from_geometry("640x480-10-10").unwrap(), Region::new(-10, -10, 640, 480));
    assert_eq!(Region::from_geometry("\t65535x0+32767-1\n").unwrap(), Region::new(32767, -1, 65535, 0));
}

#[test]
fn clip_entirely_off_screen_is_empty() {
    let r = Region::new(2000, 5, 10, 10);
    let c = r.clip_to_screen(1920, 1080);
    assert_eq!(c.width, 0);
    assert!(!c.is_valid());
    assert!(Region::new(0, 0, 1, 1).is_valid());
}

#[test]
fn test_window_geometry_to_region() {
    let geom = WindowGeometry { id: 0x12345, x: 100, y: 200, width: 800, height: 600, border_width: 2 };

    let region = geom.to_region();
    assert_eq!(region.x, 100);
    assert_eq!(region.y, 200);
    assert_eq!(region.width, 800);
    assert_eq!(region.height, 600);
}

#[test]
fn test_window_geometry_to_region_with_borders() {
    let geom = WindowGeometry { id: 0x12345, x: 100, y: 200, width: 800, height: 600, border_width: 2 };

    let region = geom.to_region_with_borders();
    assert_eq!(region.x, 98);
    assert_eq!(region.y, 198);
    assert_eq!(region.width, 804);
    assert_eq!(region.height, 604);
}

fn monitor(name: &str, x: i16, primary: bool) -> Monitor {
    Monitor { name: name.to_string(), x, y: 0, width: 1920, height: 1080, primary, output_id: 0, crtc_id: 0 }
}

#[test]
fn test_monitor_to_region() {
    let monitor = Monitor {
        name: "HDMI-1".to_string(),
        x: 1920,
        y: 0,
        width: 1920,
        height: 1080,
        primary: false,
        output_id: 0,
        crtc_id: 0,
    };

    let region = monitor.to_region();
    assert_eq!(region.x, 1920);
    assert_eq!(region.y, 0);
    assert_eq!(region.width, 1920);
    assert_eq!(region.height, 1080);
}

#[test]
fn monitors_are_found_by_name_and_primary_flag() {
    let monitors = vec![monitor("eDP-1", 0, false), monitor("HDMI-1", 1920, true), monitor("HDMI-1", 3840, true)];
    assert_eq!(find_monitor(&monitors, "HDMI-1").unwrap().x, 1920);
    assert!(find_monitor(&monitors, "DP-2").is_none());
    assert_eq!(get_primary_monitor(&monitors).unwrap().x, 1920);
    assert!(get_primary_monitor(&monitors[..1]).is_none());
}

#[test]
fn monitors_sorted_by_position_stably() {
    let mut ms = vec![
        Monitor { name: "c".to_string(), x: 1920, y: 0, width: 1, height: 1, primary: false, output_id: 0, crtc_id: 0 },
        Monitor { name: "a".to_string(), x: 0, y: 1080, width: 1, height: 1, primary: false, output_id: 0, crtc_id: 0 },
        Monitor { name: "b".to_string(), x: 0, y: 0, width: 1, height: 1, primary: false, output_id: 0, crtc_id: 0 },
        Monitor { name: "d".to_string(), x: 0, y: 0, width: 1, height: 1, primary: false, output_id: 0, crtc_id: 0 },
    ];
    sort_monitors(&mut ms);
    let names: Vec<&str> = ms.iter().map(|m| m.name.as_str()).collect();
    assert_eq!(names, vec!["b", "d", "a", "c"]);
    assert!(usable_output(5, true));
    assert!(!usable_output(0, true));
    assert!(!usable_output(5, false));
}
