use garshot::pixels::{blend_cursor, CursorImage};
use garshot::region::Region;

#[test]
fn test_blend_cursor_outside_bounds() {
    let mut image = vec![255u8; 4 * 4 * 4];
    let region = Region::new(0, 0, 4, 4);
    let cursor = CursorImage {
        x: 100,
        y: 100,
        width: 2,
        height: 2,
        xhot: 0,
        yhot: 0,
        pixels: vec![0xFF000000; 4],
    };

    blend_cursor(&mut image, 4, 4, &region, &cursor);

    assert!(image.iter().all(|&p| p == 255));
}

#[test]
fn test_blend_cursor_opaque() {
    let mut image = vec![255, 255, 255, 255, 255, 255, 255, 255, 255, 255, 255, 255, 255, 255, 255, 255];
    let region = Region::new(0, 0, 2, 2);
    let cursor = CursorImage {
        x: 0,
        y: 0,
        width: 1,
        height: 1,
        xhot: 0,
        yhot: 0,
        pixels: vec![0xFF0000FF],
    };

    blend_cursor(&mut image, 2, 2, &region, &cursor);

    assert_eq!(image[0], 0);
    assert_eq!(image[1], 0);
    assert_eq!(image[2], 255);
}

#[test]
fn blend_cursor_half_transparent_mixes() {
    // Premultiplied grey at alpha 128 over white: 64 + 255 * 127 / 255 = 191.
    let mut image = vec![255u8; 4];
    let region = Region::new(0, 0, 1, 1);
    let cursor = CursorImage { x: 0, y: 0, width: 1, height: 1, xhot: 0, yhot: 0, pixels: vec![0x80404040] };
    blend_cursor(&mut image, 1, 1, &region, &cursor);
    assert_eq!(image, vec![191, 191, 191, 255]);
}

#[test]
fn blend_cursor_keeps_alpha() {
    let mut image = vec![10, 20, 30, 77];
    let region = Region::new(0, 0, 1, 1);
    let cursor = CursorImage { x: 0, y: 0, width: 1, height: 1, xhot: 0, yhot: 0, pixels: vec![0xFF112233] };
    blend_cursor(&mut image, 1, 1, &region, &cursor);
    assert_eq!(image, vec![0x11, 0x22, 0x33, 77]);
}

#[test]
fn blend_cursor_respects_hotspot_and_region_offset() {
    let mut image = vec![0u8; 2 * 2 * 4];
    let region = Region::new(10, 10, 2, 2);
    let cursor = CursorImage { x: 12, y: 12, width: 1, height: 1, xhot: 1, yhot: 1, pixels: vec![0xFFFFFFFF] };
    blend_cursor(&mut image, 2, 2, &region, &cursor);
    // Cursor lands at (1, 1) of the image.
    assert_eq!(&image[12..16], &[255, 255, 255, 0]);
    assert!(image[..12].iter().all(|&b| b == 0));
}

#[test]
fn blend_cursor_transparent_pixel_is_skipped() {
    let mut image = vec![7u8; 4];
    let region = Region::new(0, 0, 1, 1);
    let cursor = CursorImage { x: 0, y: 0, width: 1, height: 1, xhot: 0, yhot: 0, pixels: vec![0x00FFFFFF] };
    blend_cursor(&mut image, 1, 1, &region, &cursor);
    assert_eq!(image, vec![7, 7, 7, 7]);
}
