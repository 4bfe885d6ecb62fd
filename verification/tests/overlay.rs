use garshot::overlay::{dimension_label, image_chunks, label_position};
use garshot::region::Region;

#[test]
fn chunks_cover_all_rows() {
    // 1000 pixels wide: 4000 bytes per row, 16 rows per request.
    let chunks = image_chunks(1000, 40);
    let rows: Vec<(u16, u16)> = chunks.iter().map(|c| (c.y, c.rows)).collect();
    assert_eq!(rows, vec![(0, 16), (16, 16), (32, 8)]);
    assert_eq!(chunks[1].start, 16 * 4000);
    assert_eq!(chunks[2].end, 40 * 4000);
}

#[test]
fn wide_image_one_row_per_chunk() {
    let chunks = image_chunks(20000, 3);
    assert_eq!(chunks.len(), 3);
    assert!(chunks.iter().all(|c| c.rows == 1));
    assert!(image_chunks(5, 0).is_empty());
}

#[test]
fn size_label() {
    let r = Region::new(10, 20, 300, 200);
    assert_eq!(dimension_label(&r), "300x200");
    assert_eq!(label_position(&r), (15, 215));
}
