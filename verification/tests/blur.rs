use garshot::blur::blur_rgba;

#[test]
fn test_blur_doesnt_crash() {
    let mut data = vec![128u8; 100 * 100 * 4];
    blur_rgba(&mut data, 100, 100, 5);
}

#[test]
fn test_blur_zero_radius() {
    let original = vec![1, 2, 3, 4, 5, 6, 7, 8];
    let mut data = original.clone();
    blur_rgba(&mut data, 2, 1, 0);
    assert_eq!(data, original);
}

#[test]
fn blur_of_uniform_image_is_uniform() {
    let mut data = vec![128u8; 10 * 10 * 4];
    blur_rgba(&mut data, 10, 10, 3);
    assert!(data.iter().all(|&b| b == 128));
}

#[test]
fn blur_single_row_exact_values() {
    // One row of three grey values, radius 1, three box passes.
    let mut data = vec![0, 0, 0, 0, 90, 90, 90, 90, 180, 180, 180, 180];
    blur_rgba(&mut data, 3, 1, 1);
    // Each pass averages the clamped window of three pixels (horizontal),
    // then the single-row vertical pass leaves values unchanged.
    let mut row = [0u32, 90, 180];
    for _ in 0..3 {
        let next = [
            (row[0] + row[0] + row[1]) / 3,
            (row[0] + row[1] + row[2]) / 3,
            (row[1] + row[2] + row[2]) / 3,
        ];
        row = next;
    }
    let expected: Vec<u8> = row.iter().flat_map(|&v| [v as u8; 4]).collect();
    assert_eq!(data, expected);
}

#[test]
fn blur_empty_image() {
    let mut data: Vec<u8> = vec![];
    blur_rgba(&mut data, 0, 0, 4);
    assert!(data.is_empty());
}
