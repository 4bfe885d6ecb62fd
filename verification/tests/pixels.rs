use garshot::pixels::{bgra_to_rgba, bgra_to_rgba_inplace, bgra_to_rgba_inplace_with_alpha, bgra_to_rgba_with_alpha, rgba_to_bgra};

#[test]
fn test_bgra_to_rgba() {
    let bgra = vec![0, 128, 255, 255];
    let rgba = bgra_to_rgba(&bgra);
    assert_eq!(rgba, vec![255, 128, 0, 255]);
}

#[test]
fn test_bgra_to_rgba_inplace() {
    let mut data = vec![0, 128, 255, 255];
    bgra_to_rgba_inplace(&mut data);
    assert_eq!(data, vec![255, 128, 0, 255]);
}

#[test]
fn forced_alpha_and_partial_pixels() {
    let bgra = vec![1, 2, 3, 0, 9, 9];
    assert_eq!(bgra_to_rgba_with_alpha(&bgra, true), vec![3, 2, 1, 255]);
    let mut data = bgra.clone();
    bgra_to_rgba_inplace_with_alpha(&mut data, true);
    assert_eq!(data, vec![3, 2, 1, 255, 9, 9]);
}

#[test]
fn round_trip_restores_bytes() {
    let bgra = vec![10, 20, 30, 40, 50, 60, 70, 80];
    assert_eq!(rgba_to_bgra(&bgra_to_rgba(&bgra)), bgra);
    let mut inplace = bgra.clone();
    bgra_to_rgba_inplace(&mut inplace);
    assert_eq!(inplace, bgra_to_rgba(&bgra));
}
