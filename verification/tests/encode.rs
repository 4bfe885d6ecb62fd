use garshot::encode::{
    encode, encode_for_save, encode_jpeg_to_vec, encode_pam_to_vec, encode_png_to_vec, encode_ppm_to_vec,
    encode_webp_to_vec,
};
use garshot::GarshotError;

#[test]
fn test_encode_png_to_vec() {
    let data = vec![255, 0, 0, 255, 255, 0, 0, 255, 255, 0, 0, 255, 255, 0, 0, 255];

    let png_data = encode_png_to_vec(&data, 2, 2).unwrap();

    assert_eq!(&png_data[0..8], &[137, 80, 78, 71, 13, 10, 26, 10]);
}

#[test]
fn test_encode_png_invalid_size() {
    let data = vec![0; 10];
    let result = encode_png_to_vec(&data, 2, 2);
    assert!(result.is_err());
}

#[test]
fn png_size_error_message() {
    match encode_png_to_vec(&[0; 10], 2, 2) {
        Err(GarshotError::EncodeError(m)) => {
            assert_eq!(m, "Data size 10 does not match expected size 16 for 2x2 RGBA image")
        }
        _ => panic!("expected a size error"),
    }
}

#[test]
fn png_is_decodable_and_keeps_pixels() {
    let data = vec![1, 2, 3, 4, 5, 6, 7, 8];
    let png_data = encode_png_to_vec(&data, 2, 1).unwrap();
    let decoder = png::Decoder::new(std::io::Cursor::new(png_data));
    let mut reader = decoder.read_info().unwrap();
    let mut buf = vec![0; reader.output_buffer_size()];
    let info = reader.next_frame(&mut buf).unwrap();
    assert_eq!((info.width, info.height), (2, 1));
    assert_eq!(&buf[..info.buffer_size()], &data[..]);
}

#[test]
fn test_encode_ppm_to_vec() {
    let data = vec![255, 0, 0, 255, 0, 255, 0, 255, 0, 0, 255, 255, 255, 255, 255, 255];

    let ppm_data = encode_ppm_to_vec(&data, 2, 2).unwrap();

    assert!(ppm_data.starts_with(b"P6\n2 2\n255\n"));

    assert_eq!(ppm_data.len(), 11 + 12);
}

#[test]
fn ppm_drops_alpha_and_partial_pixel() {
    let data = vec![1, 2, 3, 4, 5, 6, 7, 8, 9];
    let ppm = encode_ppm_to_vec(&data, 2, 1).unwrap();
    assert_eq!(ppm, b"P6\n2 1\n255\n\x01\x02\x03\x05\x06\x07".to_vec());
}

#[test]
fn test_encode_pam_to_vec() {
    let data = vec![255, 0, 0, 128, 0, 255, 0, 255];

    let pam_data = encode_pam_to_vec(&data, 2, 1).unwrap();

    let header_str = String::from_utf8_lossy(&pam_data);
    assert!(header_str.contains("P7"));
    assert!(header_str.contains("WIDTH 2"));
    assert!(header_str.contains("HEIGHT 1"));
    assert!(header_str.contains("DEPTH 4"));
    assert!(header_str.contains("TUPLTYPE RGB_ALPHA"));
    assert!(header_str.contains("ENDHDR"));
}

#[test]
fn pam_exact_bytes() {
    let pam = encode_pam_to_vec(&[9, 8, 7, 6], 1, 1).unwrap();
    let mut expected = b"P7\nWIDTH 1\nHEIGHT 1\nDEPTH 4\nMAXVAL 255\nTUPLTYPE RGB_ALPHA\nENDHDR\n".to_vec();
    expected.extend_from_slice(&[9, 8, 7, 6]);
    assert_eq!(pam, expected);
}

#[test]
fn encode_selects_png_case_insensitively() {
    let data = vec![0u8; 4];
    let bytes = encode(&data, 1, 1, "PNG", 90).unwrap();
    assert_eq!(&bytes[..4], &[137, 80, 78, 71]);
    match encode(&data, 1, 1, "gif", 90) {
        Err(GarshotError::EncodeError(m)) => assert_eq!(m, "Unsupported format: gif"),
        _ => panic!("expected unsupported format"),
    }
}

#[test]
fn encode_handles_every_format() {
    let data = vec![255, 0, 0, 255, 0, 255, 0, 255, 0, 0, 255, 255, 255, 255, 255, 255];
    assert_eq!(encode(&data, 2, 2, "Jpeg", 80).unwrap(), encode_jpeg_to_vec(&data, 2, 2, 80).unwrap());
    assert_eq!(encode(&data, 2, 2, "WEBP", 80).unwrap(), encode_webp_to_vec(&data, 2, 2, 80).unwrap());
    assert_eq!(encode(&data, 2, 2, "ppm", 80).unwrap(), encode_ppm_to_vec(&data, 2, 2).unwrap());
    assert_eq!(encode(&data, 2, 2, "PaM", 80).unwrap(), encode_pam_to_vec(&data, 2, 2).unwrap());
    assert_eq!(encode(&data, 2, 2, "png", 80).unwrap(), encode_png_to_vec(&data, 2, 2).unwrap());
    match encode(&data, 2, 2, "jpg", 80) {
        Err(GarshotError::EncodeError(m)) => assert_eq!(m, "Unsupported format: jpg"),
        _ => panic!("expected unsupported format"),
    }
}

#[test]
fn encode_for_save_handles_every_format() {
    let data = vec![1, 2, 3, 255, 4, 5, 6, 255];
    let jpeg = encode_for_save(&data, 2, 1, "jpeg", 90).unwrap();
    assert_eq!(&jpeg[..2], &[0xFF, 0xD8]);
    let webp = encode_for_save(&data, 2, 1, "webp", 90).unwrap();
    assert_eq!(&webp[0..4], b"RIFF");
    assert_eq!(encode_for_save(&data, 2, 1, "ppm", 90).unwrap(), b"P6\n2 1\n255\n\x01\x02\x03\x04\x05\x06".to_vec());
    assert_eq!(encode_for_save(&data, 2, 1, "pam", 90).unwrap(), encode_pam_to_vec(&data, 2, 1).unwrap());
}

#[test]
fn webp_refuses_oversized_dimensions() {
    assert!(encode_webp_to_vec(&vec![0u8; 16385 * 4], 16385, 1, 90).is_err());
    assert!(encode_webp_to_vec(&vec![0u8; 16384 * 4], 16384, 1, 90).is_ok());
}

#[test]
fn encode_for_save_matches_exactly() {
    let data = vec![0u8; 4];
    assert!(encode_for_save(&data, 1, 1, "png", 90).is_ok());
    match encode_for_save(&data, 1, 1, "PNG", 90) {
        Err(GarshotError::EncodeError(m)) => assert_eq!(m, "Unsupported format: PNG"),
        _ => panic!("expected unsupported format"),
    }
}

#[test]
fn test_encode_jpeg_to_vec() {
    let data = vec![255, 0, 0, 255, 255, 0, 0, 255, 255, 0, 0, 255, 255, 0, 0, 255];

    let jpeg_data = encode_jpeg_to_vec(&data, 2, 2, 90).unwrap();

    assert!(jpeg_data.len() > 10);
    assert_eq!(jpeg_data[0], 0xFF);
    assert_eq!(jpeg_data[1], 0xD8);
}

#[test]
fn jpeg_errors() {
    match encode_jpeg_to_vec(&[0; 15], 2, 2, 90) {
        Err(GarshotError::EncodeError(m)) => assert_eq!(m, "Invalid image dimensions"),
        _ => panic!("expected a dimensions error"),
    }
    assert!(encode_jpeg_to_vec(&[], 0, 0, 90).is_err());
    // A longer buffer is accepted; only the image's bytes are used.
    assert!(encode_jpeg_to_vec(&[9; 20], 2, 2, 50).is_ok());
}

#[test]
fn test_encode_webp_to_vec() {
    let data = vec![255, 0, 0, 255, 255, 0, 0, 255, 255, 0, 0, 255, 255, 0, 0, 255];

    let webp_data = encode_webp_to_vec(&data, 2, 2, 90).unwrap();

    assert!(webp_data.len() > 10);
    assert_eq!(&webp_data[0..4], b"RIFF");
    assert_eq!(&webp_data[8..12], b"WEBP");
}

#[test]
fn webp_short_buffer() {
    match encode_webp_to_vec(&[0; 3], 1, 1, 90) {
        Err(GarshotError::EncodeError(m)) => assert_eq!(m, "Invalid image dimensions"),
        _ => panic!("expected a dimensions error"),
    }
}
