use screenshot_ocr::bmp::encode_bmp;
use screenshot_ocr::error::Error;

#[test]
fn one_pixel_file_is_byte_exact() {
    let pixels: Vec<u8> = vec![10, 20, 30, 255];
    let file = encode_bmp(1, 1, &pixels).unwrap();
    let mut expected: Vec<u8> = Vec::new();
    expected.extend_from_slice(b"BM");
    expected.extend_from_slice(&58u32.to_le_bytes()); // total size
    expected.extend_from_slice(&[0, 0, 0, 0]); // reserved
    expected.extend_from_slice(&54u32.to_le_bytes()); // pixel-data offset
    expected.extend_from_slice(&40u32.to_le_bytes()); // format-header size
    expected.extend_from_slice(&1i32.to_le_bytes()); // width
    expected.extend_from_slice(&(-1i32).to_le_bytes()); // height, negated
    expected.extend_from_slice(&1u16.to_le_bytes()); // planes
    expected.extend_from_slice(&32u16.to_le_bytes()); // bits per pixel
    expected.extend_from_slice(&0u32.to_le_bytes()); // compression
    expected.extend_from_slice(&4u32.to_le_bytes()); // pixel-data size
    expected.extend_from_slice(&[0u8; 16]); // remaining fields
    expected.extend_from_slice(&pixels);
    assert_eq!(file, expected);
}

fn round_trip(width: u32, height: u32) {
    // canonical B,G,R,A pixels, alpha forced opaque
    let mut pixels: Vec<u8> = Vec::with_capacity((width * height * 4) as usize);
    for i in 0..(width * height) {
        pixels.push((i % 251) as u8); // blue
        pixels.push((i % 241) as u8); // green
        pixels.push((i % 239) as u8); // red
        pixels.push(255); // alpha
    }
    let file = encode_bmp(width, height, &pixels).unwrap();
    let decoded = image::load_from_memory(&file).unwrap();
    assert_eq!(decoded.width(), width);
    assert_eq!(decoded.height(), height);
    let rgba = decoded.to_rgba8();
    let raw = rgba.as_raw();
    assert_eq!(raw.len(), pixels.len());
    for i in 0..(width * height) as usize {
        let b = pixels[4 * i];
        let g = pixels[4 * i + 1];
        let r = pixels[4 * i + 2];
        assert_eq!(raw[4 * i], r);
        assert_eq!(raw[4 * i + 1], g);
        assert_eq!(raw[4 * i + 2], b);
        assert_eq!(raw[4 * i + 3], 255);
    }
}

#[test]
fn standard_reader_round_trip_one_pixel() {
    round_trip(1, 1);
}

#[test]
fn standard_reader_round_trip_two_by_two() {
    round_trip(2, 2);
}

#[test]
fn standard_reader_round_trip_full_hd() {
    round_trip(1920, 1080);
}

#[test]
fn zero_extent_is_rejected() {
    let pixels: Vec<u8> = Vec::new();
    assert!(matches!(
        encode_bmp(0, 1, &pixels),
        Err(Error::EncodingInvariantViolation)
    ));
    assert!(matches!(
        encode_bmp(1, 0, &pixels),
        Err(Error::EncodingInvariantViolation)
    ));
}

#[test]
fn undersized_buffer_is_rejected() {
    let pixels: Vec<u8> = vec![1, 2, 3];
    assert!(matches!(
        encode_bmp(1, 1, &pixels),
        Err(Error::EncodingInvariantViolation)
    ));
}
