use screenshot_ocr::bmp::encode_bmp;
use screenshot_ocr::cache::CaptureCache;
use screenshot_ocr::capture::{
    build_monitor_capture, capture_all_monitors, ensure_screen_capture_permission, DisplayQuery,
    PixelOrder, RawDisplayCapture,
};
use screenshot_ocr::error::Error;
use screenshot_ocr::pixels::{force_opaque_bgra, repack_display_rows, rgba_to_bgra_opaque};
use screenshot_ocr::scale::ScaleFactor;

fn raw_rgba(
    width: u32,
    height: u32,
    logical: (i32, i32, u32, u32),
    reported: Option<ScaleFactor>,
) -> RawDisplayCapture {
    let mut pixels = Vec::new();
    for i in 0..(width * height) {
        pixels.push((i % 7) as u8); // red
        pixels.push((i % 11) as u8); // green
        pixels.push((i % 13) as u8); // blue
        pixels.push(7); // unreliable alpha
    }
    RawDisplayCapture {
        width,
        height,
        pixels,
        order: PixelOrder::Rgba,
        bytes_per_row: (4 * width) as usize,
        logical_x: logical.0,
        logical_y: logical.1,
        logical_width: logical.2,
        logical_height: logical.3,
        reported_scale: reported,
    }
}

#[test]
fn rgba_surface_is_canonicalized_and_encoded() {
    let raw = raw_rgba(2, 2, (0, 0, 2, 2), Some(ScaleFactor { num: 1, den: 1 }));
    let expected_pixels = rgba_to_bgra_opaque(&raw.pixels);
    let expected_file = encode_bmp(2, 2, &expected_pixels).unwrap();
    let info = build_monitor_capture(raw).unwrap();
    assert_eq!(info.encoded_image, expected_file);
    assert_eq!(info.physical_width, 2);
    assert_eq!(info.physical_height, 2);
    // every pixel is B,G,R with alpha forced opaque
    for px in expected_pixels.chunks_exact(4) {
        assert_eq!(px[3], 255);
    }
}

#[test]
fn channel_order_swaps_red_and_blue() {
    let src: Vec<u8> = vec![1, 2, 3, 4, 5, 6, 7, 8];
    let out = rgba_to_bgra_opaque(&src);
    assert_eq!(out, vec![3, 2, 1, 255, 7, 6, 5, 255]);
}

#[test]
fn forcing_alpha_keeps_colour_bytes() {
    let src: Vec<u8> = vec![9, 8, 7, 0, 1, 2, 3, 10];
    let out = force_opaque_bgra(&src);
    assert_eq!(out, vec![9, 8, 7, 255, 1, 2, 3, 255]);
}

#[test]
fn stride_padded_surface_is_repacked() {
    // 1x2 image, 8 bytes per row with 4 bytes of padding per row
    let data: Vec<u8> = vec![
        1, 2, 3, 9, 99, 99, 99, 99, // row 0 + padding
        4, 5, 6, 9, 88, 88, 88, 88, // row 1 + padding
    ];
    let out = repack_display_rows(1, 2, 8, &data).unwrap();
    assert_eq!(out, vec![1, 2, 3, 255, 4, 5, 6, 255]);
}

#[test]
fn repack_rejects_bad_geometry() {
    let data: Vec<u8> = vec![0; 16];
    assert!(matches!(
        repack_display_rows(0, 2, 8, &data),
        Err(Error::EncodingInvariantViolation)
    ));
    assert!(matches!(
        repack_display_rows(2, 2, 4, &data), // stride shorter than a row
        Err(Error::EncodingInvariantViolation)
    ));
    assert!(matches!(
        repack_display_rows(1, 8, 4, &data), // buffer covers only 4 rows
        Err(Error::EncodingInvariantViolation)
    ));
}

#[test]
fn two_displays_get_their_physical_origins() {
    // logical (0,0,1920,1080) at scale 1.0 and (1920,0,1280,720) at 1.25
    let displays = vec![
        DisplayQuery::Captured(raw_rgba(
            2,
            2,
            (0, 0, 1920, 1080),
            Some(ScaleFactor { num: 1, den: 1 }),
        )),
        DisplayQuery::Captured(raw_rgba(
            2,
            2,
            (1920, 0, 1280, 720),
            Some(ScaleFactor { num: 5, den: 4 }),
        )),
    ];
    let infos = capture_all_monitors(true, displays).unwrap();
    assert_eq!(infos.len(), 2);
    assert_eq!((infos[0].physical_x, infos[0].physical_y), (0, 0));
    assert_eq!((infos[1].physical_x, infos[1].physical_y), (2400, 0));
    assert_eq!(infos[0].scale_factor, ScaleFactor { num: 1, den: 1 });
    assert_eq!(infos[1].scale_factor, ScaleFactor { num: 5, den: 4 });
}

#[test]
fn missing_permission_aborts_the_whole_call() {
    let displays = vec![DisplayQuery::Captured(raw_rgba(1, 1, (0, 0, 1, 1), None))];
    assert!(matches!(
        capture_all_monitors(false, displays),
        Err(Error::PermissionDenied)
    ));
    assert!(ensure_screen_capture_permission(true).is_ok());
    assert!(matches!(
        ensure_screen_capture_permission(false),
        Err(Error::PermissionDenied)
    ));
}

#[test]
fn no_displays_is_its_own_failure() {
    assert!(matches!(
        capture_all_monitors(true, Vec::new()),
        Err(Error::NoDisplaysFound)
    ));
}

#[test]
fn first_failure_aborts_with_its_index() {
    let displays = vec![
        DisplayQuery::Captured(raw_rgba(1, 1, (0, 0, 1, 1), None)),
        DisplayQuery::QueryFailed {
            cause: String::from("no geometry"),
        },
        DisplayQuery::CaptureFailed {
            cause: String::from("unreached"),
        },
    ];
    match capture_all_monitors(true, displays) {
        Err(Error::DisplayQueryFailed { index, cause }) => {
            assert_eq!(index, 1);
            assert_eq!(cause, "no geometry");
        }
        other => panic!("expected a display-query failure, got {:?}", other),
    }
}

#[test]
fn capture_failure_carries_index_and_cause() {
    let displays = vec![DisplayQuery::CaptureFailed {
        cause: String::from("device busy"),
    }];
    match capture_all_monitors(true, displays) {
        Err(Error::CaptureFailed { index, cause }) => {
            assert_eq!(index, 0);
            assert_eq!(cause, "device busy");
        }
        other => panic!("expected a capture failure, got {:?}", other),
    }
}

#[test]
fn zero_logical_extent_is_clamped_to_one() {
    let info = build_monitor_capture(raw_rgba(1, 1, (5, 5, 0, 0), None)).unwrap();
    assert_eq!(info.logical_width, 1);
    assert_eq!(info.logical_height, 1);
    assert!(info.scale_factor.num > 0 && info.scale_factor.den > 0);
}

#[test]
fn cache_holds_exactly_the_latest_set() {
    let mut cache = CaptureCache::new();
    assert!(cache.get_last_captures().is_none());

    let a = capture_all_monitors(
        true,
        vec![DisplayQuery::Captured(raw_rgba(1, 1, (0, 0, 1, 1), None))],
    )
    .unwrap();
    cache.store_last_captures(a);
    assert_eq!(cache.get_last_captures().unwrap().len(), 1);

    let b = capture_all_monitors(
        true,
        vec![
            DisplayQuery::Captured(raw_rgba(1, 1, (0, 0, 1, 1), None)),
            DisplayQuery::Captured(raw_rgba(2, 2, (1, 0, 2, 2), None)),
        ],
    )
    .unwrap();
    let b_first_image = b[0].encoded_image.clone();
    cache.store_last_captures(b);
    let got = cache.get_last_captures().unwrap();
    assert_eq!(got.len(), 2);
    assert_eq!(got[0].encoded_image, b_first_image);

    cache.clear_last_captures();
    assert!(cache.get_last_captures().is_none());
}
