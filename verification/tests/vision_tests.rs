use screenshot_ocr::bmp::encode_bmp;
use screenshot_ocr::error::Error;
use screenshot_ocr::vision::{
    assemble_vision_result, convert_vision_box, vision_image_dimensions, VisionObservation,
};

#[test]
fn normalized_box_converts_to_pixels() {
    // {x: 0.1, y: 0.8, width: 0.2, height: 0.1} on a 1000 x 1000 image
    let (x, y, w, h) = convert_vision_box(100_000, 800_000, 200_000, 100_000, 1000, 1000);
    assert_eq!(x, 100);
    assert_eq!(y, 100); // (1 - 0.8 - 0.1) * 1000
    assert_eq!(w, 200);
    assert_eq!(h, 100);
}

#[test]
fn top_edge_clamps_at_zero() {
    // bottom + height exceed the top of the image
    let (_, y, _, _) = convert_vision_box(0, 950_000, 100_000, 100_000, 1000, 1000);
    assert_eq!(y, 0);
}

#[test]
fn observations_become_single_word_lines_sorted_spatially() {
    let obs = vec![
        VisionObservation {
            text: String::from("below"),
            x_ppm: 100_000,
            y_ppm: 100_000, // near the bottom => large pixel y
            width_ppm: 200_000,
            height_ppm: 50_000,
        },
        VisionObservation {
            text: String::from("above"),
            x_ppm: 100_000,
            y_ppm: 900_000, // near the top => small pixel y
            width_ppm: 200_000,
            height_ppm: 50_000,
        },
    ];
    let out = assemble_vision_result(1000, 1000, obs);
    assert_eq!(out.lines.len(), 2);
    assert_eq!(out.lines[0].text, "above");
    assert_eq!(out.lines[1].text, "below");
    assert_eq!(out.text, "above\nbelow");
    for line in &out.lines {
        assert_eq!(line.words.len(), 1);
        assert_eq!(line.word_gaps.len(), 0);
        // word geometry mirrors the line geometry
        assert_eq!(line.words[0].x, line.x);
        assert_eq!(line.words[0].y, line.y);
        assert_eq!(line.words[0].width, line.width);
        assert_eq!(line.words[0].height, line.height);
    }
}

#[test]
fn equal_tops_order_by_left_edge() {
    let mk = |text: &str, x_ppm: u32| VisionObservation {
        text: String::from(text),
        x_ppm,
        y_ppm: 500_000,
        width_ppm: 100_000,
        height_ppm: 100_000,
    };
    let out = assemble_vision_result(1000, 1000, vec![mk("right", 600_000), mk("left", 100_000)]);
    assert_eq!(out.text, "left\nright");
}

#[test]
fn blank_observations_are_discarded() {
    let obs = vec![
        VisionObservation {
            text: String::from("  \t "),
            x_ppm: 0,
            y_ppm: 0,
            width_ppm: 100_000,
            height_ppm: 100_000,
        },
        VisionObservation {
            text: String::from("kept"),
            x_ppm: 0,
            y_ppm: 0,
            width_ppm: 100_000,
            height_ppm: 100_000,
        },
    ];
    let out = assemble_vision_result(1000, 1000, obs);
    assert_eq!(out.lines.len(), 1);
    assert_eq!(out.lines[0].text, "kept");
}

#[test]
fn no_observations_yield_an_empty_result() {
    let out = assemble_vision_result(640, 480, Vec::new());
    assert_eq!(out.lines.len(), 0);
    assert_eq!(out.text, "");
}

#[test]
fn image_dimensions_come_from_the_decoded_bytes() {
    let pixels: Vec<u8> = vec![255; 3 * 2 * 4];
    let file = encode_bmp(3, 2, &pixels).unwrap();
    let dims = vision_image_dimensions(&file).unwrap();
    assert_eq!(dims, (3, 2));
}

#[test]
fn undecodable_bytes_are_rejected() {
    let garbage: Vec<u8> = vec![1, 2, 3, 4, 5];
    assert!(matches!(
        vision_image_dimensions(&garbage),
        Err(Error::EncodingInvariantViolation)
    ));
}
