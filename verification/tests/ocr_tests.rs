use screenshot_ocr::cursor::get_cursor_position;
use screenshot_ocr::elements::UiElementIndex;
use screenshot_ocr::error::Error;
use screenshot_ocr::ocr::{build_line_from_words, word_gaps, OcrWord};
use screenshot_ocr::tesseract::{interpret_tesseract_outcome, tesseract_args, TesseractOutcome};

fn word(text: &str, x: i64, y: i64, width: i64, height: i64) -> OcrWord {
    OcrWord {
        text: String::from(text),
        x,
        y,
        width,
        height,
    }
}

#[test]
fn gap_list_length_pairs_the_words() {
    for n in 1..6usize {
        let words: Vec<OcrWord> = (0..n)
            .map(|i| word("w", (i as i64) * 100, 0, 50, 10))
            .collect();
        let gaps = word_gaps(&words);
        assert_eq!(gaps.len(), n - 1);
        assert!(gaps.iter().all(|g| *g >= 0));
    }
    let none: Vec<OcrWord> = Vec::new();
    assert_eq!(word_gaps(&none).len(), 0);
}

#[test]
fn gaps_measure_the_space_between_words() {
    let words = vec![word("a", 0, 0, 30, 10), word("b", 50, 0, 10, 10)];
    assert_eq!(word_gaps(&words), vec![20]);
    let overlapping = vec![word("a", 0, 0, 30, 10), word("b", 10, 0, 10, 10)];
    assert_eq!(word_gaps(&overlapping), vec![0]);
}

#[test]
fn line_box_is_the_union_of_its_words() {
    let words = vec![
        word("lo", 10, 20, 30, 12),
        word("hi", 50, 18, 40, 16),
        word("mid", 30, 25, 10, 5),
    ];
    let line = build_line_from_words(words);
    assert_eq!(line.x, 10);
    assert_eq!(line.y, 18);
    assert_eq!(line.width, 80);
    assert_eq!(line.height, 16);
    assert_eq!(line.text, "lo hi mid");
    assert_eq!(line.words.len(), 3);
    assert_eq!(line.word_gaps.len(), 2);
}

#[test]
fn backend_arguments_follow_the_hint() {
    let args = tesseract_args("/tmp/shot.png", Some("zh-CN"));
    assert_eq!(args, vec!["/tmp/shot.png", "stdout", "-l", "chi_sim", "tsv"]);
    let args = tesseract_args("/tmp/shot.png", None);
    assert_eq!(args, vec!["/tmp/shot.png", "stdout", "tsv"]);
    let args = tesseract_args("img.png", Some("deu"));
    assert_eq!(args, vec!["img.png", "stdout", "-l", "deu", "tsv"]);
}

#[test]
fn missing_tool_is_backend_unavailable() {
    let out = interpret_tesseract_outcome(TesseractOutcome::ToolNotFound);
    assert!(matches!(out, Err(Error::BackendUnavailable)));
}

#[test]
fn failed_run_surfaces_trimmed_stderr() {
    let out = interpret_tesseract_outcome(TesseractOutcome::Finished {
        success: false,
        stdout: String::new(),
        stderr: String::from("  cannot open image \n"),
    });
    match out {
        Err(Error::BackendExecutionFailed { stderr }) => {
            assert_eq!(stderr, "cannot open image");
        }
        other => panic!("expected an execution failure, got {:?}", other),
    }
}

#[test]
fn launch_failure_keeps_its_cause() {
    let out = interpret_tesseract_outcome(TesseractOutcome::LaunchFailed {
        cause: String::from("permission denied"),
    });
    match out {
        Err(Error::BackendExecutionFailed { stderr }) => {
            assert_eq!(stderr, "permission denied");
        }
        other => panic!("expected an execution failure, got {:?}", other),
    }
}

#[test]
fn successful_run_parses_the_tabular_output() {
    let tsv = "level\tpage\tblock\tpar\tline\tword\tleft\ttop\twidth\theight\tconf\ttext\n\
               5\t1\t1\t1\t1\t1\t3\t4\t10\t12\t90\thello\n";
    let out = interpret_tesseract_outcome(TesseractOutcome::Finished {
        success: true,
        stdout: String::from(tsv),
        stderr: String::new(),
    })
    .unwrap();
    assert_eq!(out.text, "hello");
    assert_eq!(out.lines.len(), 1);
    assert_eq!(out.lines[0].x, 3);
}

#[test]
fn error_messages_carry_their_causes_verbatim() {
    assert_eq!(Error::NoDisplaysFound.message(), "no displays found");
    let e = Error::DisplayQueryFailed {
        index: 12,
        cause: String::from("boom"),
    };
    assert_eq!(e.message(), "display query failed[12]: boom");
    let e = Error::CaptureFailed {
        index: 0,
        cause: String::from("oops"),
    };
    assert_eq!(e.message(), "screen capture failed[0]: oops");
    let e = Error::BackendExecutionFailed {
        stderr: String::from("bad image"),
    };
    assert_eq!(e.message(), "tesseract recognition failed: bad image");
    assert!(Error::PermissionDenied.message().contains("restart"));
}

#[test]
fn cursor_prefers_the_system_position() {
    assert_eq!(get_cursor_position(Some((3, 4)), (9, 9)), (3, 4));
    assert_eq!(get_cursor_position(None, (9, 9)), (9, 9));
}

#[test]
fn element_index_stub_finds_nothing() {
    let mut idx = UiElementIndex::new();
    assert!(idx.init().is_ok());
    assert!(idx.rebuild_index(None).is_ok());
    assert_eq!(idx.query_window_at_point(10, 10).unwrap().len(), 0);
    assert_eq!(idx.query_chain_at_point(10, 10).unwrap().len(), 0);
}
