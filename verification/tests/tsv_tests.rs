use screenshot_ocr::tsv::parse_tesseract_tsv;

const HEADER: &str =
    "level\tpage_num\tblock_num\tpar_num\tline_num\tword_num\tleft\ttop\twidth\theight\tconf\ttext";

fn row(
    level: i32,
    block: i32,
    par: i32,
    line: i32,
    word: i32,
    left: i32,
    top: i32,
    width: i32,
    height: i32,
    text: &str,
) -> String {
    format!(
        "{}\t1\t{}\t{}\t{}\t{}\t{}\t{}\t{}\t{}\t96.0\t{}",
        level, block, par, line, word, left, top, width, height, text
    )
}

#[test]
fn same_key_rows_merge_into_one_line_with_min_max_box() {
    let tsv = format!(
        "{}\n{}\n{}\n",
        HEADER,
        row(5, 1, 1, 1, 1, 10, 20, 30, 12, "hello"),
        row(5, 1, 1, 1, 2, 50, 18, 40, 16, "world"),
    );
    let out = parse_tesseract_tsv(&tsv).unwrap();
    assert_eq!(out.lines.len(), 1);
    let line = &out.lines[0];
    assert_eq!(line.words.len(), 2);
    assert_eq!(line.text, "hello world");
    assert_eq!(line.x, 10); // min left
    assert_eq!(line.y, 18); // min top
    assert_eq!(line.width, 80); // max right 90 minus min left 10
    assert_eq!(line.height, 16); // max bottom 34 minus min top 18
    assert_eq!(out.text, "hello world");
}

#[test]
fn word_gaps_pair_the_words_and_clamp_at_zero() {
    let tsv = format!(
        "{}\n{}\n{}\n{}\n",
        HEADER,
        row(5, 1, 1, 1, 1, 10, 0, 30, 10, "a"),
        row(5, 1, 1, 1, 2, 50, 0, 20, 10, "b"),
        row(5, 1, 1, 1, 3, 60, 0, 20, 10, "c"), // overlaps the previous word
    );
    let out = parse_tesseract_tsv(&tsv).unwrap();
    assert_eq!(out.lines.len(), 1);
    let line = &out.lines[0];
    assert_eq!(line.words.len(), 3);
    assert_eq!(line.word_gaps.len(), 2);
    assert_eq!(line.word_gaps[0], 10); // 50 - (10 + 30)
    assert_eq!(line.word_gaps[1], 0); // 60 - (50 + 20) clamps at zero
    assert!(line.word_gaps.iter().all(|g| *g >= 0));
}

#[test]
fn words_are_ordered_by_word_index_within_a_line() {
    let tsv = format!(
        "{}\n{}\n{}\n",
        HEADER,
        row(5, 1, 1, 1, 2, 50, 0, 20, 10, "second"),
        row(5, 1, 1, 1, 1, 10, 0, 30, 10, "first"),
    );
    let out = parse_tesseract_tsv(&tsv).unwrap();
    assert_eq!(out.lines[0].text, "first second");
}

#[test]
fn lines_are_emitted_in_ascending_key_order() {
    let tsv = format!(
        "{}\n{}\n{}\n{}\n",
        HEADER,
        row(5, 2, 1, 1, 1, 0, 50, 10, 10, "later"),
        row(5, 1, 2, 1, 1, 0, 30, 10, 10, "middle"),
        row(5, 1, 1, 1, 1, 0, 10, 10, 10, "early"),
    );
    let out = parse_tesseract_tsv(&tsv).unwrap();
    assert_eq!(out.lines.len(), 3);
    assert_eq!(out.lines[0].text, "early");
    assert_eq!(out.lines[1].text, "middle");
    assert_eq!(out.lines[2].text, "later");
    assert_eq!(out.text, "early\nmiddle\nlater");
}

#[test]
fn only_word_level_rows_are_kept() {
    let tsv = format!(
        "{}\n{}\n{}\n{}\n",
        HEADER,
        row(1, 1, 0, 0, 0, 0, 0, 100, 100, "page"),
        row(4, 1, 1, 1, 0, 0, 0, 100, 10, "line"),
        row(5, 1, 1, 1, 1, 5, 2, 20, 8, "word"),
    );
    let out = parse_tesseract_tsv(&tsv).unwrap();
    assert_eq!(out.lines.len(), 1);
    assert_eq!(out.lines[0].text, "word");
}

#[test]
fn short_and_blank_rows_are_dropped() {
    let tsv = format!(
        "{}\nnot\tenough\tcolumns\n{}\n{}\n",
        HEADER,
        row(5, 1, 1, 1, 1, 0, 0, 10, 10, "   "), // blank after trimming
        row(5, 1, 1, 1, 2, 20, 0, 10, 10, "kept"),
    );
    let out = parse_tesseract_tsv(&tsv).unwrap();
    assert_eq!(out.lines.len(), 1);
    assert_eq!(out.lines[0].text, "kept");
    assert_eq!(out.lines[0].words.len(), 1);
}

#[test]
fn word_text_is_trimmed() {
    let tsv = format!("{}\n{}\n", HEADER, row(5, 1, 1, 1, 1, 0, 0, 10, 10, " pad "));
    // the text column is the last one; surrounding spaces go
    let out = parse_tesseract_tsv(&tsv).unwrap();
    assert_eq!(out.lines[0].words[0].text, "pad");
}

#[test]
fn unparsable_numbers_count_as_zero() {
    let tsv = format!(
        "{}\n5\t1\tx\t1\t1\t1\tnine\t0\t10\t10\t96.0\tword\n",
        HEADER
    );
    let out = parse_tesseract_tsv(&tsv).unwrap();
    assert_eq!(out.lines.len(), 1);
    assert_eq!(out.lines[0].words[0].x, 0); // "nine" parses as zero
}

#[test]
fn empty_output_yields_an_empty_result() {
    let out = parse_tesseract_tsv("").unwrap();
    assert_eq!(out.lines.len(), 0);
    assert_eq!(out.text, "");
    let header_only = parse_tesseract_tsv(&format!("{}\n", HEADER)).unwrap();
    assert_eq!(header_only.lines.len(), 0);
    assert_eq!(header_only.text, "");
}

#[test]
fn carriage_return_line_endings_are_handled() {
    let tsv = format!("{}\r\n{}\r\n", HEADER, row(5, 1, 1, 1, 1, 1, 2, 3, 4, "crlf"));
    let out = parse_tesseract_tsv(&tsv).unwrap();
    assert_eq!(out.lines.len(), 1);
    assert_eq!(out.lines[0].text, "crlf");
    assert_eq!(out.lines[0].x, 1);
    assert_eq!(out.lines[0].y, 2);
}
