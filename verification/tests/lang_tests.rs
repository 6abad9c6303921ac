use screenshot_ocr::lang::{map_tesseract_language, vision_language_hints};

#[test]
fn chinese_hint_maps_to_chi_sim_and_zh_hans() {
    assert_eq!(map_tesseract_language(Some("zh-CN")).unwrap(), "chi_sim");
    assert_eq!(vision_language_hints(Some("zh-CN")), vec!["zh-Hans"]);
}

#[test]
fn english_hint_maps_to_eng_and_en_us() {
    assert_eq!(map_tesseract_language(Some("en-US")).unwrap(), "eng");
    assert_eq!(vision_language_hints(Some("en-US")), vec!["en-US"]);
}

#[test]
fn empty_hint_selects_the_backend_default() {
    assert_eq!(map_tesseract_language(Some("")), None);
    assert_eq!(vision_language_hints(Some("")), vec!["zh-Hans", "en-US"]);
}

#[test]
fn absent_hint_selects_the_backend_default() {
    assert_eq!(map_tesseract_language(None), None);
    assert_eq!(vision_language_hints(None), vec!["zh-Hans", "en-US"]);
}

#[test]
fn whitespace_only_hint_counts_as_absent() {
    assert_eq!(map_tesseract_language(Some("   ")), None);
    assert_eq!(vision_language_hints(Some("   ")), vec!["zh-Hans", "en-US"]);
}

#[test]
fn prefix_tests_are_case_insensitive() {
    assert_eq!(map_tesseract_language(Some("ZH")).unwrap(), "chi_sim");
    assert_eq!(map_tesseract_language(Some("En-GB")).unwrap(), "eng");
    assert_eq!(vision_language_hints(Some("Zh-Hant")), vec!["zh-Hans"]);
}

#[test]
fn unrecognized_hint_passes_through_trimmed() {
    assert_eq!(map_tesseract_language(Some(" deu ")).unwrap(), "deu");
    assert_eq!(vision_language_hints(Some("deu")), vec!["zh-Hans", "en-US"]);
}
