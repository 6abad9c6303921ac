use screenshot_ocr::paths::{normalize_path_for_hash, resolve_stored_path};

#[test]
fn backslashes_become_slashes() {
    assert_eq!(normalize_path_for_hash("a\\b\\c.png"), "a/b/c.png");
}

#[test]
fn clipboard_store_marker_cuts_the_prefix() {
    assert_eq!(
        normalize_path_for_hash("C:\\data\\clipboard_images\\img.png"),
        "clipboard_images/img.png"
    );
    assert_eq!(
        normalize_path_for_hash("/home/u/data/clipboard_images/img.png"),
        "clipboard_images/img.png"
    );
}

#[test]
fn pin_store_marker_cuts_the_prefix() {
    assert_eq!(
        normalize_path_for_hash("/var/pin_images/shot.png"),
        "pin_images/shot.png"
    );
}

#[test]
fn clipboard_marker_wins_over_pin_marker() {
    assert_eq!(
        normalize_path_for_hash("/pin_images/x/clipboard_images/y.png"),
        "clipboard_images/y.png"
    );
}

#[test]
fn paths_without_markers_pass_through() {
    assert_eq!(normalize_path_for_hash("plain/path.png"), "plain/path.png");
    assert_eq!(normalize_path_for_hash(""), "");
}

#[test]
fn blank_input_resolves_to_nothing() {
    let plan = resolve_stored_path("   ", false, Some("/data"));
    assert!(plan.probes.is_empty());
    assert_eq!(plan.fallback, "");
}

#[test]
fn absolute_input_stands_as_it_is() {
    let plan = resolve_stored_path(" /abs/img.png ", true, Some("/data"));
    assert!(plan.probes.is_empty());
    assert_eq!(plan.fallback, "/abs/img.png");
}

#[test]
fn store_relative_input_joins_onto_the_data_directory() {
    let plan = resolve_stored_path("clipboard_images/img.png", false, Some("/data"));
    assert!(plan.probes.is_empty());
    assert_eq!(plan.fallback, "/data/clipboard_images/img.png");
}

#[test]
fn joining_skips_empty_and_current_directory_components() {
    let plan = resolve_stored_path("pin_images//.//img.png", false, Some("/data"));
    assert!(plan.probes.is_empty());
    assert_eq!(plan.fallback, "/data/pin_images/img.png");
}

#[test]
fn marker_found_further_in_yields_a_probe() {
    let plan = resolve_stored_path("old\\root\\clipboard_images\\img.png", false, Some("/data"));
    assert_eq!(plan.probes.len(), 1);
    assert_eq!(plan.probes[0], "/data/clipboard_images/img.png");
    assert_eq!(plan.fallback, "old\\root\\clipboard_images\\img.png");
}

#[test]
fn without_a_data_directory_only_the_trimmed_input_remains() {
    let plan = resolve_stored_path(" clipboard_images/img.png ", false, None);
    assert!(plan.probes.is_empty());
    assert_eq!(plan.fallback, "clipboard_images/img.png");
}
