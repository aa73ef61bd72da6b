use agy_acp::adapter::Adapter;

#[test]
fn test_is_narration_true() {
    assert!(Adapter::is_narration("I will fetch the latest commits."));
    assert!(Adapter::is_narration("I will fetch the latest commits.\nI will check the diff."));
    assert!(Adapter::is_narration("I will read the file.\n\nI will analyze the output."));
}

#[test]
fn test_is_narration_false() {
    assert!(!Adapter::is_narration("Here is the result."));
    assert!(!Adapter::is_narration("I will fetch the commits.\nHere is the result."));
    assert!(!Adapter::is_narration(""));
}

fn owned(parts: &[&str]) -> Vec<String> {
    parts.iter().map(|p| p.to_string()).collect()
}

#[test]
fn test_filter_narration_drops_leading_narration() {
    let parts = vec![
        "I will fetch the latest commits.\nI will check the diff.".to_string(),
        "I will read the file.".to_string(),
        "The fix is confirmed! ✅".to_string(),
    ];
    let result = Adapter::filter_narration(&parts, Adapter::show_narration(None, None));
    assert_eq!(result, "The fix is confirmed! ✅");
}

#[test]
fn test_filter_narration_preserves_content_after_first_non_narration() {
    let parts = vec![
        "I will check things.".to_string(),
        "Here is my analysis.".to_string(),
        "I will also note this is fine.".to_string(),
    ];
    let result = Adapter::filter_narration(&parts, Adapter::show_narration(None, None));
    assert_eq!(result, "Here is my analysis.\nI will also note this is fine.");
}

#[test]
fn test_filter_narration_show_mode() {
    let parts = vec!["I will fetch commits.".to_string(), "Final answer here.".to_string()];
    let result = Adapter::filter_narration(&parts, Adapter::show_narration(Some("1"), None));
    assert_eq!(result, "I will fetch commits.\nFinal answer here.");
}

#[test]
fn test_filter_narration_default_skips() {
    let parts = vec!["I will fetch commits.".to_string(), "Final answer here.".to_string()];
    let result = Adapter::filter_narration(&parts, Adapter::show_narration(None, None));
    assert_eq!(result, "Final answer here.");
}

#[test]
fn test_filter_narration_single_part_unchanged() {
    let parts = vec!["I will do something.".to_string()];
    assert_eq!(Adapter::filter_narration(&parts, false), "I will do something.");
    assert_eq!(Adapter::filter_narration(&parts, true), "I will do something.");
}

#[test]
fn test_filter_narration_all_narration_keeps_last() {
    let parts = vec![
        "I will fetch the file.".to_string(),
        "I will check the output.".to_string(),
        "I will verify the fix.".to_string(),
    ];
    let result = Adapter::filter_narration(&parts, Adapter::show_narration(None, None));
    assert_eq!(result, "I will verify the fix.");
}

#[test]
fn no_parts_make_an_empty_response() {
    assert_eq!(Adapter::filter_narration(&[], false), "");
    assert_eq!(Adapter::filter_narration(&[], true), "");
}

#[test]
fn narration_may_be_indented_and_mixed_with_blank_lines() {
    assert!(Adapter::is_narration("\n  \t\r\n   I will look.\r\n\u{a0}\n"));
    assert!(!Adapter::is_narration(" \n\t\n"));
    assert!(!Adapter::is_narration("i will look."));
    assert!(Adapter::is_narration("I willow"));
}

#[test]
fn narration_is_shown_by_either_setting() {
    assert!(!Adapter::show_narration(None, None));
    assert!(Adapter::show_narration(Some("1"), None));
    assert!(Adapter::show_narration(Some("TRUE"), None));
    assert!(Adapter::show_narration(Some("True"), Some("none")));
    assert!(!Adapter::show_narration(Some("0"), Some("full")));
    assert!(!Adapter::show_narration(Some(""), Some("full")));
    assert!(Adapter::show_narration(None, Some("full")));
    assert!(Adapter::show_narration(None, Some("Full")));
    assert!(!Adapter::show_narration(None, Some("fulle")));
    assert!(!Adapter::show_narration(Some("ÉTRUE"), None));
}

#[test]
fn only_the_start_of_a_response_is_dropped() {
    let parts = owned(&["I will a.", "I will b.", "c", "I will d.", "e"]);
    assert_eq!(Adapter::filter_narration(&parts, false), "c\nI will d.\ne");
    assert_eq!(
        Adapter::filter_narration(&parts, true),
        "I will a.\nI will b.\nc\nI will d.\ne"
    );
}
