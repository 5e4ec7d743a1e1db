use zeshicast::launcher::{
    mode_badge, selection_counter,
    no_results_title, overflow_counter, plan_results, stagger_class, ResultsListing,
    app_icon_tint, clipboard_filter_matches, empty_state_fallback_actions, evaluate_expr,
    font_is_current, percent_encode, selected_clipboard_filter, signal_bars_filled,
    ClipboardFilter, ClipboardKind, FallbackKind, IconTint,
};

#[test]
fn current_when_existing_file_matches_embedded_length() {
    assert!(font_is_current(Some(1024), 1024));
}

#[test]
fn not_current_when_file_missing() {
    assert!(!font_is_current(None, 1024));
}

#[test]
fn not_current_when_file_stale_or_partial() {
    assert!(!font_is_current(Some(512), 1024));
    assert!(!font_is_current(Some(2048), 1024));
}

#[test]
fn test_empty_state_fallback_actions() {
    assert!(empty_state_fallback_actions("").is_empty());
    assert!(empty_state_fallback_actions("   ").is_empty());

    let actions = empty_state_fallback_actions("rust borrow checker");
    assert_eq!(actions.len(), 3);
    assert_eq!(actions[0].title, "Ask AI: \"rust borrow checker\"");
    assert!(matches!(
        actions[0].kind,
        FallbackKind::AiChatWithPrompt(ref p) if p == "rust borrow checker"
    ));
    assert_eq!(actions[1].title, "Search Web for \"rust borrow checker\"");
    assert!(matches!(
        actions[1].kind,
        FallbackKind::OpenUrl(ref url) if url.contains("rust") && url.contains("google.com")
    ));
    assert_eq!(actions[2].title, "Create Snippet with \"rust borrow checker\"");
    assert!(matches!(
        actions[2].kind,
        FallbackKind::CreateSnippet(ref p) if p == "rust borrow checker"
    ));

    let long_query =
        "this is a very long query that definitely exceeds 36 characters in total length";
    let long_actions = empty_state_fallback_actions(long_query);
    assert_eq!(long_actions.len(), 3);
    assert!(long_actions[0].title.contains('…'));
    assert!(matches!(
        long_actions[0].kind,
        FallbackKind::AiChatWithPrompt(ref p) if p == long_query
    ));
}

#[test]
fn fallback_details() {
    let actions = empty_state_fallback_actions("  a b&c  ");
    assert_eq!(actions[0].category, "AI Assistant");
    assert_eq!(actions[0].score, 100);
    assert_eq!(actions[1].score, 90);
    assert_eq!(actions[2].score, 80);
    assert_eq!(actions[2].icon_name, "document-edit-symbolic");
    assert!(matches!(
        actions[1].kind,
        FallbackKind::OpenUrl(ref url) if url == "https://www.google.com/search?q=a%20b%26c"
    ));
    let exactly_36 = "x".repeat(36);
    let a = empty_state_fallback_actions(&exactly_36);
    assert_eq!(a[0].title, format!("Ask AI: \"{}\"", exactly_36));
    let a = empty_state_fallback_actions(&"y".repeat(37));
    assert_eq!(a[0].title, format!("Ask AI: \"{}…\"", "y".repeat(36)));
}

#[test]
fn percent_encoding() {
    assert_eq!(percent_encode("AZaz09-_.~"), "AZaz09-_.~");
    assert_eq!(percent_encode("é /"), "%C3%A9%20%2F");
}

#[test]
fn calculator_keeps_only_arithmetic() {
    assert_eq!(evaluate_expr("(12 + 8) / 5"), "(12 + 8) / 5");
    assert_eq!(evaluate_expr("rm -rf 1"), " - 1");
    assert_eq!(evaluate_expr("abc"), "—");
}

#[test]
fn clipboard_filters() {
    assert_eq!(selected_clipboard_filter(0), ClipboardFilter::All);
    assert_eq!(selected_clipboard_filter(2), ClipboardFilter::Kind(ClipboardKind::Url));
    assert_eq!(selected_clipboard_filter(9), ClipboardFilter::All);
    assert!(clipboard_filter_matches(ClipboardFilter::All, ClipboardKind::Image));
    assert!(clipboard_filter_matches(
        ClipboardFilter::Kind(ClipboardKind::Code),
        ClipboardKind::Code
    ));
    assert!(!clipboard_filter_matches(
        ClipboardFilter::Kind(ClipboardKind::Code),
        ClipboardKind::Text
    ));
}

#[test]
fn icon_tints() {
    assert_eq!(app_icon_tint("Kitty"), IconTint::Terminal);
    assert_eq!(app_icon_tint("VSCodium"), IconTint::Code);
    assert_eq!(app_icon_tint("FIREFOX"), IconTint::Firefox);
    assert_eq!(app_icon_tint("Chromium"), IconTint::Chrome);
    let hash = "Gimp"
        .bytes()
        .fold(0u64, |h, b| h.wrapping_mul(31).wrapping_add(b as u64));
    assert_eq!(app_icon_tint("Gimp"), IconTint::Hue(hash % 360));
}

#[test]
fn signal_bars_match_rounding() {
    for p in 0..=300u32 {
        let expected = ((p as f64 / 100.0) * 4.0).round() as u64;
        assert_eq!(signal_bars_filled(p), expected, "percent {p}");
    }
    assert_eq!(signal_bars_filled(u32::MAX), ((u32::MAX as f64 / 100.0) * 4.0).round() as u64);
}

#[test]
fn result_list_plan_for_queries() {
    let p = plan_results("", 10);
    assert_eq!(p.listing, ResultsListing::Grouped);
    assert!(p.calc_input.is_none());
    let p = plan_results("==  2+2 ", 0);
    assert_eq!(p.calc_input.as_deref(), Some("2+2"));
    assert_eq!(p.listing, ResultsListing::Empty);
    let p = plan_results("=3*4", 2);
    assert_eq!(p.calc_input.as_deref(), Some("3*4"));
    assert_eq!(p.listing, ResultsListing::Ranked);
    assert_eq!(plan_results("zzz", 0).listing, ResultsListing::Fallback);
    assert_eq!(no_results_title("zzz"), "No results for \"zzz\"");
    assert_eq!(overflow_counter(7).as_deref(), Some("1 of 7"));
    assert!(overflow_counter(6).is_none());
    assert_eq!(stagger_class(0).as_deref(), Some("row-stagger-0"));
    assert_eq!(stagger_class(4).as_deref(), Some("row-stagger-4"));
    assert!(stagger_class(5).is_none());
}

#[test]
fn search_badge_and_selection_counter() {
    assert_eq!(mode_badge("=1+1"), Some("Calculator"));
    assert_eq!(mode_badge("file report"), Some("File Search"));
    assert_eq!(mode_badge("find x"), Some("File Search"));
    assert_eq!(mode_badge("files"), None);
    assert_eq!(mode_badge(""), None);
    assert_eq!(selection_counter(24, Some(7)).as_deref(), Some("8 of 24"));
    assert_eq!(selection_counter(6, Some(0)), None);
    assert_eq!(selection_counter(24, None), None);
}
