use zeshicast::preferences::{
    active_ai_model,
    ai_snippet_name, local_ai_config, parse_bool_preference, parse_duration_ms_preference,
    parse_list_preference, preference_duration_ms, preference_enabled, preference_list,
    status_items, status_strip_settings, filter_preference_sections, preference_sections, PreferenceSection,
};

#[test]
fn bool_preferences_accept_common_values() {
    assert_eq!(parse_bool_preference("true"), Some(true));
    assert_eq!(parse_bool_preference("off"), Some(false));
    assert_eq!(parse_bool_preference("unknown"), None);
}

#[test]
fn ai_snippet_name_has_fallback() {
    assert_eq!(ai_snippet_name(""), "AI answer");
    assert_eq!(ai_snippet_name("short prompt"), "short prompt");
}

#[test]
fn duration_preferences_have_floor_and_default() {
    assert_eq!(parse_duration_ms_preference("50"), None);
    assert_eq!(parse_duration_ms_preference("750"), Some(750));
    assert_eq!(parse_duration_ms_preference("bad"), None);
}

#[test]
fn list_preferences_parse_comma_separated_values() {
    assert_eq!(
        parse_list_preference("clock, date,network"),
        vec!["clock", "date", "network"]
    );
    assert!(parse_list_preference(" , ").is_empty());
}

#[test]
fn bool_preferences_ignore_case_and_whitespace() {
    assert_eq!(parse_bool_preference("  YES \n"), Some(true));
    assert_eq!(parse_bool_preference("On"), Some(true));
    assert_eq!(parse_bool_preference("0"), Some(false));
    assert_eq!(parse_bool_preference("No"), Some(false));
    assert_eq!(parse_bool_preference(""), None);
    assert_eq!(parse_bool_preference("tru e"), None);
}

#[test]
fn duration_edge_cases() {
    assert_eq!(parse_duration_ms_preference("100"), Some(100));
    assert_eq!(parse_duration_ms_preference("99"), None);
    assert_eq!(parse_duration_ms_preference(" +250 "), Some(250));
    assert_eq!(parse_duration_ms_preference("-250"), None);
    assert_eq!(parse_duration_ms_preference("18446744073709551615"), Some(u64::MAX));
    assert_eq!(parse_duration_ms_preference("18446744073709551616"), None);
    assert_eq!(parse_duration_ms_preference("1_000"), None);
    assert_eq!(parse_duration_ms_preference("+"), None);
}

#[test]
fn list_items_are_lowercased_and_empty_pieces_dropped() {
    assert_eq!(parse_list_preference("A,,B ,"), vec!["a", "b"]);
    assert!(parse_list_preference("").is_empty());
}

#[test]
fn snippet_name_is_cut_to_48_characters() {
    let long = "x".repeat(60);
    assert_eq!(ai_snippet_name(&long), "x".repeat(48));
    assert_eq!(ai_snippet_name("   "), "AI answer");
    assert_eq!(ai_snippet_name("  hello  "), "hello");
}

#[test]
fn settings_fall_back_to_defaults() {
    assert!(preference_enabled(None, true));
    assert!(!preference_enabled(Some("maybe"), false));
    assert!(preference_enabled(Some("yes"), false));
    assert_eq!(preference_duration_ms(Some("20"), 500), 500);
    assert_eq!(preference_duration_ms(Some("2000"), 500), 2000);
    assert_eq!(preference_duration_ms(None, 500), 500);
    assert_eq!(preference_list(Some(" , "), &["a", "b"]), vec!["a", "b"]);
    assert_eq!(preference_list(Some("C"), &["a"]), vec!["c"]);
    assert_eq!(preference_list(None, &["a"]), vec!["a"]);
}

#[test]
fn ai_config_prefers_ollama_keys() {
    let c = local_ai_config(None, Some("http://x:1"), None, Some("m1"), Some("m2"));
    assert_eq!(c.endpoint, "http://x:1");
    assert_eq!(c.model, "m1");
    let d = local_ai_config(None, None, None, None, None);
    assert_eq!(d.endpoint, "http://localhost:11434");
    assert_eq!(d.model, "");
    let e = local_ai_config(Some("a"), Some("b"), Some("c"), Some("d"), Some("e"));
    assert_eq!(e.endpoint, "a");
    assert_eq!(e.model, "c");
}

#[test]
fn status_strip_shows_default_items() {
    let (show, items) = status_strip_settings(None, None);
    assert!(show);
    let v = status_items(&items);
    assert!(v.clock && v.date && v.network && v.battery && v.audio && v.media);
    assert!(!v.layout);
    let (show, items) = status_strip_settings(Some("off"), Some("layout"));
    assert!(!show);
    let v = status_items(&items);
    assert!(v.layout && !v.clock);
}

#[test]
fn ai_chat_falls_back_to_the_first_installed_model() {
    let models = vec!["llama3".to_string(), "qwen2".to_string()];
    let m = active_ai_model(&models, "qwen2").unwrap();
    assert_eq!(m.name, "qwen2");
    assert!(!m.store);
    let m = active_ai_model(&models, "mistral").unwrap();
    assert_eq!(m.name, "llama3");
    assert!(m.store);
    assert!(active_ai_model(&[], "qwen2").is_none());
}

#[test]
fn list_items_are_clean() {
    let items = parse_list_preference("Clock,,DATE ");
    assert_eq!(items, vec!["clock", "date"]);
    for item in &items {
        assert!(!item.is_empty());
        assert_eq!(item.trim(), item);
        assert!(!item.contains(','));
        assert!(!item.chars().any(|c| c.is_ascii_uppercase()));
    }
}

fn sample_sections() -> Vec<PreferenceSection> {
    let field = |k: &str, d: &str| (k.to_string(), d.to_string());
    vec![
        PreferenceSection {
            name: "Appearance".to_string(),
            keys: vec![field("ui_font_family", "Font family"), field("ui_theme", "Theme")],
        },
        PreferenceSection {
            name: "Clipboard".to_string(),
            keys: vec![field("clipboard_retention", "History size")],
        },
        PreferenceSection { name: "Status".to_string(), keys: vec![] },
    ]
}

#[test]
fn preference_search_filters_sections_and_selects_the_first() {
    let sections = sample_sections();
    assert_eq!(filter_preference_sections(&sections, ""), (vec![true, true, true], Some(0)));
    assert_eq!(
        filter_preference_sections(&sections, "HISTORY"),
        (vec![false, true, false], Some(1))
    );
    assert_eq!(
        filter_preference_sections(&sections, "stat"),
        (vec![false, false, true], Some(2))
    );
    assert_eq!(filter_preference_sections(&sections, "zzz"), (vec![false, false, false], None));
}

#[test]
fn preference_table_lists_the_sections_in_order() {
    let sections = preference_sections();
    let names: Vec<&str> = sections.iter().map(|s| s.name.as_str()).collect();
    assert_eq!(names, vec!["General", "Appearance", "Keyboard", "Extensions", "Privacy", "About"]);
    let counts: Vec<usize> = sections.iter().map(|s| s.keys.len()).collect();
    assert_eq!(counts, vec![4, 4, 0, 14, 6, 0]);
    assert_eq!(
        sections[0].keys[3],
        ("dashboard_poll_interval_ms".to_string(), "Refresh interval (ms)".to_string())
    );
    assert_eq!(sections[4].keys[1].1, "Pause clipboard capture");
    assert_eq!(
        filter_preference_sections(&sections, "ollama"),
        (vec![false, false, false, true, false, false], Some(3))
    );
}
