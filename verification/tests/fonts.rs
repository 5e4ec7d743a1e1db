use zeshicast::emoji::{copied_emoji_text, emoji_matches};
use zeshicast::fonts::{lex_less, parse_font_families, preview_text, visible_fonts};

#[test]
fn font_families_are_sorted_without_repeats_or_hidden_names() {
    let output = "DejaVu Sans,DejaVu Sans Condensed\nNoto Sans\n.Hidden\r\n  Inter  \nNoto Sans\n\n";
    assert_eq!(
        parse_font_families(output),
        vec!["DejaVu Sans", "DejaVu Sans Condensed", "Inter", "Noto Sans"]
    );
    assert!(parse_font_families("").is_empty());
    assert_eq!(parse_font_families("b,a,B"), vec!["B", "a", "b"]);
}

#[test]
fn string_order_matches_std() {
    let pairs = [("a", "b"), ("ab", "a"), ("", "x"), ("Zeta", "alpha"), ("é", "z"), ("same", "same")];
    for (a, b) in pairs {
        let ac: Vec<char> = a.chars().collect();
        let bc: Vec<char> = b.chars().collect();
        assert_eq!(lex_less(&ac, &bc), a < b);
    }
}

#[test]
fn font_browser_filter_and_preview() {
    let fonts: Vec<String> = ["Inter", "Noto Sans", "Noto Serif", "Fira Code"]
        .iter()
        .map(|s| s.to_string())
        .collect();
    assert_eq!(visible_fonts(&fonts, "  NOTO "), vec![1, 2]);
    assert_eq!(visible_fonts(&fonts, ""), vec![0, 1, 2, 3]);
    assert!(visible_fonts(&fonts, "mono").is_empty());
    let many: Vec<String> = (0..200).map(|i| format!("Font {i}")).collect();
    let shown = visible_fonts(&many, "font");
    assert_eq!(shown.len(), 120);
    assert_eq!(shown[119], 119);
    assert_eq!(preview_text("  "), "The quick brown fox jumps over the lazy dog");
    assert_eq!(preview_text("Hello"), "Hello");
}

#[test]
fn emoji_picker_filter() {
    assert!(emoji_matches("😀", "grinning face", "smileys", "all", ""));
    assert!(emoji_matches("😀", "grinning face", "smileys", "smileys", "GRIN"));
    assert!(!emoji_matches("😀", "grinning face", "smileys", "animals", ""));
    assert!(emoji_matches("🐶", "dog face", "animals", "all", "anim"));
    assert!(!emoji_matches("🐶", "dog face", "animals", "all", "cat"));
    assert_eq!(copied_emoji_text("🐶", "dog face"), "Copied  🐶  dog face");
}
