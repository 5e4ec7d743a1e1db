use zeshicast::markdown::{
    bullet_body, emphasis, escape, heading_body, to_pango_markup, wrap_pairs,
};

#[test]
fn escapes_literal_markup() {
    assert_eq!(to_pango_markup("a < b & c"), "a &lt; b &amp; c");
}

#[test]
fn bold_and_italic() {
    assert_eq!(to_pango_markup("**hi** and *there*"), "<b>hi</b> and <i>there</i>");
}

#[test]
fn unbalanced_markers_stay_literal() {
    assert_eq!(to_pango_markup("a ** b"), "a ** b");
    assert_eq!(to_pango_markup("rate is 5 * x"), "rate is 5 * x");
}

#[test]
fn underscores_are_left_alone() {
    assert_eq!(to_pango_markup("call my_func_name"), "call my_func_name");
}

#[test]
fn inline_code_is_monospace_and_escaped() {
    assert_eq!(to_pango_markup("use `a<b>`"), "use <tt>a&lt;b&gt;</tt>");
    // Emphasis markers inside code are literal.
    assert_eq!(to_pango_markup("`**x**`"), "<tt>**x**</tt>");
}

#[test]
fn fenced_code_block() {
    let md = "before\n```\nlet x = 1 < 2;\n```\nafter";
    assert_eq!(
        to_pango_markup(md),
        "before\n<tt>let x = 1 &lt; 2;</tt>\nafter"
    );
}

#[test]
fn headings_and_bullets() {
    assert_eq!(to_pango_markup("## Title"), "<big><b>Title</b></big>");
    assert_eq!(to_pango_markup("- item one"), "•  item one");
}

#[test]
fn unclosed_fence_renders_what_it_has() {
    assert_eq!(to_pango_markup("```\na < b\nc"), "<tt>a &lt; b\nc</tt>");
}

#[test]
fn empty_input_gives_empty_markup() {
    assert_eq!(to_pango_markup(""), "");
    assert_eq!(to_pango_markup("a\n\nb\n"), "a\n\nb");
}

#[test]
fn crlf_line_endings_are_dropped() {
    assert_eq!(to_pango_markup("a\r\nb"), "a\nb");
}

#[test]
fn heading_needs_space_and_at_most_six_hashes() {
    assert_eq!(heading_body("#   Title"), Some("Title"));
    assert_eq!(heading_body("#Title"), None);
    assert_eq!(heading_body("####### seven"), None);
    assert_eq!(heading_body("###### six"), Some("six"));
    assert_eq!(heading_body("# "), Some(""));
}

#[test]
fn bullet_markers() {
    assert_eq!(bullet_body("- a"), Some("a"));
    assert_eq!(bullet_body("* b"), Some("b"));
    assert_eq!(bullet_body("+ c"), Some("c"));
    assert_eq!(bullet_body("-c"), None);
    assert_eq!(bullet_body("-"), None);
}

#[test]
fn unmatched_backtick_is_literal() {
    assert_eq!(zeshicast::markdown::inline("a ` b **c**"), "a ` b <b>c</b>");
}

#[test]
fn leftover_double_star_is_not_italic() {
    assert_eq!(emphasis("**a** ** *b*"), "<b>a</b> ** <i>b</i>");
    assert_eq!(emphasis("***x***"), "<b>*x</b>*");
}

#[test]
fn wrap_pairs_pairs_even_count() {
    assert_eq!(wrap_pairs("a*b*c*d", "*", "[", "]"), "a[b]c*d");
    assert_eq!(wrap_pairs("x*y", "*", "[", "]"), "x*y");
    assert_eq!(wrap_pairs("ab", "", "(", ")"), "()ab");
}

#[test]
fn escape_all_three() {
    assert_eq!(escape("<&>"), "&lt;&amp;&gt;");
    assert_eq!(escape("plain"), "plain");
}

#[test]
fn unicode_whitespace_is_trimmed_for_headings() {
    assert_eq!(to_pango_markup("\u{3000}- x"), "•  x");
}

#[test]
fn bold_and_italic_never_cross() {
    assert_eq!(to_pango_markup("***x***"), "<b>*x</b>*");
    assert_eq!(to_pango_markup("**a *b** c*"), "<b>a *b</b> c*");
    assert_eq!(to_pango_markup("*a **b** c*"), "<i>a <b>b</b> c</i>");
    assert_eq!(to_pango_markup("**a *b* c**"), "<b>a <i>b</i> c</b>");
    assert_eq!(to_pango_markup("*x* **y** *z*"), "<i>x</i> <b>y</b> <i>z</i>");
}

#[test]
fn escape_round_trips_and_grows_by_entity_lengths() {
    let text = "a<b>&c";
    let e = escape(text);
    assert_eq!(e, "a&lt;b&gt;&amp;c");
    assert!(!e.contains('<') && !e.contains('>'));
    assert_eq!(e.replace("&lt;", "<").replace("&gt;", ">").replace("&amp;", "&"), text);
    assert_eq!(e.len(), text.len() + 4 + 3 * 2);
}

#[test]
fn text_without_stars_is_only_escaped() {
    assert_eq!(emphasis("snake_case_name"), "snake_case_name");
    assert_eq!(emphasis("a < b & c"), escape("a < b & c"));
}

#[test]
fn code_span_is_escaped_without_emphasis() {
    assert_eq!(zeshicast::markdown::inline("`a*b*<c`"), "<tt>a*b*&lt;c</tt>");
    assert_eq!(zeshicast::markdown::inline("x *y*"), emphasis("x *y*"));
}

#[test]
fn plain_text_passes_through() {
    assert_eq!(to_pango_markup("hello world\n   \nsecond line"), "hello world\n\nsecond line");
}

#[test]
fn wrap_pairs_counts_and_gives_the_text_back() {
    let text = "a*b*c*d";
    let r = wrap_pairs(text, "*", "<i>", "</i>");
    assert_eq!(r, "a<i>b</i>c*d");
    assert_eq!(r.matches("<i>").count(), 1);
    assert_eq!(r.matches("</i>").count(), 1);
    assert_eq!(r.matches('*').count(), 1);
    assert_eq!(r.replace("<i>", "*").replace("</i>", "*"), text);
    let bold = wrap_pairs("**a** **b** **", "**", "<b>", "</b>");
    assert_eq!(bold, "<b>a</b> <b>b</b> **");
}
