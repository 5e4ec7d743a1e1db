//! The stylesheet settings of the launcher: font family and sizes, row
//! height and theme, read from preferences and filled into the CSS template.
use vstd::prelude::*;

use crate::numbers::{decimal_chars, decimal_text};
use crate::text::{
    chars_of, is_ws, parse_unsigned, parse_unsigned_range, replace_all, replace_chars, seq_eq,
    slice_chars, string_of, trim, trim_end, trim_range, trim_start,
};

verus! {

/// Characters allowed in a CSS font family list: ASCII letters and digits,
/// space, `-`, `_` and `,`.
pub open spec fn font_char(c: char) -> bool {
    ('a' <= c <= 'z') || ('A' <= c <= 'Z') || ('0' <= c <= '9') || c == ' ' || c == '-' || c == '_'
        || c == ','
}

/// `s` with the characters not allowed in a font family list removed.
pub open spec fn keep_font_chars(s: Seq<char>) -> Seq<char>
    decreases s.len(),
{
    if s.len() == 0 {
        Seq::empty()
    } else {
        (if font_char(s[0]) {
            seq![s[0]]
        } else {
            Seq::empty()
        }) + keep_font_chars(s.drop_first())
    }
}

/// The font family list used when none is configured or nothing usable is left.
pub open spec fn default_font_family() -> Seq<char> {
    "Outfit, Inter, Noto Sans, sans-serif"@
}

/// The font family list for the stylesheet: the configured value with unsafe
/// characters dropped and trimmed, or the default when that leaves nothing.
pub open spec fn font_family_text(value: Seq<char>) -> Seq<char> {
    let filtered = trim(keep_font_chars(value));
    if filtered.len() == 0 {
        default_font_family()
    } else {
        filtered
    }
}

/// The font family list for the stylesheet.
pub fn css_font_family(value: &str) -> (r: String)
    ensures
        r@ == font_family_text(value@),
{
    let chars = chars_of(value);
    let mut kept: Vec<char> = Vec::new();
    let mut i: usize = 0;
    assert(chars@.skip(0) =~= chars@);
    while i < chars.len()
        invariant
            i <= chars.len(),
            keep_font_chars(chars@) == kept@ + keep_font_chars(chars@.skip(i as int)),
        decreases chars.len() - i,
    {
        assert(chars@.skip(i as int).drop_first() =~= chars@.skip(i + 1));
        let c = chars[i];
        if ('a' <= c && c <= 'z') || ('A' <= c && c <= 'Z') || ('0' <= c && c <= '9') || c == ' '
            || c == '-' || c == '_' || c == ',' {
            kept.push(c);
        } else {
            assert(kept@ + Seq::<char>::empty() =~= kept@);
        }
        i = i + 1;
    }
    assert(chars@.skip(i as int).len() == 0);
    assert(kept@ + Seq::<char>::empty() =~= kept@);
    let (lo, hi) = trim_range(&kept);
    if lo == hi {
        "Outfit, Inter, Noto Sans, sans-serif".to_owned()
    } else {
        string_of(&slice_chars(&kept, lo, hi))
    }
}

/// The values filled into the stylesheet template.
pub struct CssSettings {
    pub font_family: String,
    pub font_size: u32,
    pub subtitle_size: u32,
    pub search_size: u32,
    pub panel_title_size: u32,
    pub dashboard_clock_size: u32,
    pub row_height: u32,
    /// `Some(true)` for the dark theme, `Some(false)` for the light one,
    /// `None` to follow the system.
    pub prefer_dark: Option<bool>,
}

/// The base font size: the configured whole number when it lies in 12..=22,
/// else 15.
pub open spec fn font_size_setting(value: Option<Seq<char>>) -> nat {
    match value {
        Some(v) => match parse_unsigned(v, u32::MAX as nat) {
            Some(n) => if 12 <= n <= 22 {
                n
            } else {
                15
            },
            None => 15,
        },
        None => 15,
    }
}

/// The row height: 44 for the `compact` density (the default), else 52.
pub open spec fn row_height_setting(density: Option<Seq<char>>) -> nat {
    match density {
        Some(d) => if d == "compact"@ {
            44
        } else {
            52
        },
        None => 44,
    }
}

/// The theme choice: dark for `dark`, light for `light`, else the system's.
pub open spec fn theme_setting(theme: Option<Seq<char>>) -> Option<bool> {
    match theme {
        Some(t) => if t == "dark"@ {
            Some(true)
        } else if t == "light"@ {
            Some(false)
        } else {
            None
        },
        None => None,
    }
}

/// The stylesheet settings for the stored preference values
/// `ui_font_family`, `ui_font_size`, `ui_density` and `ui_theme`.
pub fn css_settings(
    font_family: Option<&str>,
    font_size: Option<&str>,
    density: Option<&str>,
    theme: Option<&str>,
) -> (s: CssSettings)
    ensures
        s.font_family@ == font_family_text(
            match font_family {
                Some(f) => f@,
                None => default_font_family(),
            },
        ),
        s.font_size == font_size_setting(
            match font_size {
                Some(v) => Some(v@),
                None => None,
            },
        ),
        s.subtitle_size == if s.font_size >= 14 {
            s.font_size - 3
        } else {
            11
        },
        s.search_size == s.font_size + 2,
        s.panel_title_size == s.font_size - 2,
        s.dashboard_clock_size == 64,
        s.row_height == row_height_setting(
            match density {
                Some(v) => Some(v@),
                None => None,
            },
        ),
        s.prefer_dark == theme_setting(
            match theme {
                Some(v) => Some(v@),
                None => None,
            },
        ),
{
    let family = match font_family {
        Some(f) => css_font_family(f),
        None => css_font_family("Outfit, Inter, Noto Sans, sans-serif"),
    };
    let size: u32 = match font_size {
        Some(v) => {
            let chars = chars_of(v);
            assert(chars@.subrange(0, chars.len() as int) =~= chars@);
            match parse_unsigned_range(&chars, 0, chars.len(), u32::MAX as u64) {
                Some(n) => {
                    if 12 <= n && n <= 22 {
                        n as u32
                    } else {
                        15
                    }
                },
                None => 15,
            }
        },
        None => 15,
    };
    let subtitle = if size >= 14 {
        size - 3
    } else {
        11
    };
    let row_height: u32 = match density {
        Some(d) => {
            if seq_eq(&chars_of(d), &chars_of("compact")) {
                44
            } else {
                52
            }
        },
        None => 44,
    };
    let prefer_dark = match theme {
        Some(t) => {
            let tc = chars_of(t);
            if seq_eq(&tc, &chars_of("dark")) {
                Some(true)
            } else if seq_eq(&tc, &chars_of("light")) {
                Some(false)
            } else {
                None
            }
        },
        None => None,
    };
    CssSettings {
        font_family: family,
        font_size: size,
        subtitle_size: subtitle,
        search_size: size + 2,
        panel_title_size: size - 2,
        dashboard_clock_size: 64,
        row_height,
        prefer_dark,
    }
}

/// The stylesheet: `template` with the placeholders `__FONT_FAMILY__`,
/// `__FONT_SIZE__`, `__SUBTITLE_SIZE__`, `__SEARCH_SIZE__`,
/// `__PANEL_TITLE_SIZE__`, `__DASHBOARD_CLOCK_SIZE__` and `__ROW_HEIGHT__`
/// replaced, in that order, by the settings.
pub open spec fn css_text(
    template: Seq<char>,
    family: Seq<char>,
    font_size: nat,
    subtitle_size: nat,
    search_size: nat,
    panel_title_size: nat,
    clock_size: nat,
    row_height: nat,
) -> Seq<char> {
    let a = replace_all(template, "__FONT_FAMILY__"@, family);
    let b = replace_all(a, "__FONT_SIZE__"@, decimal_text(font_size));
    let c = replace_all(b, "__SUBTITLE_SIZE__"@, decimal_text(subtitle_size));
    let d = replace_all(c, "__SEARCH_SIZE__"@, decimal_text(search_size));
    let e = replace_all(d, "__PANEL_TITLE_SIZE__"@, decimal_text(panel_title_size));
    let f = replace_all(e, "__DASHBOARD_CLOCK_SIZE__"@, decimal_text(clock_size));
    replace_all(f, "__ROW_HEIGHT__"@, decimal_text(row_height))
}

/// Replaces `placeholder` in `text` by the decimal digits of `n`.
fn replace_number(text: &Vec<char>, placeholder: &str, n: u32) -> (r: Vec<char>)
    requires
        placeholder@.len() > 0,
    ensures
        r@ == replace_all(text@, placeholder@, decimal_text(n as nat)),
{
    let p = chars_of(placeholder);
    replace_chars(text, &p, &decimal_chars(n as u64))
}

/// Fills the stylesheet template with the settings.
pub fn render_css(template: &str, settings: &CssSettings) -> (css: String)
    ensures
        css@ == css_text(
            template@,
            settings.font_family@,
            settings.font_size as nat,
            settings.subtitle_size as nat,
            settings.search_size as nat,
            settings.panel_title_size as nat,
            settings.dashboard_clock_size as nat,
            settings.row_height as nat,
        ),
{
    proof {
        reveal_strlit("__FONT_FAMILY__");
        reveal_strlit("__FONT_SIZE__");
        reveal_strlit("__SUBTITLE_SIZE__");
        reveal_strlit("__SEARCH_SIZE__");
        reveal_strlit("__PANEL_TITLE_SIZE__");
        reveal_strlit("__DASHBOARD_CLOCK_SIZE__");
        reveal_strlit("__ROW_HEIGHT__");
    }
    let t = chars_of(template);
    let fam = chars_of(settings.font_family.as_str());
    let a = replace_chars(&t, &chars_of("__FONT_FAMILY__"), &fam);
    let b = replace_number(&a, "__FONT_SIZE__", settings.font_size);
    let c = replace_number(&b, "__SUBTITLE_SIZE__", settings.subtitle_size);
    let d = replace_number(&c, "__SEARCH_SIZE__", settings.search_size);
    let e = replace_number(&d, "__PANEL_TITLE_SIZE__", settings.panel_title_size);
    let f = replace_number(&e, "__DASHBOARD_CLOCK_SIZE__", settings.dashboard_clock_size);
    let g = replace_number(&f, "__ROW_HEIGHT__", settings.row_height);
    string_of(&g)
}

/// Every character of `s` may stand in a font family list.
pub open spec fn all_font_chars(s: Seq<char>) -> bool {
    forall|i: int| 0 <= i < s.len() ==> font_char(#[trigger] s[i])
}

/// Filtering keeps only allowed characters, and keeps a text made of them
/// as it is.
pub proof fn lemma_keep_font_chars(s: Seq<char>)
    ensures
        all_font_chars(keep_font_chars(s)),
        all_font_chars(s) ==> keep_font_chars(s) == s,
    decreases s.len(),
{
    if s.len() > 0 {
        let d = s.drop_first();
        assert(forall|i: int| 0 <= i < d.len() ==> d[i] == s[i + 1]);
        lemma_keep_font_chars(d);
        let head = if font_char(s[0]) {
            seq![s[0]]
        } else {
            Seq::<char>::empty()
        };
        let k = keep_font_chars(s);
        assert forall|i: int| 0 <= i < k.len() implies font_char(#[trigger] k[i]) by {
            if i < head.len() {
                assert(k[i] == head[i]);
            } else {
                assert(k[i] == keep_font_chars(d)[i - head.len()]);
            }
        }
        if all_font_chars(s) {
            assert(font_char(s[0]));
            assert(seq![s[0]] + d =~= s);
        }
    }
}

/// Trimming keeps a sub-range: a text of allowed characters stays one, and
/// what is left neither begins nor ends with whitespace.
pub proof fn lemma_trim_font(s: Seq<char>)
    ensures
        all_font_chars(s) ==> all_font_chars(trim(s)),
        trim(s).len() > 0 ==> !is_ws(trim(s)[0]) && !is_ws(trim(s).last()),
        trim(trim(s)) == trim(s),
{
    lemma_trim_start_shape(s);
    lemma_trim_end_shape(trim_start(s));
    let t = trim(s);
    if t.len() > 0 {
        assert(!is_ws(t[0]));
    }
    lemma_trim_fixed(t);
}

/// `trim_start` drops a prefix and leaves no leading whitespace.
proof fn lemma_trim_start_shape(s: Seq<char>)
    ensures
        all_font_chars(s) ==> all_font_chars(trim_start(s)),
        trim_start(s).len() > 0 ==> !is_ws(trim_start(s)[0]),
    decreases s.len(),
{
    if s.len() > 0 && is_ws(s[0]) {
        let d = s.drop_first();
        assert(forall|i: int| 0 <= i < d.len() ==> d[i] == s[i + 1]);
        lemma_trim_start_shape(d);
    }
}

/// `trim_end` drops a suffix, keeps the first character and leaves no
/// trailing whitespace.
proof fn lemma_trim_end_shape(s: Seq<char>)
    ensures
        all_font_chars(s) ==> all_font_chars(trim_end(s)),
        trim_end(s).len() > 0 ==> !is_ws(trim_end(s).last()),
        s.len() > 0 && !is_ws(s[0]) ==> trim_end(s).len() > 0 && trim_end(s)[0] == s[0],
    decreases s.len(),
{
    if s.len() > 0 && is_ws(s.last()) {
        let d = s.drop_last();
        assert(forall|i: int| 0 <= i < d.len() ==> d[i] == s[i]);
        lemma_trim_end_shape(d);
    }
}

/// Text that neither begins nor ends with whitespace is its own trim.
pub proof fn lemma_trim_fixed(t: Seq<char>)
    requires
        t.len() > 0 ==> !is_ws(t[0]) && !is_ws(t.last()),
    ensures
        trim(t) == t,
{
}

/// The font family list of the stylesheet is never empty, is trimmed, holds
/// only allowed characters, and stays as it is when filtered again; a value
/// that already has this form is used as it is.
pub proof fn lemma_font_family_stable(v: Seq<char>)
    ensures
        font_family_text(v).len() > 0,
        trim(font_family_text(v)) == font_family_text(v),
        all_font_chars(font_family_text(v)),
        font_family_text(font_family_text(v)) == font_family_text(v),
        v.len() > 0 && trim(v) == v && all_font_chars(v) ==> font_family_text(v) == v,
{
    reveal_strlit("Outfit, Inter, Noto Sans, sans-serif");
    let d = default_font_family();
    assert(all_font_chars(d));
    assert(!is_ws(d[0]) && !is_ws(d.last()));
    lemma_trim_fixed(d);
    lemma_keep_font_chars(d);
    lemma_keep_font_chars(v);
    let k = keep_font_chars(v);
    lemma_trim_font(k);
    let r = font_family_text(v);
    lemma_keep_font_chars(r);
    lemma_trim_font(r);
    if trim(k).len() > 0 {
        assert(r == trim(k));
    }
    if v.len() > 0 && trim(v) == v && all_font_chars(v) {
        assert(k == v);
    }
}

} // verus!
