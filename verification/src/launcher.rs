//! Decisions of the launcher's result list: the fallback actions offered for
//! a query without results, the calculator's input filter, clipboard
//! filters, the colour of letter icons and signal bars, and how the result
//! list is filled for a query.
use vstd::prelude::*;
use vstd::string::StringSliceAdditionalSpecFns;

use crate::numbers::{decimal_chars, decimal_text};
use crate::text::{
    starts_with, contains_str, chars_of, extend_all, find, find_from, lowercase, slice_chars, string_of, to_lowercase, trim,
    trim_range,
};

verus! {

// ---------------------------------------------------------------------------
// Fallback actions for an empty result list
// ---------------------------------------------------------------------------

/// What a fallback action does.
pub enum FallbackKind {
    /// Open the AI chat with the prompt.
    AiChatWithPrompt(String),
    /// Open the URL in the browser.
    OpenUrl(String),
    /// Open the snippet editor with the text.
    CreateSnippet(String),
}

/// An action offered when a query finds nothing.
pub struct FallbackAction {
    pub category: String,
    pub title: String,
    pub subtitle: String,
    pub icon_name: String,
    pub score: u32,
    pub kind: FallbackKind,
}

/// `b` is an unreserved URL byte: an ASCII letter or digit, `-`, `_`, `.` or `~`.
pub open spec fn is_unreserved(b: u8) -> bool {
    (0x41 <= b <= 0x5a) || (0x61 <= b <= 0x7a) || (0x30 <= b <= 0x39) || b == 0x2d || b == 0x5f
        || b == 0x2e || b == 0x7e
}

/// The upper-case hexadecimal digit for `d < 16`.
pub open spec fn hex_digit(d: nat) -> char {
    if d < 10 {
        ((48 + d) as u32) as char
    } else {
        ((55 + d) as u32) as char
    }
}

/// The percent-encoding of the bytes `b`: unreserved bytes as they are, any
/// other as `%` and two upper-case hexadecimal digits.
pub open spec fn percent_encoded(b: Seq<u8>) -> Seq<char>
    decreases b.len(),
{
    if b.len() == 0 {
        Seq::empty()
    } else {
        percent_encoded(b.drop_last()) + if is_unreserved(b.last()) {
            seq![(b.last() as u32) as char]
        } else {
            seq!['%', hex_digit((b.last() / 16) as nat), hex_digit((b.last() % 16) as nat)]
        }
    }
}

/// The hexadecimal digit for `d`.
fn hex(d: u8) -> (c: char)
    requires
        d < 16,
    ensures
        c == hex_digit(d as nat),
{
    if d < 10 {
        (48 + d) as char
    } else {
        (55 + d) as char
    }
}

/// Percent-encodes the UTF-8 bytes of `s` for use in a URL query.
pub fn percent_encode(s: &str) -> (r: String)
    ensures
        r@ == percent_encoded(s.spec_bytes()),
{
    let bytes = s.as_bytes();
    let mut out: Vec<char> = Vec::new();
    let mut i: usize = 0;
    while i < bytes.len()
        invariant
            i <= bytes.len(),
            bytes@ == s.spec_bytes(),
            out@ == percent_encoded(bytes@.take(i as int)),
        decreases bytes.len() - i,
    {
        let b = bytes[i];
        assert(bytes@.take(i + 1).drop_last() =~= bytes@.take(i as int));
        if (0x41 <= b && b <= 0x5a) || (0x61 <= b && b <= 0x7a) || (0x30 <= b && b <= 0x39) || b
            == 0x2d || b == 0x5f || b == 0x2e || b == 0x7e {
            out.push(b as char);
        } else {
            out.push('%');
            out.push(hex(b / 16));
            out.push(hex(b % 16));
        }
        i = i + 1;
        assert(out@ =~= percent_encoded(bytes@.take(i as int)));
    }
    assert(bytes@.take(i as int) =~= bytes@);
    string_of(&out)
}

/// The query as shown in a fallback title: cut to 36 characters with `…`.
pub open spec fn display_query(q: Seq<char>) -> Seq<char> {
    if q.len() > 36 {
        q.take(36).push('\u{2026}')
    } else {
        q
    }
}

/// `prefix`, then the query in quotes.
pub open spec fn quoted_title(prefix: Seq<char>, q: Seq<char>) -> Seq<char> {
    prefix + seq!['"'] + display_query(q) + seq!['"']
}

/// `prefix`, then the query in quotes.
fn quoted(prefix: &str, shown: &Vec<char>) -> (r: String)
    ensures
        r@ == prefix@ + seq!['"'] + shown@ + seq!['"'],
{
    let mut out = chars_of(prefix);
    out.push('"');
    extend_all(&mut out, shown);
    out.push('"');
    string_of(&out)
}

/// The actions offered when `query` finds nothing: ask the AI, search the
/// web, or save the text as a snippet; none for a blank query.
pub fn empty_state_fallback_actions(query: &str) -> (r: Vec<FallbackAction>)
    ensures
        trim(query@).len() == 0 ==> r@.len() == 0,
        trim(query@).len() > 0 ==> {
            let q = trim(query@);
            &&& r@.len() == 3
            &&& r@[0].category@ == "AI Assistant"@
            &&& r@[0].title@ == quoted_title("Ask AI: "@, q)
            &&& r@[0].subtitle@ == "Stream answer from local Ollama model"@
            &&& r@[0].icon_name@ == "face-smile-symbolic"@
            &&& r@[0].score == 100
            &&& r@[0].kind matches FallbackKind::AiChatWithPrompt(p) && p@ == q
            &&& r@[1].category@ == "Web Search"@
            &&& r@[1].title@ == quoted_title("Search Web for "@, q)
            &&& r@[1].subtitle@ == "Search Google in default browser"@
            &&& r@[1].icon_name@ == "system-search-symbolic"@
            &&& r@[1].score == 90
            &&& r@[1].kind matches FallbackKind::OpenUrl(u) && u@ == "https://www.google.com/search?q="@
                + percent_encoded(crate::text::utf8_of(q))
            &&& r@[2].category@ == "Snippets"@
            &&& r@[2].title@ == quoted_title("Create Snippet with "@, q)
            &&& r@[2].subtitle@ == "Save text as a reusable snippet"@
            &&& r@[2].icon_name@ == "document-edit-symbolic"@
            &&& r@[2].score == 80
            &&& r@[2].kind matches FallbackKind::CreateSnippet(p) && p@ == q
        },
{
    let chars = chars_of(query);
    let (lo, hi) = trim_range(&chars);
    let mut out: Vec<FallbackAction> = Vec::new();
    if lo == hi {
        return out;
    }
    let q = slice_chars(&chars, lo, hi);
    let trimmed = string_of(&q);
    let shown = if q.len() > 36 {
        let mut cut = slice_chars(&q, 0, 36);
        cut.push('\u{2026}');
        cut
    } else {
        slice_chars(&q, 0, q.len())
    };
    assert(shown@ =~= display_query(q@));
    let encoded = percent_encode(trimmed.as_str());
    let mut url = chars_of("https://www.google.com/search?q=");
    extend_all(&mut url, &chars_of(encoded.as_str()));
    out.push(FallbackAction {
        category: "AI Assistant".to_owned(),
        title: quoted("Ask AI: ", &shown),
        subtitle: "Stream answer from local Ollama model".to_owned(),
        icon_name: "face-smile-symbolic".to_owned(),
        score: 100,
        kind: FallbackKind::AiChatWithPrompt(string_of(&q)),
    });
    out.push(FallbackAction {
        category: "Web Search".to_owned(),
        title: quoted("Search Web for ", &shown),
        subtitle: "Search Google in default browser".to_owned(),
        icon_name: "system-search-symbolic".to_owned(),
        score: 90,
        kind: FallbackKind::OpenUrl(string_of(&url)),
    });
    out.push(FallbackAction {
        category: "Snippets".to_owned(),
        title: quoted("Create Snippet with ", &shown),
        subtitle: "Save text as a reusable snippet".to_owned(),
        icon_name: "document-edit-symbolic".to_owned(),
        score: 80,
        kind: FallbackKind::CreateSnippet(string_of(&q)),
    });
    out
}


// ---------------------------------------------------------------------------
// Calculator input
// ---------------------------------------------------------------------------

/// Characters the calculator row keeps: ASCII digits, `+ - * / ( ) % .`,
/// space and tab.
pub open spec fn calc_char(c: char) -> bool {
    ('0' <= c <= '9') || c == '+' || c == '-' || c == '*' || c == '/' || c == '(' || c == ')'
        || c == '%' || c == '.' || c == ' ' || c == '\t'
}

/// `s` with the characters the calculator does not accept removed.
pub open spec fn keep_calc_chars(s: Seq<char>) -> Seq<char>
    decreases s.len(),
{
    if s.len() == 0 {
        Seq::empty()
    } else {
        keep_calc_chars(s.drop_last()) + if calc_char(s.last()) {
            seq![s.last()]
        } else {
            Seq::empty()
        }
    }
}

/// The calculator row's expression: the accepted characters of `expr`, or
/// `—` when none is left.
pub open spec fn calc_expression(expr: Seq<char>) -> Seq<char> {
    let kept = keep_calc_chars(expr);
    if kept.len() == 0 {
        seq!['\u{2014}']
    } else {
        kept
    }
}

/// The expression shown by the calculator row for the input `expr`.
pub fn evaluate_expr(expr: &str) -> (r: String)
    ensures
        r@ == calc_expression(expr@),
{
    let chars = chars_of(expr);
    let mut kept: Vec<char> = Vec::new();
    let mut i: usize = 0;
    while i < chars.len()
        invariant
            i <= chars.len(),
            kept@ == keep_calc_chars(chars@.take(i as int)),
        decreases chars.len() - i,
    {
        assert(chars@.take(i + 1).drop_last() =~= chars@.take(i as int));
        let c = chars[i];
        if ('0' <= c && c <= '9') || c == '+' || c == '-' || c == '*' || c == '/' || c == '(' || c
            == ')' || c == '%' || c == '.' || c == ' ' || c == '\t' {
            kept.push(c);
        }
        i = i + 1;
        assert(kept@ =~= keep_calc_chars(chars@.take(i as int)));
    }
    assert(chars@.take(i as int) =~= chars@);
    if kept.len() == 0 {
        kept.push('\u{2014}');
        assert(kept@ =~= seq!['\u{2014}']);
    }
    string_of(&kept)
}

// ---------------------------------------------------------------------------
// Clipboard history filter
// ---------------------------------------------------------------------------

/// The kinds of clipboard entries.
#[derive(Debug, Clone, Copy, PartialEq, Eq, Structural)]
pub enum ClipboardKind {
    Text,
    Url,
    Command,
    Code,
    Image,
}

/// The filter of the clipboard history view.
#[derive(Debug, Clone, Copy, PartialEq, Eq, Structural)]
pub enum ClipboardFilter {
    All,
    Kind(ClipboardKind),
}

/// The filter chosen by entry `index` of the view's drop-down: All, Text,
/// URL, Command, Code, Image; anything else shows all.
pub open spec fn filter_for_index(index: u32) -> ClipboardFilter {
    if index == 1 {
        ClipboardFilter::Kind(ClipboardKind::Text)
    } else if index == 2 {
        ClipboardFilter::Kind(ClipboardKind::Url)
    } else if index == 3 {
        ClipboardFilter::Kind(ClipboardKind::Command)
    } else if index == 4 {
        ClipboardFilter::Kind(ClipboardKind::Code)
    } else if index == 5 {
        ClipboardFilter::Kind(ClipboardKind::Image)
    } else {
        ClipboardFilter::All
    }
}

/// The filter chosen by entry `index` of the drop-down.
pub fn selected_clipboard_filter(index: u32) -> (f: ClipboardFilter)
    ensures
        f == filter_for_index(index),
{
    match index {
        1 => ClipboardFilter::Kind(ClipboardKind::Text),
        2 => ClipboardFilter::Kind(ClipboardKind::Url),
        3 => ClipboardFilter::Kind(ClipboardKind::Command),
        4 => ClipboardFilter::Kind(ClipboardKind::Code),
        5 => ClipboardFilter::Kind(ClipboardKind::Image),
        _ => ClipboardFilter::All,
    }
}

/// Whether an entry of kind `kind` is shown under `filter`.
pub fn clipboard_filter_matches(filter: ClipboardFilter, kind: ClipboardKind) -> (r: bool)
    ensures
        r == match filter {
            ClipboardFilter::All => true,
            ClipboardFilter::Kind(k) => k == kind,
        },
{
    match filter {
        ClipboardFilter::All => true,
        ClipboardFilter::Kind(k) => k == kind,
    }
}

// ---------------------------------------------------------------------------
// Letter icons and signal bars
// ---------------------------------------------------------------------------

/// The colour of a letter icon: a fixed colour for well-known applications,
/// else a hue (degrees) derived from the name.
#[derive(Debug, Clone, Copy, PartialEq, Eq, Structural)]
pub enum IconTint {
    Terminal,
    Code,
    Firefox,
    Spotify,
    Notion,
    Slack,
    Telegram,
    Chrome,
    Hue(u64),
}

/// The name hash of letter icons: `h = h * 31 + byte` over the UTF-8 bytes,
/// wrapping at 64 bits.
pub open spec fn name_hash(b: Seq<u8>) -> u64
    decreases b.len(),
{
    if b.len() == 0 {
        0
    } else {
        vstd::wrapping::u64_specs::wrapping_add(
            vstd::wrapping::u64_specs::wrapping_mul(name_hash(b.drop_last()), 31),
            b.last() as u64,
        )
    }
}

/// `l` contains `p`.
pub open spec fn has(l: Seq<char>, p: Seq<char>) -> bool {
    find(l, p) is Some
}

/// The tint of the letter icon for an application named `name`.
pub open spec fn icon_tint(name: Seq<char>) -> IconTint {
    let l = lowercase(name);
    if has(l, "terminal"@) || has(l, "alacritty"@) || has(l, "kitty"@) || has(l, "foot"@) {
        IconTint::Terminal
    } else if has(l, "code"@) || has(l, "vscode"@) || has(l, "vscodium"@) {
        IconTint::Code
    } else if has(l, "firefox"@) {
        IconTint::Firefox
    } else if has(l, "spotify"@) {
        IconTint::Spotify
    } else if has(l, "notion"@) {
        IconTint::Notion
    } else if has(l, "slack"@) {
        IconTint::Slack
    } else if has(l, "telegram"@) {
        IconTint::Telegram
    } else if has(l, "chrome"@) || has(l, "chromium"@) {
        IconTint::Chrome
    } else {
        IconTint::Hue((name_hash(crate::text::utf8_of(name)) % 360) as u64)
    }
}

/// The tint of the letter icon for an application named `name`.
pub fn app_icon_tint(name: &str) -> (t: IconTint)
    ensures
        t == icon_tint(name@),
{
    let lower = to_lowercase(name);
    let l = chars_of(lower.as_str());
    if contains_str(&l, "terminal") || contains_str(&l, "alacritty") || contains_str(&l, "kitty")
        || contains_str(&l, "foot") {
        IconTint::Terminal
    } else if contains_str(&l, "code") || contains_str(&l, "vscode") || contains_str(
        &l,
        "vscodium",
    ) {
        IconTint::Code
    } else if contains_str(&l, "firefox") {
        IconTint::Firefox
    } else if contains_str(&l, "spotify") {
        IconTint::Spotify
    } else if contains_str(&l, "notion") {
        IconTint::Notion
    } else if contains_str(&l, "slack") {
        IconTint::Slack
    } else if contains_str(&l, "telegram") {
        IconTint::Telegram
    } else if contains_str(&l, "chrome") || contains_str(&l, "chromium") {
        IconTint::Chrome
    } else {
        let bytes = name.as_bytes();
        let mut h: u64 = 0;
        let mut i: usize = 0;
        while i < bytes.len()
            invariant
                i <= bytes.len(),
                h == name_hash(bytes@.take(i as int)),
            decreases bytes.len() - i,
        {
            assert(bytes@.take(i + 1).drop_last() =~= bytes@.take(i as int));
            h = h.wrapping_mul(31).wrapping_add(bytes[i] as u64);
            i = i + 1;
        }
        assert(bytes@.take(i as int) =~= bytes@);
        IconTint::Hue(h % 360)
    }
}

/// How many of the four signal bars are filled for a strength of `percent`:
/// `percent / 25` rounded to the nearest whole number, halves up.
pub open spec fn filled_bars(percent: nat) -> nat {
    (2 * percent + 25) / 50
}

/// The number of filled signal bars for a strength of `percent`.
pub fn signal_bars_filled(percent: u32) -> (n: u64)
    ensures
        n == filled_bars(percent as nat),
{
    (2 * (percent as u64) + 25) / 50
}

// ---------------------------------------------------------------------------
// Bundled fonts
// ---------------------------------------------------------------------------

/// A bundled font is already installed when an existing file has exactly the
/// embedded byte length; anything else (missing, stale, partial) needs a write.
pub fn font_is_current(existing_len: Option<u64>, embedded_len: u64) -> (r: bool)
    ensures
        r == (existing_len == Some(embedded_len)),
{
    match existing_len {
        Some(n) => n == embedded_len,
        None => false,
    }
}

// ---------------------------------------------------------------------------
// The result list for a query
// ---------------------------------------------------------------------------

/// `s` without its leading characters `c`.
pub open spec fn strip_leading(s: Seq<char>, c: char) -> Seq<char>
    decreases s.len(),
{
    if s.len() > 0 && s[0] == c {
        strip_leading(s.drop_first(), c)
    } else {
        s
    }
}

/// How the result list is filled.
#[derive(Debug, Clone, Copy, PartialEq, Eq, Structural)]
pub enum ResultsListing {
    /// The root list, grouped into sections (blank query).
    Grouped,
    /// The matches, best first.
    Ranked,
    /// A "no results" heading and the fallback actions.
    Fallback,
    /// Nothing but the calculator row.
    Empty,
}

/// What the result list shows for a query.
pub struct ResultsPlan {
    /// The calculator row's input, for a query that begins with `=`.
    pub calc_input: Option<String>,
    pub listing: ResultsListing,
}

/// How the list is filled for `query` when the search found `found` actions.
pub open spec fn listing_for(query: Seq<char>, found: nat) -> ResultsListing {
    if trim(query).len() == 0 {
        ResultsListing::Grouped
    } else if found > 0 {
        ResultsListing::Ranked
    } else if !(query.len() > 0 && query[0] == '=') {
        ResultsListing::Fallback
    } else {
        ResultsListing::Empty
    }
}

/// What the result list shows for `query` when the search found `found`
/// actions: a calculator row for a query that begins with `=`, with the text
/// after the `=` signs, trimmed; then the root list for a blank query, the
/// matches when there are some, else the fallback actions, except after `=`.
pub fn plan_results(query: &str, found: usize) -> (p: ResultsPlan)
    ensures
        p.listing == listing_for(query@, found as nat),
        p.calc_input is Some <==> (query@.len() > 0 && query@[0] == '='),
        p.calc_input matches Some(e) ==> e@ == trim(strip_leading(query@, '=')),
{
    let chars = chars_of(query);
    let calc = chars.len() > 0 && chars[0] == '=';
    let calc_input = if calc {
        let mut i: usize = 0;
        assert(chars@.skip(0) =~= chars@);
        while i < chars.len() && chars[i] == '='
            invariant
                i <= chars.len(),
                strip_leading(chars@, '=') == strip_leading(chars@.skip(i as int), '='),
            decreases chars.len() - i,
        {
            assert(chars@.skip(i as int).drop_first() =~= chars@.skip(i + 1));
            i = i + 1;
        }
        let rest = slice_chars(&chars, i, chars.len());
        assert(rest@ =~= chars@.skip(i as int));
        let (lo, hi) = trim_range(&rest);
        Some(string_of(&slice_chars(&rest, lo, hi)))
    } else {
        None
    };
    let (lo, hi) = trim_range(&chars);
    let listing = if lo == hi {
        ResultsListing::Grouped
    } else if found > 0 {
        ResultsListing::Ranked
    } else if !calc {
        ResultsListing::Fallback
    } else {
        ResultsListing::Empty
    };
    ResultsPlan { calc_input, listing }
}

/// The heading shown when a query finds nothing.
pub fn no_results_title(query: &str) -> (r: String)
    ensures
        r@ == "No results for \""@ + query@ + "\""@,
{
    let mut out = chars_of("No results for \"");
    extend_all(&mut out, &chars_of(query));
    extend_all(&mut out, &chars_of("\""));
    string_of(&out)
}

/// The counter shown beside a list of `total` results: `1 of {total}` once
/// there are more than six, else none.
pub fn overflow_counter(total: usize) -> (r: Option<String>)
    ensures
        r is Some <==> total > 6,
        r matches Some(t) ==> t@ == "1 of "@ + decimal_text(total as nat),
{
    if total > 6 {
        let mut out = chars_of("1 of ");
        extend_all(&mut out, &decimal_chars(total as u64));
        Some(string_of(&out))
    } else {
        None
    }
}

/// The style class that staggers the appearance of the first five results.
pub fn stagger_class(position: usize) -> (r: Option<String>)
    ensures
        r is Some <==> position < 5,
        r matches Some(c) ==> c@ == "row-stagger-"@ + decimal_text(position as nat),
{
    if position < 5 {
        let mut out = chars_of("row-stagger-");
        extend_all(&mut out, &decimal_chars(position as u64));
        Some(string_of(&out))
    } else {
        None
    }
}

/// The badge beside the search entry for `query`: `Calculator` after `=`,
/// `File Search` after `file ` or `find `, else none.
pub open spec fn badge_for(query: Seq<char>) -> Option<Seq<char>> {
    if query.len() > 0 && query[0] == '=' {
        Some("Calculator"@)
    } else if starts_with(query, "file "@) || starts_with(query, "find "@) {
        Some("File Search"@)
    } else {
        None
    }
}

/// Whether the characters `q` begin with `p`.
fn has_prefix(q: &Vec<char>, p: &str) -> (r: bool)
    ensures
        r == starts_with(q@, p@),
{
    let pc = chars_of(p);
    if pc.len() > q.len() {
        return false;
    }
    assert(q@.skip(0) =~= q@);
    assert(q@.subrange(0, pc.len() as int) =~= q@.take(pc.len() as int));
    crate::text::matches_at(q, &pc, 0)
}

/// The badge beside the search entry for `query`.
pub fn mode_badge(query: &str) -> (r: Option<&'static str>)
    ensures
        match r {
            Some(b) => badge_for(query@) == Some(b@),
            None => badge_for(query@) is None,
        },
{
    let q = chars_of(query);
    if q.len() > 0 && q[0] == '=' {
        Some("Calculator")
    } else if has_prefix(&q, "file ") || has_prefix(&q, "find ") {
        Some("File Search")
    } else {
        None
    }
}

/// The counter beside a list of `total` results while row `selected` is
/// selected: `{selected + 1} of {total}` once there are more than six.
pub fn selection_counter(total: usize, selected: Option<usize>) -> (r: Option<String>)
    requires
        selected matches Some(i) ==> i < usize::MAX,
    ensures
        r is Some <==> (total > 6 && selected is Some),
        r matches Some(t) ==> t@ == decimal_text((selected->0 + 1) as nat) + " of "@ + decimal_text(
            total as nat,
        ),
{
    match selected {
        Some(i) => if total > 6 {
            let mut out = decimal_chars((i + 1) as u64);
            extend_all(&mut out, &chars_of(" of "));
            extend_all(&mut out, &decimal_chars(total as u64));
            Some(string_of(&out))
        } else {
            None
        },
        None => None,
    }
}

} // verus!
