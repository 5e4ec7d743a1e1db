//! Reading the launcher's preference values.
//!
//! Preferences are stored as text; these functions turn a stored value (or
//! its absence) into the setting the launcher uses, falling back to a
//! default when the value is missing or unreadable.
use vstd::prelude::*;

use crate::text::{
    ascii_lower, ascii_lower_range, chars_of, parse_unsigned, parse_unsigned_range, seq_eq,
    slice_chars, string_of, trim, trim_range, is_ws, trim_start, trim_end, contains_str, find,
    lowercase, to_lowercase,
};

verus! {

/// What a boolean preference value means: `true`/`yes`/`on`/`1` and
/// `false`/`no`/`off`/`0`, ignoring surrounding whitespace and ASCII case.
pub open spec fn parse_bool_text(v: Seq<char>) -> Option<bool> {
    let w = ascii_lower(trim(v));
    if w == "true"@ || w == "yes"@ || w == "on"@ || w == "1"@ {
        Some(true)
    } else if w == "false"@ || w == "no"@ || w == "off"@ || w == "0"@ {
        Some(false)
    } else {
        None
    }
}

/// Reads a boolean preference value.
pub fn parse_bool_preference(value: &str) -> (r: Option<bool>)
    ensures
        r == parse_bool_text(value@),
        (r == Some(false)) <==> false_words().contains(ascii_lower(trim(value@))),
        (r == Some(true)) <==> true_words().contains(ascii_lower(trim(value@))),
{
    proof {
        lemma_bool_words(value@, false);
    }
    let chars = chars_of(value);
    let (lo, hi) = trim_range(&chars);
    let w = ascii_lower_range(&chars, lo, hi);
    if seq_eq(&w, &chars_of("true")) || seq_eq(&w, &chars_of("yes")) || seq_eq(
        &w,
        &chars_of("on"),
    ) || seq_eq(&w, &chars_of("1")) {
        Some(true)
    } else if seq_eq(&w, &chars_of("false")) || seq_eq(&w, &chars_of("no")) || seq_eq(
        &w,
        &chars_of("off"),
    ) || seq_eq(&w, &chars_of("0")) {
        Some(false)
    } else {
        None
    }
}

/// What a duration preference (milliseconds) means: a whole number of at
/// least 100 that fits in a `u64`, ignoring surrounding whitespace.
pub open spec fn parse_duration_text(v: Seq<char>) -> Option<nat> {
    match parse_unsigned(trim(v), u64::MAX as nat) {
        Some(n) => if n >= 100 {
            Some(n)
        } else {
            None
        },
        None => None,
    }
}

/// Reads a duration preference in milliseconds.
pub fn parse_duration_ms_preference(value: &str) -> (r: Option<u64>)
    ensures
        match r {
            Some(ms) => parse_duration_text(value@) == Some(ms as nat),
            None => parse_duration_text(value@) is None,
        },
{
    let chars = chars_of(value);
    let (lo, hi) = trim_range(&chars);
    match parse_unsigned_range(&chars, lo, hi, u64::MAX) {
        Some(n) => {
            if n >= 100 {
                Some(n)
            } else {
                None
            }
        },
        None => None,
    }
}

/// The item that one comma-separated piece contributes: the piece trimmed and
/// in ASCII lower case, unless that leaves nothing.
pub open spec fn list_item(piece: Seq<char>) -> Seq<Seq<char>> {
    let w = ascii_lower(trim(piece));
    if w.len() > 0 {
        seq![w]
    } else {
        Seq::empty()
    }
}

/// The items of the comma-separated text `s`, after the unfinished piece `cur`.
pub open spec fn list_from(s: Seq<char>, cur: Seq<char>) -> Seq<Seq<char>>
    decreases s.len(),
{
    if s.len() == 0 {
        list_item(cur)
    } else if s[0] == ',' {
        list_item(cur) + list_from(s.drop_first(), Seq::empty())
    } else {
        list_from(s.drop_first(), cur.push(s[0]))
    }
}

/// The items of a comma-separated list preference, in order.
pub open spec fn parse_list_text(v: Seq<char>) -> Seq<Seq<char>> {
    list_from(v, Seq::empty())
}

/// The views of a sequence of strings.
pub open spec fn string_views(v: Seq<String>) -> Seq<Seq<char>> {
    Seq::new(v.len(), |i: int| v[i]@)
}

/// The views of a sequence of string slices.
pub open spec fn str_views(v: Seq<&str>) -> Seq<Seq<char>> {
    Seq::new(v.len(), |i: int| v[i]@)
}

/// Appends the item of the piece `s[lo..hi]` to `out`.
fn push_list_item(out: &mut Vec<String>, s: &[char], lo: usize, hi: usize)
    requires
        lo <= hi <= s.len(),
    ensures
        string_views(final(out)@) == string_views(old(out)@) + list_item(
            s@.subrange(lo as int, hi as int),
        ),
{
    let piece = slice_chars(s, lo, hi);
    let (a, b) = trim_range(&piece);
    let w = ascii_lower_range(&piece, a, b);
    if w.len() > 0 {
        let ghost before = string_views(out@);
        out.push(string_of(&w));
        assert(string_views(out@) =~= before + seq![w@]);
    } else {
        assert(string_views(out@) =~= string_views(out@) + Seq::<Seq<char>>::empty());
    }
}

/// Reads a comma-separated list preference.
pub fn parse_list_preference(value: &str) -> (r: Vec<String>)
    ensures
        string_views(r@) == parse_list_text(value@),
{
    let s = chars_of(value);
    let mut out: Vec<String> = Vec::new();
    let mut start: usize = 0;
    let mut i: usize = 0;
    assert(s@.skip(0) =~= s@);
    assert(s@.subrange(0, 0) =~= Seq::<char>::empty());
    while i < s.len()
        invariant
            start <= i <= s.len(),
            parse_list_text(s@) == string_views(out@) + list_from(
                s@.skip(i as int),
                s@.subrange(start as int, i as int),
            ),
        decreases s.len() - i,
    {
        assert(s@.skip(i as int).drop_first() =~= s@.skip(i + 1));
        if s[i] == ',' {
            push_list_item(&mut out, &s, start, i);
            assert(s@.subrange(i + 1, i + 1) =~= Seq::<char>::empty());
            start = i + 1;
        } else {
            assert(s@.subrange(start as int, i as int).push(s@[i as int]) =~= s@.subrange(
                start as int,
                i + 1,
            ));
        }
        i = i + 1;
    }
    push_list_item(&mut out, &s, start, i);
    out
}

/// The name under which an AI answer is saved as a snippet: the prompt
/// trimmed and cut to 48 characters, or `AI answer` for an empty prompt.
pub open spec fn snippet_name_text(prompt: Seq<char>) -> Seq<char> {
    let t = trim(prompt);
    let name = if t.len() <= 48 {
        t
    } else {
        t.take(48)
    };
    if name.len() == 0 {
        "AI answer"@
    } else {
        name
    }
}

/// The snippet name for an AI answer to `prompt`.
pub fn ai_snippet_name(prompt: &str) -> (name: String)
    ensures
        name@ == snippet_name_text(prompt@),
{
    let chars = chars_of(prompt);
    let (lo, hi) = trim_range(&chars);
    if lo == hi {
        return "AI answer".to_owned();
    }
    let end = if hi - lo <= 48 {
        hi
    } else {
        lo + 48
    };
    let name = slice_chars(&chars, lo, end);
    assert(name@ =~= (if hi - lo <= 48 {
        chars@.subrange(lo as int, hi as int)
    } else {
        chars@.subrange(lo as int, hi as int).take(48)
    }));
    string_of(&name)
}

/// A boolean setting: the stored value when it reads as a boolean, else `default`.
pub open spec fn enabled_setting(value: Option<Seq<char>>, default: bool) -> bool {
    match value {
        Some(v) => match parse_bool_text(v) {
            Some(b) => b,
            None => default,
        },
        None => default,
    }
}

/// The boolean setting stored as `value`, or `default_value`.
pub fn preference_enabled(value: Option<&str>, default_value: bool) -> (r: bool)
    ensures
        r == enabled_setting(
            match value {
                Some(v) => Some(v@),
                None => None,
            },
            default_value,
        ),
        value matches Some(v) && false_words().contains(ascii_lower(trim(v@))) ==> !r,
        value matches Some(v) && true_words().contains(ascii_lower(trim(v@))) ==> r,
{
    if let Some(v) = value {
        proof {
            lemma_bool_words(v@, default_value);
        }
    }
    match value {
        Some(v) => match parse_bool_preference(v) {
            Some(b) => b,
            None => default_value,
        },
        None => default_value,
    }
}

/// A duration setting in milliseconds: the stored value when it reads as one,
/// else `default`.
pub open spec fn duration_setting(value: Option<Seq<char>>, default: nat) -> nat {
    match value {
        Some(v) => match parse_duration_text(v) {
            Some(n) => n,
            None => default,
        },
        None => default,
    }
}

/// The duration setting (milliseconds) stored as `value`, or `default_value`.
pub fn preference_duration_ms(value: Option<&str>, default_value: u64) -> (r: u64)
    ensures
        r as nat == duration_setting(
            match value {
                Some(v) => Some(v@),
                None => None,
            },
            default_value as nat,
        ),
{
    match value {
        Some(v) => match parse_duration_ms_preference(v) {
            Some(n) => n,
            None => default_value,
        },
        None => default_value,
    }
}

/// A list setting: the stored items when there is at least one, else `default`.
pub open spec fn list_setting(value: Option<Seq<char>>, default: Seq<Seq<char>>) -> Seq<
    Seq<char>,
> {
    match value {
        Some(v) => if parse_list_text(v).len() > 0 {
            parse_list_text(v)
        } else {
            default
        },
        None => default,
    }
}

/// Copies of the strings `items`.
fn owned_strings(items: &[&str]) -> (r: Vec<String>)
    ensures
        string_views(r@) == str_views(items@),
{
    let mut r: Vec<String> = Vec::new();
    let mut i: usize = 0;
    while i < items.len()
        invariant
            i <= items.len(),
            string_views(r@) == str_views(items@).take(i as int),
        decreases items.len() - i,
    {
        let item: &str = items[i];
        let owned = item.to_owned();
        assert(owned@ == str_views(items@)[i as int]);
        let ghost before = string_views(r@);
        r.push(owned);
        assert(string_views(r@) =~= before.push(owned@));
        i = i + 1;
        assert(string_views(r@) =~= str_views(items@).take(i as int));
    }
    assert(str_views(items@).take(i as int) =~= str_views(items@));
    r
}

/// The list setting stored as `value`, or the items `default_value`.
pub fn preference_list(value: Option<&str>, default_value: &[&str]) -> (r: Vec<String>)
    ensures
        string_views(r@) == list_setting(
            match value {
                Some(v) => Some(v@),
                None => None,
            },
            str_views(default_value@),
        ),
{
    match value {
        Some(v) => {
            let items = parse_list_preference(v);
            if items.len() > 0 {
                items
            } else {
                owned_strings(default_value)
            }
        },
        None => owned_strings(default_value),
    }
}


/// The view of an optional string.
pub open spec fn opt_view(v: Option<&str>) -> Option<Seq<char>> {
    match v {
        Some(s) => Some(s@),
        None => None,
    }
}

/// The endpoint and model of the local AI service.
pub struct LocalAiConfig {
    pub endpoint: String,
    pub model: String,
}

/// The first of the values that is present, or `default`.
pub open spec fn first_present(values: Seq<Option<Seq<char>>>, default: Seq<char>) -> Seq<char>
    decreases values.len(),
{
    if values.len() == 0 {
        default
    } else {
        match values[0] {
            Some(v) => v,
            None => first_present(values.drop_first(), default),
        }
    }
}

/// The local AI settings: the endpoint from `ollama_endpoint`, else
/// `local_ai_endpoint`, else `http://localhost:11434`; the model from
/// `ollama_model`, else `local_ai_model`, else `ai_model`, else empty.
pub fn local_ai_config(
    ollama_endpoint: Option<&str>,
    local_ai_endpoint: Option<&str>,
    ollama_model: Option<&str>,
    local_ai_model: Option<&str>,
    ai_model: Option<&str>,
) -> (c: LocalAiConfig)
    ensures
        c.endpoint@ == first_present(
            seq![opt_view(ollama_endpoint), opt_view(local_ai_endpoint)],
            "http://localhost:11434"@,
        ),
        c.model@ == first_present(
            seq![opt_view(ollama_model), opt_view(local_ai_model), opt_view(ai_model)],
            Seq::empty(),
        ),
{
    let ghost ends = seq![opt_view(ollama_endpoint), opt_view(local_ai_endpoint)];
    assert(ends.drop_first() =~= seq![opt_view(local_ai_endpoint)]);
    assert(ends.drop_first().drop_first() =~= Seq::<Option<Seq<char>>>::empty());
    let endpoint = match ollama_endpoint {
        Some(e) => e.to_owned(),
        None => match local_ai_endpoint {
            Some(e) => e.to_owned(),
            None => "http://localhost:11434".to_owned(),
        },
    };
    let ghost models = seq![opt_view(ollama_model), opt_view(local_ai_model), opt_view(ai_model)];
    assert(models.drop_first() =~= seq![opt_view(local_ai_model), opt_view(ai_model)]);
    assert(models.drop_first().drop_first() =~= seq![opt_view(ai_model)]);
    assert(models.drop_first().drop_first().drop_first() =~= Seq::<Option<Seq<char>>>::empty());
    let model = match ollama_model {
        Some(m) => m.to_owned(),
        None => match local_ai_model {
            Some(m) => m.to_owned(),
            None => match ai_model {
                Some(m) => m.to_owned(),
                None => String::new(),
            },
        },
    };
    proof {
        reveal_with_fuel(first_present, 4);
    }
    LocalAiConfig { endpoint, model }
}

/// Which indicators the status strip shows.
#[derive(Debug, Clone, Copy, PartialEq, Eq, Structural)]
pub struct StatusItems {
    pub clock: bool,
    pub date: bool,
    pub network: bool,
    pub battery: bool,
    pub audio: bool,
    pub media: bool,
    pub layout: bool,
}

/// Whether `name` is one of `items`.
pub fn lists_item(items: &[String], name: &str) -> (r: bool)
    ensures
        r == string_views(items@).contains(name@),
{
    let target = chars_of(name);
    let mut i: usize = 0;
    while i < items.len()
        invariant
            i <= items.len(),
            target@ == name@,
            forall|k: int| 0 <= k < i ==> string_views(items@)[k] != name@,
        decreases items.len() - i,
    {
        let item = chars_of(items[i].as_str());
        if seq_eq(&item, &target) {
            assert(string_views(items@)[i as int] == name@);
            return true;
        }
        i = i + 1;
    }
    false
}

/// The indicators named in `items` (`clock`, `date`, `network`, `battery`,
/// `audio`, `media`, `layout`).
pub fn status_items(items: &[String]) -> (r: StatusItems)
    ensures
        r.clock == string_views(items@).contains("clock"@),
        r.date == string_views(items@).contains("date"@),
        r.network == string_views(items@).contains("network"@),
        r.battery == string_views(items@).contains("battery"@),
        r.audio == string_views(items@).contains("audio"@),
        r.media == string_views(items@).contains("media"@),
        r.layout == string_views(items@).contains("layout"@),
{
    StatusItems {
        clock: lists_item(items, "clock"),
        date: lists_item(items, "date"),
        network: lists_item(items, "network"),
        battery: lists_item(items, "battery"),
        audio: lists_item(items, "audio"),
        media: lists_item(items, "media"),
        layout: lists_item(items, "layout"),
    }
}

/// The indicators the status strip shows when no list is stored.
pub open spec fn default_status_items() -> Seq<Seq<char>> {
    seq!["clock"@, "date"@, "network"@, "battery"@, "audio"@, "media"@]
}

/// The status strip settings: whether it is shown (`show_status_strip`,
/// default on) and the indicators it lists (`status_items`).
pub fn status_strip_settings(show_value: Option<&str>, items_value: Option<&str>) -> (r: (
    bool,
    Vec<String>,
))
    ensures
        r.0 == enabled_setting(opt_view(show_value), true),
        string_views(r.1@) == list_setting(opt_view(items_value), default_status_items()),
{
    let defaults = ["clock", "date", "network", "battery", "audio", "media"];
    assert(str_views(defaults@) =~= default_status_items());
    let show = preference_enabled(show_value, true);
    let items = preference_list(items_value, &defaults);
    (show, items)
}

/// The model the AI chat uses among the installed `models`, and whether it
/// must be stored as the new preference.
pub struct ActiveModel {
    pub name: String,
    pub store: bool,
}

/// The model the AI chat uses: the configured `current` one when it is
/// installed, else the first installed model, which is then stored; none
/// when no model is installed.
pub fn active_ai_model(models: &[String], current: &str) -> (r: Option<ActiveModel>)
    ensures
        r is None <==> models.len() == 0,
        r matches Some(m) ==> if string_views(models@).contains(current@) {
            m.name@ == current@ && !m.store
        } else {
            m.name@ == models@[0]@ && m.store
        },
{
    if models.len() == 0 {
        return None;
    }
    let cur = chars_of(current);
    let mut i: usize = 0;
    while i < models.len()
        invariant
            i <= models.len(),
            cur@ == current@,
            forall|j: int| 0 <= j < i ==> string_views(models@)[j] != current@,
        decreases models.len() - i,
    {
        if seq_eq(&chars_of(models[i].as_str()), &cur) {
            assert(string_views(models@)[i as int] == current@);
            return Some(ActiveModel { name: current.to_owned(), store: false });
        }
        i = i + 1;
    }
    assert(!string_views(models@).contains(current@));
    Some(ActiveModel { name: string_of(&chars_of(models[0].as_str())), store: true })
}

/// An item of a list preference: not empty, trimmed, without commas and
/// without ASCII capitals.
pub open spec fn clean_item(e: Seq<char>) -> bool {
    &&& e.len() > 0
    &&& trim(e) == e
    &&& forall|i: int| 0 <= i < e.len() ==> #[trigger] e[i] != ',' && !('A' <= e[i] <= 'Z')
}

/// Trimming brings in no comma.
proof fn lemma_trim_no_comma(x: Seq<char>)
    requires
        forall|i: int| 0 <= i < x.len() ==> #[trigger] x[i] != ',',
    ensures
        forall|i: int| 0 <= i < trim(x).len() ==> #[trigger] trim(x)[i] != ',',
{
    lemma_trim_start_no_comma(x);
    lemma_trim_end_no_comma(trim_start(x));
}

proof fn lemma_trim_start_no_comma(x: Seq<char>)
    requires
        forall|i: int| 0 <= i < x.len() ==> #[trigger] x[i] != ',',
    ensures
        forall|i: int| 0 <= i < trim_start(x).len() ==> #[trigger] trim_start(x)[i] != ',',
    decreases x.len(),
{
    if x.len() > 0 && is_ws(x[0]) {
        let d = x.drop_first();
        assert(forall|i: int| 0 <= i < d.len() ==> d[i] == x[i + 1]);
        lemma_trim_start_no_comma(d);
        assert(trim_start(x) == trim_start(d));
    } else {
        assert(trim_start(x) == x);
    }
}

proof fn lemma_trim_end_no_comma(x: Seq<char>)
    requires
        forall|i: int| 0 <= i < x.len() ==> #[trigger] x[i] != ',',
    ensures
        forall|i: int| 0 <= i < trim_end(x).len() ==> #[trigger] trim_end(x)[i] != ',',
    decreases x.len(),
{
    if x.len() > 0 && is_ws(x.last()) {
        let d = x.drop_last();
        assert(forall|i: int| 0 <= i < d.len() ==> d[i] == x[i]);
        lemma_trim_end_no_comma(d);
        assert(trim_end(x) == trim_end(d));
    } else {
        assert(trim_end(x) == x);
    }
}

/// The item of a piece without commas is clean.
proof fn lemma_list_item_clean(piece: Seq<char>)
    requires
        forall|i: int| 0 <= i < piece.len() ==> #[trigger] piece[i] != ',',
    ensures
        forall|k: int| 0 <= k < list_item(piece).len() ==> clean_item(#[trigger] list_item(piece)[k]),
{
    let t = trim(piece);
    let e = ascii_lower(t);
    if e.len() > 0 {
        crate::style::lemma_trim_font(piece);
        lemma_trim_no_comma(piece);
        assert(!is_ws(e[0]) && !is_ws(e.last()));
        crate::style::lemma_trim_fixed(e);
        assert forall|i: int| 0 <= i < e.len() implies #[trigger] e[i] != ',' && !('A' <= e[i]
            <= 'Z') by {
            assert(t[i] != ',');
        }
        assert(list_item(piece)[0] == e);
    }
}

/// Every item of the comma-separated text `s`, after the piece `cur`, is clean.
proof fn lemma_list_from_clean(s: Seq<char>, cur: Seq<char>)
    requires
        forall|i: int| 0 <= i < cur.len() ==> #[trigger] cur[i] != ',',
    ensures
        forall|k: int| 0 <= k < list_from(s, cur).len() ==> clean_item(#[trigger] list_from(s, cur)[k]),
    decreases s.len(),
{
    if s.len() == 0 {
        lemma_list_item_clean(cur);
    } else if s[0] == ',' {
        lemma_list_item_clean(cur);
        lemma_list_from_clean(s.drop_first(), Seq::empty());
        let a = list_item(cur);
        let b = list_from(s.drop_first(), Seq::empty());
        assert forall|k: int| 0 <= k < list_from(s, cur).len() implies clean_item(
            #[trigger] list_from(s, cur)[k],
        ) by {
            if k < a.len() {
                assert(list_from(s, cur)[k] == a[k]);
            } else {
                assert(list_from(s, cur)[k] == b[k - a.len()]);
            }
        }
    } else {
        let c2 = cur.push(s[0]);
        assert(forall|i: int| 0 <= i < cur.len() ==> c2[i] == cur[i]);
        assert(c2[cur.len() as int] == s[0]);
        assert(forall|i: int| 0 <= i < c2.len() ==> #[trigger] c2[i] != ',');
        lemma_list_from_clean(s.drop_first(), c2);
        assert(list_from(s, cur) == list_from(s.drop_first(), c2));
    }
}

/// Every item of a list preference is clean: not empty, trimmed, without
/// commas and without ASCII capitals.
pub proof fn lemma_list_items_clean(v: Seq<char>)
    ensures
        forall|k: int|
            0 <= k < parse_list_text(v).len() ==> clean_item(#[trigger] parse_list_text(v)[k]),
{
    lemma_list_from_clean(v, Seq::empty());
}

/// A section of the preferences editor: its name and its fields, each a
/// preference key and the description shown for it.
pub struct PreferenceSection {
    pub name: String,
    pub keys: Vec<(String, String)>,
}

/// The descriptions of the fields `keys`.
pub open spec fn field_descriptions(keys: Seq<(String, String)>) -> Seq<Seq<char>> {
    Seq::new(keys.len(), |i: int| keys[i].1@)
}

/// Whether the section named `name` with field descriptions `descs` is
/// listed for `query`: the lower-case query occurs in its lower-case name or
/// in one of its lower-case descriptions (every section matches an empty
/// query).
pub open spec fn section_listed(name: Seq<char>, descs: Seq<Seq<char>>, query: Seq<char>) -> bool {
    let q = lowercase(query);
    q.len() == 0 || find(lowercase(name), q) is Some || exists|i: int|
        0 <= i < descs.len() && find(lowercase(#[trigger] descs[i]), q) is Some
}

/// Whether the section is listed for `query`.
fn section_matches(section: &PreferenceSection, q: &str) -> (r: bool)
    requires
        exists|query: Seq<char>| q@ == lowercase(query),
    ensures
        forall|query: Seq<char>|
            q@ == lowercase(query) ==> r == section_listed(
                section.name@,
                field_descriptions(section.keys@),
                query,
            ),
{
    if q.unicode_len() == 0 {
        return true;
    }
    if contains_str(&chars_of(to_lowercase(section.name.as_str()).as_str()), q) {
        return true;
    }
    let ghost descs = field_descriptions(section.keys@);
    let mut i: usize = 0;
    while i < section.keys.len()
        invariant
            i <= section.keys.len(),
            descs == field_descriptions(section.keys@),
            forall|j: int| 0 <= j < i ==> find(lowercase(#[trigger] descs[j]), q@) is None,
        decreases section.keys.len() - i,
    {
        if contains_str(&chars_of(to_lowercase(section.keys[i].1.as_str()).as_str()), q) {
            assert(find(lowercase(descs[i as int]), q@) is Some);
            return true;
        }
        i = i + 1;
    }
    false
}

/// The sections listed for the search `query` in the preferences editor, and
/// the first of them, which is selected.
pub fn filter_preference_sections(sections: &[PreferenceSection], query: &str) -> (r: (
    Vec<bool>,
    Option<usize>,
))
    ensures
        r.0.len() == sections.len(),
        forall|i: int|
            0 <= i < sections.len() ==> r.0@[i] == section_listed(
                #[trigger] sections@[i].name@,
                field_descriptions(sections@[i].keys@),
                query@,
            ),
        match r.1 {
            Some(k) => k < sections.len() && r.0@[k as int] && forall|j: int| 0 <= j < k ==> !r.0@[j],
            None => forall|j: int| 0 <= j < sections.len() ==> !r.0@[j],
        },
{
    let q = to_lowercase(query);
    let mut shown: Vec<bool> = Vec::new();
    let mut first: Option<usize> = None;
    let mut i: usize = 0;
    while i < sections.len()
        invariant
            i <= sections.len(),
            q@ == lowercase(query@),
            shown.len() == i,
            forall|j: int|
                0 <= j < i ==> shown@[j] == section_listed(
                    #[trigger] sections@[j].name@,
                    field_descriptions(sections@[j].keys@),
                    query@,
                ),
            match first {
                Some(k) => k < i && shown@[k as int] && forall|j: int| 0 <= j < k ==> !shown@[j],
                None => forall|j: int| 0 <= j < i ==> !shown@[j],
            },
        decreases sections.len() - i,
    {
        let hit = section_matches(&sections[i], q.as_str());
        shown.push(hit);
        if hit && first.is_none() {
            first = Some(i);
        }
        i = i + 1;
    }
    (shown, first)
}

/// What a section holds: its name and its fields' keys and descriptions.
pub open spec fn section_view(s: PreferenceSection) -> (Seq<char>, Seq<(Seq<char>, Seq<char>)>) {
    (s.name@, Seq::new(s.keys@.len(), |i: int| (s.keys@[i].0@, s.keys@[i].1@)))
}

/// What the sections hold.
pub open spec fn section_views(v: Seq<PreferenceSection>) -> Seq<
    (Seq<char>, Seq<(Seq<char>, Seq<char>)>),
> {
    Seq::new(v.len(), |i: int| section_view(v[i]))
}

/// The sections of the preferences editor, in order, with the key and the
/// description of each field.
pub open spec fn preference_table() -> Seq<(Seq<char>, Seq<(Seq<char>, Seq<char>)>)> {
    seq![
        ("General"@, seq![
            ("show_status_strip"@, "Show status strip"@),
            ("status_items"@, "Status items"@),
            ("dashboard_enabled"@, "Dashboard enabled"@),
            ("dashboard_poll_interval_ms"@, "Refresh interval (ms)"@),
        ]),
        ("Appearance"@, seq![
            ("ui_font_family"@, "Font family"@),
            ("ui_font_size"@, "Font size"@),
            ("ui_density"@, "Row density"@),
            ("ui_theme"@, "Theme"@),
        ]),
        ("Keyboard"@, Seq::empty()),
        ("Extensions"@, seq![
            ("network_enabled"@, "Network features"@),
            ("media_enabled"@, "Media features"@),
            ("notifications_enabled"@, "Notification features"@),
            ("ai_enabled"@, "AI features"@),
            ("ai_provider"@, "AI provider"@),
            ("ollama_endpoint"@, "Ollama endpoint"@),
            ("ollama_model"@, "Ollama model"@),
            ("ai_endpoint"@, "AI/OpenAI endpoint"@),
            ("ai_model"@, "AI model"@),
            ("ai_api_key"@, "AI API key"@),
            ("script_dirs"@, "Script directories"@),
            ("translate_endpoint"@, "Translate endpoint"@),
            ("translate_api_key"@, "Translate API key"@),
            ("translate_target"@, "Translate target language"@),
        ]),
        ("Privacy"@, seq![
            ("clipboard_history_enabled"@, "Clipboard history"@),
            ("clipboard_private_mode"@, "Pause clipboard capture"@),
            ("clipboard_retention"@, "Clipboard retention"@),
            ("clipboard_capture_images"@, "Clipboard images"@),
            ("notifications_history_enabled"@, "Notification history"@),
            ("export_include_secrets"@, "Export secrets"@),
        ]),
        ("About"@, Seq::empty()),
    ]
}

/// A field of a section: its preference key and its description.
fn field(key: &str, description: &str) -> (r: (String, String))
    ensures
        r.0@ == key@,
        r.1@ == description@,
{
    (key.to_owned(), description.to_owned())
}

/// A section named `name` with the fields `keys`.
fn section(name: &str, keys: Vec<(String, String)>) -> (r: PreferenceSection)
    ensures
        section_view(r) == (name@, Seq::new(keys.len() as nat, |i: int| (keys@[i].0@, keys@[i].1@))),
{
    PreferenceSection { name: name.to_owned(), keys }
}

/// The sections of the preferences editor.
pub fn preference_sections() -> (r: Vec<PreferenceSection>)
    ensures
        section_views(r@) == preference_table(),
{
    let general = section(
        "General",
        vec![
            field("show_status_strip", "Show status strip"),
            field("status_items", "Status items"),
            field("dashboard_enabled", "Dashboard enabled"),
            field("dashboard_poll_interval_ms", "Refresh interval (ms)"),
        ],
    );
    let appearance = section(
        "Appearance",
        vec![
            field("ui_font_family", "Font family"),
            field("ui_font_size", "Font size"),
            field("ui_density", "Row density"),
            field("ui_theme", "Theme"),
        ],
    );
    let keyboard = section("Keyboard", Vec::new());
    let extensions = section(
        "Extensions",
        vec![
            field("network_enabled", "Network features"),
            field("media_enabled", "Media features"),
            field("notifications_enabled", "Notification features"),
            field("ai_enabled", "AI features"),
            field("ai_provider", "AI provider"),
            field("ollama_endpoint", "Ollama endpoint"),
            field("ollama_model", "Ollama model"),
            field("ai_endpoint", "AI/OpenAI endpoint"),
            field("ai_model", "AI model"),
            field("ai_api_key", "AI API key"),
            field("script_dirs", "Script directories"),
            field("translate_endpoint", "Translate endpoint"),
            field("translate_api_key", "Translate API key"),
            field("translate_target", "Translate target language"),
        ],
    );
    let privacy = section(
        "Privacy",
        vec![
            field("clipboard_history_enabled", "Clipboard history"),
            field("clipboard_private_mode", "Pause clipboard capture"),
            field("clipboard_retention", "Clipboard retention"),
            field("clipboard_capture_images", "Clipboard images"),
            field("notifications_history_enabled", "Notification history"),
            field("export_include_secrets", "Export secrets"),
        ],
    );
    let about = section("About", Vec::new());
    let ghost t = preference_table();
    assert(section_view(general) =~= t[0]);
    assert(section_view(appearance) =~= t[1]);
    assert(section_view(keyboard) =~= t[2]);
    assert(section_view(extensions) =~= t[3]);
    assert(section_view(privacy) =~= t[4]);
    assert(section_view(about) =~= t[5]);
    let r = vec![general, appearance, keyboard, extensions, privacy, about];
    assert(section_views(r@) =~= t);
    r
}

/// The words that spell `false`: `false`, `no`, `off` and `0`.
pub open spec fn false_words() -> Seq<Seq<char>> {
    seq!["false"@, "no"@, "off"@, "0"@]
}

/// The words that spell `true`: `true`, `yes`, `on` and `1`.
pub open spec fn true_words() -> Seq<Seq<char>> {
    seq!["true"@, "yes"@, "on"@, "1"@]
}

/// A stored boolean reads as `false` exactly when, trimmed and in ASCII
/// lower case, it is one of `false`, `no`, `off`, `0`, and as `true` exactly
/// when it is one of `true`, `yes`, `on`, `1`; anything else reads as
/// nothing. A value that reads as a boolean decides the setting whatever
/// its default, and one that does not leaves the default.
pub proof fn lemma_bool_words(v: Seq<char>, default: bool)
    ensures
        (parse_bool_text(v) == Some(false)) <==> false_words().contains(ascii_lower(trim(v))),
        (parse_bool_text(v) == Some(true)) <==> true_words().contains(ascii_lower(trim(v))),
        false_words().contains(ascii_lower(trim(v))) ==> !enabled_setting(Some(v), default),
        true_words().contains(ascii_lower(trim(v))) ==> enabled_setting(Some(v), default),
        !false_words().contains(ascii_lower(trim(v))) && !true_words().contains(
            ascii_lower(trim(v)),
        ) ==> enabled_setting(Some(v), default) == default,
{
    reveal_strlit("false");
    reveal_strlit("no");
    reveal_strlit("off");
    reveal_strlit("0");
    reveal_strlit("true");
    reveal_strlit("yes");
    reveal_strlit("on");
    reveal_strlit("1");
    let w = ascii_lower(trim(v));
    let f = false_words();
    let t = true_words();
    assert(f[0] == "false"@ && f[1] == "no"@ && f[2] == "off"@ && f[3] == "0"@);
    assert(t[0] == "true"@ && t[1] == "yes"@ && t[2] == "on"@ && t[3] == "1"@);
    if f.contains(w) {
        let i = choose|i: int| 0 <= i < f.len() && f[i] == w;
        assert(i == 0 || i == 1 || i == 2 || i == 3);
        assert(!t.contains(w)) by {
            if t.contains(w) {
                let j = choose|j: int| 0 <= j < t.len() && t[j] == w;
                assert(j == 0 || j == 1 || j == 2 || j == 3);
                assert(f[i][0] != t[j][0] || f[i].len() != t[j].len());
            }
        }
    } else {
        if w == "false"@ {
            assert(f[0] == w);
        }
        if w == "no"@ {
            assert(f[1] == w);
        }
        if w == "off"@ {
            assert(f[2] == w);
        }
        if w == "0"@ {
            assert(f[3] == w);
        }
    }
    if t.contains(w) {
        let j = choose|j: int| 0 <= j < t.len() && t[j] == w;
        assert(j == 0 || j == 1 || j == 2 || j == 3);
    } else {
        if w == "true"@ {
            assert(t[0] == w);
        }
        if w == "yes"@ {
            assert(t[1] == w);
        }
        if w == "on"@ {
            assert(t[2] == w);
        }
        if w == "1"@ {
            assert(t[3] == w);
        }
    }
}

/// The shortcuts listed in the Keyboard section of the preferences editor:
/// each key and what it does.
pub open spec fn shortcut_table() -> Seq<(Seq<char>, Seq<char>)> {
    seq![
        ("Super+Space"@, "Open launcher"@),
        ("Escape"@, "Close / go back / clear"@),
        ("\u{2191} / \u{2193}"@, "Navigate results"@),
        ("Enter"@, "Launch selected"@),
        ("Tab"@, "Jump to AI Chat"@),
        ("Ctrl+K"@, "Open Action Panel"@),
        ("Ctrl+D"@, "Dashboard"@),
        ("Ctrl+T"@, "System Monitor"@),
        ("Ctrl+I"@, "AI Chat"@),
        ("Ctrl+M"@, "Media"@),
        ("Ctrl+O"@, "Audio"@),
        ("Ctrl+N"@, "Network"@),
        ("Ctrl+H"@, "Clipboard"@),
        ("Ctrl+B"@, "Extensions"@),
        ("Ctrl+,"@, "Preferences"@),
        ("="@, "Calculator mode"@),
    ]
}

/// The views of a list of key and description pairs.
pub open spec fn pair_views(v: Seq<(String, String)>) -> Seq<(Seq<char>, Seq<char>)> {
    Seq::new(v.len(), |i: int| (v[i].0@, v[i].1@))
}

/// The shortcuts listed in the Keyboard section of the preferences editor.
pub fn keyboard_shortcuts() -> (r: Vec<(String, String)>)
    ensures
        pair_views(r@) == shortcut_table(),
{
    let r = vec![
        field("Super+Space", "Open launcher"),
        field("Escape", "Close / go back / clear"),
        field("\u{2191} / \u{2193}", "Navigate results"),
        field("Enter", "Launch selected"),
        field("Tab", "Jump to AI Chat"),
        field("Ctrl+K", "Open Action Panel"),
        field("Ctrl+D", "Dashboard"),
        field("Ctrl+T", "System Monitor"),
        field("Ctrl+I", "AI Chat"),
        field("Ctrl+M", "Media"),
        field("Ctrl+O", "Audio"),
        field("Ctrl+N", "Network"),
        field("Ctrl+H", "Clipboard"),
        field("Ctrl+B", "Extensions"),
        field("Ctrl+,", "Preferences"),
        field("=", "Calculator mode"),
    ];
    assert(pair_views(r@) =~= shortcut_table());
    r
}

} // verus!
