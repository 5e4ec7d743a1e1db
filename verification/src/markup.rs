//! What makes Pango markup acceptable to a label, and the proof that the
//! Markdown conversion always produces it.
//!
//! A markup text is read as a sequence of tokens: the tags `<b>`, `<i>`,
//! `<tt>`, `<big>` and their closing forms, the entities `&amp;`, `&lt;`,
//! `&gt;`, and single characters other than `<`, `>` and `&`. The open tags
//! form a stack: a closing tag must close the innermost open tag, and none
//! may be left open at the end. This is the well-formedness that
//! `Label::set_markup` asks of its text.
use vstd::prelude::*;

use crate::markdown::{
    amp_entity, bold_close, bold_open, double_star, emphasis_text, escape_char, escape_text,
    even_floor, gt_entity, italic_close, italic_open, lemma_find_bounds, lt_entity, single_star,
    star_guard, wrap_pairs_text, wrap_scan, backtick, tt_open, tt_close, monospace, inline_text,
    line_markup, heading_markup, heading_body_text, bullet_body_text, code_block, newline,
    is_fence, segments, lines_text, pango_markup, italic_from, italic_text, outside_stars,
};
use crate::text::{count_matches, find, join, replace_all, starts_with, trim_start};

verus! {

/// The tag at the start of `s`: its length, kind and whether it opens.
pub open spec fn tag_at(s: Seq<char>) -> Option<(int, int, bool)> {
    if s.len() >= 3 && s[0] == '<' && s[1] == 'b' && s[2] == '>' {
        Some((3, 0, true))
    } else if s.len() >= 4 && s[0] == '<' && s[1] == '/' && s[2] == 'b' && s[3] == '>' {
        Some((4, 0, false))
    } else if s.len() >= 3 && s[0] == '<' && s[1] == 'i' && s[2] == '>' {
        Some((3, 1, true))
    } else if s.len() >= 4 && s[0] == '<' && s[1] == '/' && s[2] == 'i' && s[3] == '>' {
        Some((4, 1, false))
    } else if s.len() >= 4 && s[0] == '<' && s[1] == 't' && s[2] == 't' && s[3] == '>' {
        Some((4, 2, true))
    } else if s.len() >= 5 && s[0] == '<' && s[1] == '/' && s[2] == 't' && s[3] == 't' && s[4]
        == '>' {
        Some((5, 2, false))
    } else if s.len() >= 5 && s[0] == '<' && s[1] == 'b' && s[2] == 'i' && s[3] == 'g' && s[4]
        == '>' {
        Some((5, 3, true))
    } else if s.len() >= 6 && s[0] == '<' && s[1] == '/' && s[2] == 'b' && s[3] == 'i' && s[4]
        == 'g' && s[5] == '>' {
        Some((6, 3, false))
    } else {
        None
    }
}

/// The length of the entity at the start of `s`.
pub open spec fn entity_at(s: Seq<char>) -> Option<int> {
    if s.len() >= 5 && s[0] == '&' && s[1] == 'a' && s[2] == 'm' && s[3] == 'p' && s[4] == ';' {
        Some(5)
    } else if s.len() >= 4 && s[0] == '&' && s[1] == 'l' && s[2] == 't' && s[3] == ';' {
        Some(4)
    } else if s.len() >= 4 && s[0] == '&' && s[1] == 'g' && s[2] == 't' && s[3] == ';' {
        Some(4)
    } else {
        None
    }
}

/// A character that stands for itself in markup.
pub open spec fn is_plain(c: char) -> bool {
    c != '<' && c != '>' && c != '&'
}

/// A character that occurs in no tag and no entity.
pub open spec fn is_marker(c: char) -> bool {
    c == '*' || c == '\u{E000}'
}

/// Reads `s` with the tags `stack` open (innermost last); `None` when `s`
/// holds a stray `<`, `>` or `&`, or a closing tag that does not close the
/// innermost open tag.
pub open spec fn scan(s: Seq<char>, stack: Seq<int>) -> Option<Seq<int>>
    decreases s.len(),
{
    if s.len() == 0 {
        Some(stack)
    } else {
        match tag_at(s) {
            Some((n, kind, open)) => if open {
                scan(s.skip(n), stack.push(kind))
            } else if stack.len() > 0 && stack.last() == kind {
                scan(s.skip(n), stack.drop_last())
            } else {
                None
            },
            None => match entity_at(s) {
                Some(n) => scan(s.skip(n), stack),
                None => if is_plain(s[0]) {
                    scan(s.drop_first(), stack)
                } else {
                    None
                },
            },
        }
    }
}

/// Markup that a label accepts: every `<`, `>` and `&` belongs to a known tag
/// or entity, and the tags are properly nested and all closed.
pub open spec fn balanced_markup(s: Seq<char>) -> bool {
    scan(s, Seq::empty()) == Some(Seq::<int>::empty())
}

/// Text that reads from any open tags back to the same open tags.
pub open spec fn neutral(s: Seq<char>) -> bool {
    forall|st: Seq<int>| #[trigger] scan(s, st) == Some(st)
}

/// The tags open after a tag of `kind` opens (`open`) or closes, when it
/// closes the innermost one.
pub open spec fn after_tag(st: Seq<int>, kind: int, open: bool) -> Seq<int> {
    if open {
        st.push(kind)
    } else {
        st.drop_last()
    }
}

/// The characters of a tag or an entity are no markers, and only the first is
/// a `<`.
pub proof fn lemma_token_chars(s: Seq<char>)
    ensures
        tag_at(s) matches Some((n, k, o)) ==> {
            &&& 3 <= n <= s.len()
            &&& 0 <= k < 4
            &&& s[0] == '<'
            &&& forall|j: int| 0 <= j < n ==> !is_marker(#[trigger] s[j])
            &&& forall|j: int| 1 <= j < n ==> #[trigger] s[j] != '<'
        },
        entity_at(s) matches Some(n) ==> {
            &&& 4 <= n <= s.len()
            &&& s[0] == '&'
            &&& forall|j: int| 0 <= j < n ==> !is_marker(#[trigger] s[j]) && s[j] != '<'
        },
{
}

/// Reading `x` and then `y` is reading `x + y`, when `x` reads without error.
pub proof fn lemma_scan_append(x: Seq<char>, y: Seq<char>, st: Seq<int>)
    requires
        scan(x, st) is Some,
    ensures
        scan(x + y, st) == scan(y, scan(x, st)->0),
    decreases x.len(),
{
    let xy = x + y;
    if x.len() == 0 {
        assert(xy =~= y);
    } else {
        assert(xy[0] == x[0]);
        match tag_at(x) {
            Some((n, kind, open)) => {
                assert(tag_at(xy) == tag_at(x)) by {
                    assert(forall|i: int| 0 <= i < x.len() ==> xy[i] == x[i]);
                }
                assert(xy.skip(n) =~= x.skip(n) + y);
                lemma_scan_append(x.skip(n), y, after_tag(st, kind, open));
            },
            None => {
                match entity_at(x) {
                    Some(n) => {
                        assert(tag_at(xy) is None);
                        assert(entity_at(xy) == entity_at(x)) by {
                            assert(forall|i: int| 0 <= i < x.len() ==> xy[i] == x[i]);
                        }
                        assert(xy.skip(n) =~= x.skip(n) + y);
                        lemma_scan_append(x.skip(n), y, st);
                    },
                    None => {
                        assert(is_plain(x[0]));
                        assert(tag_at(xy) is None);
                        assert(entity_at(xy) is None);
                        assert(xy.drop_first() =~= x.drop_first() + y);
                        lemma_scan_append(x.drop_first(), y, st);
                    },
                }
            },
        }
    }
}

/// Text of plain characters reads without changing the open tags.
pub proof fn lemma_scan_plain(x: Seq<char>, st: Seq<int>)
    requires
        forall|i: int| 0 <= i < x.len() ==> is_plain(#[trigger] x[i]),
    ensures
        scan(x, st) == Some(st),
    decreases x.len(),
{
    if x.len() > 0 {
        assert(is_plain(x[0]));
        lemma_scan_plain(x.drop_first(), st);
    }
}

/// Markers read as plain characters.
pub proof fn lemma_scan_markers(m: Seq<char>, st: Seq<int>)
    requires
        forall|i: int| 0 <= i < m.len() ==> is_marker(#[trigger] m[i]),
    ensures
        scan(m, st) == Some(st),
{
    assert forall|i: int| 0 <= i < m.len() implies is_plain(#[trigger] m[i]) by {
        assert(is_marker(m[i]));
    }
    lemma_scan_plain(m, st);
}

/// Escaped text reads without changing the open tags.
pub proof fn lemma_scan_escaped(t: Seq<char>, st: Seq<int>)
    ensures
        scan(escape_text(t), st) == Some(st),
    decreases t.len(),
{
    if t.len() > 0 {
        let c = t[0];
        let head = escape_char(c);
        assert(scan(head, st) == Some(st)) by {
            if c == '&' {
                assert(head =~= amp_entity());
                assert(tag_at(head) is None);
                assert(entity_at(head) == Some(5int));
                assert(head.skip(5) =~= Seq::<char>::empty());
                assert(scan(head.skip(5), st) == Some(st));
            } else if c == '<' {
                assert(head =~= lt_entity());
                assert(tag_at(head) is None);
                assert(entity_at(head) == Some(4int));
                assert(head.skip(4) =~= Seq::<char>::empty());
                assert(scan(head.skip(4), st) == Some(st));
            } else if c == '>' {
                assert(head =~= gt_entity());
                assert(tag_at(head) is None);
                assert(entity_at(head) == Some(4int));
                assert(head.skip(4) =~= Seq::<char>::empty());
                assert(scan(head.skip(4), st) == Some(st));
            } else {
                assert(head =~= seq![c]);
                lemma_scan_plain(head, st);
            }
        }
        lemma_scan_append(head, escape_text(t.drop_first()), st);
        lemma_scan_escaped(t.drop_first(), st);
    }
}

/// Escaped text holds no `<`.
pub proof fn lemma_escaped_no_lt(t: Seq<char>)
    ensures
        forall|i: int| 0 <= i < escape_text(t).len() ==> #[trigger] escape_text(t)[i] != '<',
    decreases t.len(),
{
    if t.len() > 0 {
        lemma_escaped_no_lt(t.drop_first());
        let head = escape_char(t[0]);
        let rest = escape_text(t.drop_first());
        assert forall|i: int| 0 <= i < escape_text(t).len() implies #[trigger] escape_text(t)[i]
            != '<' by {
            if i < head.len() {
                assert(escape_text(t)[i] == head[i]);
            } else {
                assert(escape_text(t)[i] == rest[i - head.len()]);
            }
        }
    }
}

/// A marker stands between tokens: the text before it reads without error.
pub proof fn lemma_scan_prefix(s: Seq<char>, j: int, st: Seq<int>)
    requires
        scan(s, st) is Some,
        0 <= j < s.len(),
        is_marker(s[j]),
    ensures
        scan(s.take(j), st) is Some,
    decreases s.len(),
{
    let t = s.take(j);
    if j > 0 {
        lemma_token_chars(s);
        assert(forall|i: int| 0 <= i < t.len() ==> t[i] == s[i]);
        match tag_at(s) {
            Some((n, kind, open)) => {
                if j < n {
                    assert(!is_marker(s[j]));
                }
                assert(tag_at(t) == tag_at(s));
                assert(t.skip(n) =~= s.skip(n).take(j - n));
                lemma_scan_prefix(s.skip(n), j - n, after_tag(st, kind, open));
            },
            None => {
                assert(tag_at(t) is None);
                match entity_at(s) {
                    Some(n) => {
                        if j < n {
                            assert(!is_marker(s[j]));
                        }
                        assert(entity_at(t) == entity_at(s));
                        assert(t.skip(n) =~= s.skip(n).take(j - n));
                        lemma_scan_prefix(s.skip(n), j - n, st);
                    },
                    None => {
                        assert(entity_at(t) is None);
                        assert(t.drop_first() =~= s.drop_first().take(j - 1));
                        lemma_scan_prefix(s.drop_first(), j - 1, st);
                    },
                }
            },
        }
    }
}

/// A whole tag reads as one step.
pub proof fn lemma_scan_tag(t: Seq<char>, st: Seq<int>, kind: int, open: bool)
    requires
        tag_at(t) == Some((t.len() as int, kind, open)),
        !open ==> st.len() > 0 && st.last() == kind,
    ensures
        scan(t, st) == Some(after_tag(st, kind, open)),
{
    lemma_token_chars(t);
    assert(t.skip(t.len() as int) =~= Seq::<char>::empty());
    assert(scan(t.skip(t.len() as int), after_tag(st, kind, open)) == Some(after_tag(st, kind, open)));
}

/// Text without `<` that reads: no tags at all.
pub open spec fn tag_free(s: Seq<char>) -> bool {
    &&& forall|i: int| 0 <= i < s.len() ==> #[trigger] s[i] != '<'
    &&& scan(s, Seq::empty()) is Some
}

/// Text without tags leaves the open tags as they are.
pub proof fn lemma_tag_free_neutral(s: Seq<char>, st: Seq<int>)
    requires
        tag_free(s),
    ensures
        scan(s, st) == Some(st),
    decreases s.len(),
{
    if s.len() > 0 {
        lemma_token_chars(s);
        assert(s[0] != '<');
        assert(tag_at(s) is None);
        let rest = match entity_at(s) {
            Some(n) => s.skip(n),
            None => s.drop_first(),
        };
        assert(forall|i: int| 0 <= i < rest.len() ==> rest[i] == s[i + (s.len() - rest.len())]);
        assert(tag_free(rest));
        lemma_tag_free_neutral(rest, st);
    }
}

/// The part of tag-free text before a marker, and the part after a run of
/// markers, are tag-free.
pub proof fn lemma_tag_free_split(s: Seq<char>, j: int, m: Seq<char>)
    requires
        tag_free(s),
        0 <= j,
        j + m.len() <= s.len(),
        m.len() > 0,
        s.subrange(j, j + m.len()) == m,
        forall|i: int| 0 <= i < m.len() ==> is_marker(#[trigger] m[i]),
    ensures
        tag_free(s.take(j)),
        tag_free(s.skip(j + m.len())),
        s == s.take(j) + (m + s.skip(j + m.len())),
{
    assert(s =~= s.take(j) + (m + s.skip(j + m.len())));
    assert(m[0] == s[j]);
    lemma_scan_prefix(s, j, Seq::empty());
    let a = s.take(j);
    let b = s.skip(j + m.len());
    assert(forall|i: int| 0 <= i < a.len() ==> a[i] == s[i]);
    assert(forall|i: int| 0 <= i < b.len() ==> b[i] == s[i + j + m.len()]);
    lemma_scan_append(a, m + b, Seq::empty());
    lemma_tag_free_neutral(a, Seq::empty());
    lemma_scan_markers(m, Seq::empty());
    lemma_scan_append(m, b, Seq::empty());
}

/// Tag insertion up to the first occurrence of the marker copies the text
/// before it, puts one tag in its place and goes on after it.
pub proof fn lemma_wrap_split(
    s: Seq<char>,
    m: Seq<char>,
    open: Seq<char>,
    close: Seq<char>,
    k: nat,
    opening: bool,
)
    requires
        m.len() > 0,
    ensures
        find(s, m) is None ==> wrap_scan(s, m, open, close, k, opening) == s,
        k > 0 ==> (find(s, m) matches Some(j) ==> wrap_scan(s, m, open, close, k, opening)
            == s.take(j) + (if opening {
            open
        } else {
            close
        }) + wrap_scan(s.skip(j + m.len()), m, open, close, (k - 1) as nat, !opening)),
    decreases s.len(),
{
    lemma_find_bounds(s, m);
    if !starts_with(s, m) && s.len() > 0 {
        lemma_wrap_split(s.drop_first(), m, open, close, k, opening);
        lemma_find_bounds(s.drop_first(), m);
        if let Some(j) = find(s, m) {
            assert(s.take(j) =~= seq![s[0]] + s.drop_first().take(j - 1));
            assert(s.drop_first().skip(j - 1 + m.len()) =~= s.skip(j + m.len()));
        }
    } else {
        assert(s.take(0) =~= Seq::<char>::empty());
    }
}

/// Replacement up to the first occurrence of the pattern copies the text
/// before it, puts the replacement in its place and goes on after it.
pub proof fn lemma_replace_split(s: Seq<char>, p: Seq<char>, w: Seq<char>)
    requires
        p.len() > 0,
    ensures
        find(s, p) is None ==> replace_all(s, p, w) == s,
        find(s, p) matches Some(j) ==> replace_all(s, p, w) == s.take(j) + w + replace_all(
            s.skip(j + p.len()),
            p,
            w,
        ),
    decreases s.len(),
{
    lemma_find_bounds(s, p);
    if s.len() > 0 && !starts_with(s, p) {
        lemma_replace_split(s.drop_first(), p, w);
        if let Some(j) = find(s, p) {
            lemma_find_bounds(s.drop_first(), p);
            assert(s.take(j) =~= seq![s[0]] + s.drop_first().take(j - 1));
            assert(s.drop_first().skip(j - 1 + p.len()) =~= s.skip(j + p.len()));
        } else {
            assert(s =~= seq![s[0]] + s.drop_first());
        }
    } else if s.len() > 0 {
        assert(s.take(0) =~= Seq::<char>::empty());
    }
}

/// Each occurrence counted is found: the first one, then the rest after it.
pub proof fn lemma_count_split(s: Seq<char>, m: Seq<char>)
    requires
        m.len() > 0,
    ensures
        find(s, m) is None ==> count_matches(s, m) == 0,
        find(s, m) matches Some(j) ==> count_matches(s, m) == 1 + count_matches(
            s.skip(j + m.len()),
            m,
        ),
    decreases s.len(),
{
    lemma_find_bounds(s, m);
    if s.len() > 0 && !starts_with(s, m) {
        lemma_count_split(s.drop_first(), m);
        if let Some(j) = find(s, m) {
            assert(s.drop_first().skip(j - 1 + m.len()) =~= s.skip(j + m.len()));
        }
    }
}


/// The first occurrence that `find` reports is an occurrence.
pub proof fn lemma_find_match(s: Seq<char>, p: Seq<char>)
    ensures
        find(s, p) matches Some(j) ==> s.subrange(j, j + p.len()) == p,
    decreases s.len(),
{
    lemma_find_bounds(s, p);
    if let Some(j) = find(s, p) {
        if starts_with(s, p) {
            assert(s.subrange(0, p.len() as int) =~= s.take(p.len() as int));
        } else {
            lemma_find_match(s.drop_first(), p);
            lemma_find_bounds(s.drop_first(), p);
            assert(s.subrange(j, j + p.len()) =~= s.drop_first().subrange(j - 1, j - 1 + p.len()));
        }
    }
}

/// Turning `k` occurrences of a marker into alternating tags of `kind` in
/// tag-free text opens one tag of `kind` when `k` is odd and it starts by
/// opening, closes the innermost when `k` is odd and it starts by closing,
/// and else leaves the open tags as they are.
pub proof fn lemma_wrap_tag_free(
    s: Seq<char>,
    m: Seq<char>,
    open: Seq<char>,
    close: Seq<char>,
    k: nat,
    opening: bool,
    kind: int,
    st: Seq<int>,
)
    requires
        tag_free(s),
        m.len() > 0,
        forall|i: int| 0 <= i < m.len() ==> is_marker(#[trigger] m[i]),
        tag_at(open) == Some((open.len() as int, kind, true)),
        tag_at(close) == Some((close.len() as int, kind, false)),
        k <= count_matches(s, m),
        !opening && k > 0 ==> st.len() > 0 && st.last() == kind,
    ensures
        scan(wrap_scan(s, m, open, close, k, opening), st) == Some(
            if k % 2 == 0 {
                st
            } else if opening {
                st.push(kind)
            } else {
                st.drop_last()
            },
        ),
    decreases s.len(),
{
    lemma_wrap_split(s, m, open, close, k, opening);
    lemma_count_split(s, m);
    lemma_find_bounds(s, m);
    lemma_find_match(s, m);
    if k == 0 {
        lemma_tag_free_neutral(s, st);
    } else {
        let j = find(s, m)->0;
        let a = s.take(j);
        let b = s.skip(j + m.len());
        let tag = if opening {
            open
        } else {
            close
        };
        lemma_tag_free_split(s, j, m);
        let w = wrap_scan(b, m, open, close, (k - 1) as nat, !opening);
        assert(wrap_scan(s, m, open, close, k, opening) == a + (tag + w));
        lemma_tag_free_neutral(a, st);
        lemma_scan_append(a, tag + w, st);
        let st2 = after_tag(st, kind, opening);
        lemma_scan_tag(tag, st, kind, opening);
        lemma_scan_append(tag, w, st);
        lemma_wrap_tag_free(b, m, open, close, (k - 1) as nat, !opening, kind, st2);
        if opening {
            assert(st.push(kind).drop_last() =~= st);
        } else {
            assert(st.drop_last().push(kind) =~= st);
        }
    }
}


/// Replacing markers by markers reads the same.
pub proof fn lemma_replace_scan(s: Seq<char>, p: Seq<char>, w: Seq<char>, st: Seq<int>)
    requires
        p.len() > 0,
        forall|i: int| 0 <= i < p.len() ==> is_marker(#[trigger] p[i]),
        forall|i: int| 0 <= i < w.len() ==> is_marker(#[trigger] w[i]),
        scan(s, st) is Some,
    ensures
        scan(replace_all(s, p, w), st) == scan(s, st),
    decreases s.len(),
{
    lemma_replace_split(s, p, w);
    lemma_find_bounds(s, p);
    lemma_find_match(s, p);
    if let Some(j) = find(s, p) {
        let x = s.take(j);
        let y = s.skip(j + p.len());
        assert(s[j] == p[0]);
        lemma_scan_prefix(s, j, st);
        let r1 = scan(x, st)->0;
        assert(s =~= x + (p + y));
        lemma_scan_append(x, p + y, st);
        lemma_scan_markers(p, r1);
        lemma_scan_append(p, y, r1);
        let rest = replace_all(y, p, w);
        assert(replace_all(s, p, w) == x + (w + rest));
        lemma_scan_append(x, w + rest, st);
        lemma_scan_markers(w, r1);
        lemma_scan_append(w, rest, r1);
        lemma_replace_scan(y, p, w, r1);
    }
}

/// Replacing in `x + y` is replacing in each, when no occurrence can run
/// across the seam.
pub proof fn lemma_replace_concat(x: Seq<char>, y: Seq<char>, p: Seq<char>, w: Seq<char>)
    requires
        p.len() > 0,
        forall|i: int| 0 <= i < p.len() ==> is_marker(#[trigger] p[i]),
        x.len() == 0 || !is_marker(x.last()) || y.len() == 0 || !is_marker(y[0]),
    ensures
        replace_all(x + y, p, w) == replace_all(x, p, w) + replace_all(y, p, w),
    decreases x.len(),
{
    let xy = x + y;
    if x.len() == 0 {
        assert(xy =~= y);
        assert(replace_all(x, p, w) =~= Seq::<char>::empty());
        assert(replace_all(x, p, w) + replace_all(y, p, w) =~= replace_all(y, p, w));
    } else if starts_with(x, p) {
        assert(xy.take(p.len() as int) =~= x.take(p.len() as int));
        assert(xy.skip(p.len() as int) =~= x.skip(p.len() as int) + y);
        lemma_replace_concat(x.skip(p.len() as int), y, p, w);
    } else {
        if starts_with(xy, p) {
            if x.len() >= p.len() {
                assert(xy.take(p.len() as int) =~= x.take(p.len() as int));
            } else {
                assert(xy.take(p.len() as int)[x.len() - 1] == p[x.len() - 1]);
                assert(xy.take(p.len() as int)[x.len() as int] == p[x.len() as int]);
                assert(x.last() == xy[x.len() - 1]);
                assert(y[0] == xy[x.len() as int]);
            }
        }
        assert(!starts_with(xy, p));
        assert(xy.drop_first() =~= x.drop_first() + y);
        lemma_replace_concat(x.drop_first(), y, p, w);
        assert(seq![xy[0]] + (replace_all(x.drop_first(), p, w) + replace_all(y, p, w)) =~= (seq![
            x[0],
        ] + replace_all(x.drop_first(), p, w)) + replace_all(y, p, w));
    }
}

/// Text without markers is left as it is by a replacement of markers.
pub proof fn lemma_replace_identity(x: Seq<char>, p: Seq<char>, w: Seq<char>)
    requires
        p.len() > 0,
        forall|i: int| 0 <= i < p.len() ==> is_marker(#[trigger] p[i]),
        forall|i: int| 0 <= i < x.len() ==> !is_marker(#[trigger] x[i]),
    ensures
        replace_all(x, p, w) == x,
    decreases x.len(),
{
    if x.len() > 0 {
        assert(!is_marker(x[0]));
        assert(is_marker(p[0]));
        assert(x.take(p.len() as int) != p || p.len() > x.len()) by {
            if p.len() <= x.len() {
                assert(x.take(p.len() as int)[0] == x[0]);
            }
        }
        lemma_replace_identity(x.drop_first(), p, w);
        assert(seq![x[0]] + x.drop_first() =~= x);
    }
}

/// A replacement with text without `<` brings in no `<`.
pub proof fn lemma_replace_no_lt(s: Seq<char>, p: Seq<char>, w: Seq<char>)
    requires
        p.len() > 0,
        forall|i: int| 0 <= i < s.len() ==> #[trigger] s[i] != '<',
        forall|i: int| 0 <= i < w.len() ==> #[trigger] w[i] != '<',
    ensures
        forall|i: int|
            0 <= i < replace_all(s, p, w).len() ==> #[trigger] replace_all(s, p, w)[i] != '<',
    decreases s.len(),
{
    if s.len() > 0 {
        let r = replace_all(s, p, w);
        if starts_with(s, p) {
            let t = s.skip(p.len() as int);
            assert(forall|i: int| 0 <= i < t.len() ==> t[i] == s[i + p.len()]);
            lemma_replace_no_lt(t, p, w);
            let rt = replace_all(t, p, w);
            assert forall|i: int| 0 <= i < r.len() implies #[trigger] r[i] != '<' by {
                if i < w.len() {
                    assert(r[i] == w[i]);
                } else {
                    assert(r[i] == rt[i - w.len()]);
                }
            }
        } else {
            let t = s.drop_first();
            assert(forall|i: int| 0 <= i < t.len() ==> t[i] == s[i + 1]);
            lemma_replace_no_lt(t, p, w);
            let rt = replace_all(t, p, w);
            assert forall|i: int| 0 <= i < r.len() implies #[trigger] r[i] != '<' by {
                if i > 0 {
                    assert(r[i] == rt[i - 1]);
                }
            }
        }
    }
}

/// Text without `<` holds no occurrence of a pattern that begins with `<`.
pub proof fn lemma_find_none_lt(x: Seq<char>, p: Seq<char>)
    requires
        p.len() > 0,
        p[0] == '<',
        forall|i: int| 0 <= i < x.len() ==> #[trigger] x[i] != '<',
    ensures
        find(x, p) is None,
    decreases x.len(),
{
    if x.len() > 0 {
        assert(x[0] != '<');
        if p.len() <= x.len() {
            assert(x.take(p.len() as int)[0] == x[0]);
        }
        assert(forall|i: int| 0 <= i < x.drop_first().len() ==> x.drop_first()[i] == x[i + 1]);
        lemma_find_none_lt(x.drop_first(), p);
    } else {
        assert(!starts_with(x, p));
    }
}

/// In `x + y`, with no `<` in `x` and `y` beginning with a pattern that begins
/// with `<`, the first occurrence is at the end of `x`.
pub proof fn lemma_find_first(x: Seq<char>, y: Seq<char>, p: Seq<char>)
    requires
        p.len() > 0,
        p[0] == '<',
        forall|i: int| 0 <= i < x.len() ==> #[trigger] x[i] != '<',
        starts_with(y, p),
    ensures
        find(x + y, p) == Some(x.len() as int),
    decreases x.len(),
{
    let xy = x + y;
    if x.len() == 0 {
        assert(xy =~= y);
    } else {
        assert(xy[0] == x[0]);
        assert(xy.take(p.len() as int)[0] == xy[0]);
        assert(!starts_with(xy, p));
        assert(xy.drop_first() =~= x.drop_first() + y);
        assert(forall|i: int| 0 <= i < x.drop_first().len() ==> x.drop_first()[i] == x[i + 1]);
        lemma_find_first(x.drop_first(), y, p);
    }
}

/// The layout of text after the bold pass: tag-free pieces, every `<b>`
/// followed by tag-free text and its `</b>`.
pub open spec fn bold_layout(s: Seq<char>) -> bool
    decreases s.len(),
{
    proof {
        lemma_find_bounds(s, bold_open());
    }
    match find(s, bold_open()) {
        None => tag_free(s),
        Some(j) => {
            let after = s.skip(j + 3);
            proof {
                lemma_find_bounds(after, bold_close());
            }
            tag_free(s.take(j)) && match find(after, bold_close()) {
                Some(e) => tag_free(after.take(e)) && bold_layout(after.skip(e + 4)),
                None => false,
            }
        },
    }
}

/// Tag-free text has the layout of bold text without any bold.
pub proof fn lemma_tag_free_layout(s: Seq<char>)
    requires
        tag_free(s),
    ensures
        bold_layout(s),
{
    lemma_find_none_lt(s, bold_open());
}

/// Pairs of `**` turned into `<b>`/`</b>` in tag-free text give the layout
/// of bold text.
pub proof fn lemma_bold_layout_of_wrap(x: Seq<char>, k: nat)
    requires
        tag_free(x),
        k % 2 == 0,
        k <= count_matches(x, double_star()),
    ensures
        bold_layout(wrap_scan(x, double_star(), bold_open(), bold_close(), k, true)),
    decreases x.len(),
{
    let m = double_star();
    assert(forall|i: int| 0 <= i < m.len() ==> is_marker(#[trigger] m[i]));
    if k == 0 {
        lemma_tag_free_layout(x);
    } else {
        lemma_wrap_split(x, m, bold_open(), bold_close(), k, true);
        lemma_count_split(x, m);
        lemma_find_bounds(x, m);
        lemma_find_match(x, m);
        let j = find(x, m)->0;
        lemma_tag_free_split(x, j, m);
        let a = x.take(j);
        let b = x.skip(j + 2);
        let w1 = wrap_scan(b, m, bold_open(), bold_close(), (k - 1) as nat, false);
        lemma_wrap_split(b, m, bold_open(), bold_close(), (k - 1) as nat, false);
        lemma_count_split(b, m);
        lemma_find_bounds(b, m);
        lemma_find_match(b, m);
        let j2 = find(b, m)->0;
        lemma_tag_free_split(b, j2, m);
        let a2 = b.take(j2);
        let b2 = b.skip(j2 + 2);
        let w2 = wrap_scan(b2, m, bold_open(), bold_close(), (k - 2) as nat, true);
        let w = wrap_scan(x, m, bold_open(), bold_close(), k, true);
        assert(w == a + (bold_open() + w1));
        assert(w1 == a2 + (bold_close() + w2));
        assert((bold_open() + w1).take(3) =~= bold_open());
        assert((bold_close() + w2).take(4) =~= bold_close());
        lemma_find_first(a, bold_open() + w1, bold_open());
        assert(w.skip(a.len() as int + 3) =~= w1);
        lemma_find_first(a2, bold_close() + w2, bold_close());
        assert(w1.take(a2.len() as int) =~= a2);
        assert(w1.skip(a2.len() as int + 4) =~= w2);
        lemma_bold_layout_of_wrap(b2, (k - 2) as nat);
        assert(w.take(a.len() as int) =~= a);
    }
}

/// A replacement of markers by markers keeps the layout of bold text.
pub proof fn lemma_layout_replace(s: Seq<char>, p: Seq<char>, w: Seq<char>)
    requires
        bold_layout(s),
        p.len() > 0,
        forall|i: int| 0 <= i < p.len() ==> is_marker(#[trigger] p[i]),
        forall|i: int| 0 <= i < w.len() ==> is_marker(#[trigger] w[i]),
    ensures
        bold_layout(replace_all(s, p, w)),
    decreases s.len(),
{
    assert forall|i: int| 0 <= i < w.len() implies #[trigger] w[i] != '<' by {
        assert(is_marker(w[i]));
    }
    lemma_find_bounds(s, bold_open());
    lemma_find_match(s, bold_open());
    match find(s, bold_open()) {
        None => {
            lemma_replace_no_lt(s, p, w);
            lemma_replace_scan(s, p, w, Seq::empty());
            lemma_tag_free_layout(replace_all(s, p, w));
        },
        Some(j) => {
            let a = s.take(j);
            let after = s.skip(j + 3);
            lemma_find_bounds(after, bold_close());
            lemma_find_match(after, bold_close());
            let e = find(after, bold_close())->0;
            let inner = after.take(e);
            let rest = after.skip(e + 4);
            let bo = bold_open();
            let bc = bold_close();
            assert(forall|i: int| 0 <= i < bo.len() ==> !is_marker(#[trigger] bo[i]));
            assert(forall|i: int| 0 <= i < bc.len() ==> !is_marker(#[trigger] bc[i]));
            assert(s.subrange(j, j + 3) == bo);
            assert(after.subrange(e, e + 4) == bc);
            assert(s =~= a + (bo + (inner + (bc + rest))));
            lemma_replace_concat(a, bo + (inner + (bc + rest)), p, w);
            lemma_replace_concat(bo, inner + (bc + rest), p, w);
            lemma_replace_identity(bo, p, w);
            lemma_replace_concat(inner, bc + rest, p, w);
            lemma_replace_concat(bc, rest, p, w);
            lemma_replace_identity(bc, p, w);
            let ra = replace_all(a, p, w);
            let ri = replace_all(inner, p, w);
            let rr = replace_all(rest, p, w);
            let r = replace_all(s, p, w);
            assert(r == ra + (bo + (ri + (bc + rr))));
            lemma_replace_no_lt(a, p, w);
            lemma_replace_scan(a, p, w, Seq::empty());
            lemma_replace_no_lt(inner, p, w);
            lemma_replace_scan(inner, p, w, Seq::empty());
            assert((bo + (ri + (bc + rr))).take(3) =~= bo);
            lemma_find_first(ra, bo + (ri + (bc + rr)), bo);
            let after2 = r.skip(ra.len() as int + 3);
            assert(after2 =~= ri + (bc + rr));
            assert((bc + rr).take(4) =~= bc);
            lemma_find_first(ri, bc + rr, bc);
            assert(after2.take(ri.len() as int) =~= ri);
            assert(after2.skip(ri.len() as int + 4) =~= rr);
            assert(r.take(ra.len() as int) =~= ra);
            lemma_layout_replace(rest, p, w);
        },
    }
}

/// The open tags after wrapping `k` markers of `kind` starting by opening
/// (`opening`) or by closing.
pub open spec fn wrapped_stack(st: Seq<int>, k: nat, opening: bool, kind: int) -> Seq<int> {
    if k % 2 == 0 {
        st
    } else if opening {
        st.push(kind)
    } else {
        st.drop_last()
    }
}

/// A bold region whose text is tag-free, with its italic pairs, leaves the
/// open tags as they were.
pub proof fn lemma_bold_region(inner: Seq<char>, tail: Seq<char>, st: Seq<int>)
    requires
        tag_free(inner),
    ensures
        scan(
            bold_open() + (wrap_pairs_text(inner, single_star(), italic_open(), italic_close()) + (
            bold_close() + tail)),
            st,
        ) == scan(tail, st),
{
    let star = single_star();
    let io = italic_open();
    let ic = italic_close();
    let wp = wrap_pairs_text(inner, star, io, ic);
    assert(forall|i: int| 0 <= i < star.len() ==> is_marker(#[trigger] star[i]));
    assert(tag_at(io) == Some((3int, 1int, true)));
    assert(tag_at(ic) == Some((4int, 1int, false)));
    assert(tag_at(bold_open()) == Some((3int, 0int, true)));
    assert(tag_at(bold_close()) == Some((4int, 0int, false)));
    lemma_scan_tag(bold_open(), st, 0, true);
    lemma_scan_append(bold_open(), wp + (bold_close() + tail), st);
    let st2 = st.push(0);
    assert(scan(wp, st2) == Some(st2)) by {
        let n = count_matches(inner, star);
        if n < 2 {
            lemma_tag_free_neutral(inner, st2);
        } else {
            lemma_wrap_tag_free(inner, star, io, ic, even_floor(n), true, 1, st2);
        }
    }
    lemma_scan_append(wp, bold_close() + tail, st2);
    lemma_scan_tag(bold_close(), st2, 0, false);
    assert(st2.drop_last() =~= st);
    lemma_scan_append(bold_close(), tail, st2);
}

/// The italic pass over text with the layout of bold text leaves the open
/// tags as wrapping its outside stars alone would.
pub proof fn lemma_italic_from(s: Seq<char>, k: nat, opening: bool, st: Seq<int>)
    requires
        bold_layout(s),
        k <= outside_stars(s),
        !opening && k > 0 ==> st.len() > 0 && st.last() == 1,
    ensures
        scan(italic_from(s, k, opening), st) == Some(wrapped_stack(st, k, opening, 1)),
    decreases s.len(),
{
    let star = single_star();
    let io = italic_open();
    let ic = italic_close();
    assert(forall|i: int| 0 <= i < star.len() ==> is_marker(#[trigger] star[i]));
    assert(tag_at(io) == Some((3int, 1int, true)));
    assert(tag_at(ic) == Some((4int, 1int, false)));
    assert(tag_at(bold_open()) == Some((3int, 0int, true)));
    assert(tag_at(bold_close()) == Some((4int, 0int, false)));
    lemma_find_bounds(s, bold_open());
    match find(s, bold_open()) {
        None => {
            lemma_wrap_tag_free(s, star, io, ic, k, opening, 1, st);
        },
        Some(j) => {
            let a = s.take(j);
            let c = count_matches(a, star);
            let used: nat = if k <= c {
                k
            } else {
                c
            };
            let after = s.skip(j + 3);
            lemma_find_bounds(after, bold_close());
            let e = find(after, bold_close())->0;
            let inner = after.take(e);
            let rest = after.skip(e + 4);
            let next = if used % 2 == 0 {
                opening
            } else {
                !opening
            };
            let w1 = wrap_scan(a, star, io, ic, used, opening);
            let wp = wrap_pairs_text(inner, star, io, ic);
            let tail = italic_from(rest, (k - used) as nat, next);
            assert(italic_from(s, k, opening) =~= w1 + (bold_open() + (wp + (bold_close()
                + tail))));
            lemma_wrap_tag_free(a, star, io, ic, used, opening, 1, st);
            let st1 = wrapped_stack(st, used, opening, 1);
            lemma_scan_append(w1, bold_open() + (wp + (bold_close() + tail)), st);
            lemma_bold_region(inner, tail, st1);
            lemma_italic_from(rest, (k - used) as nat, next, st1);
            if opening && used % 2 == 1 {
                assert(st.push(1).drop_last() =~= st);
            } else if !opening && used % 2 == 1 && k % 2 == 0 {
                assert(st.drop_last().push(1) =~= st);
            }
        },
    }
}

/// Text reads as markup that a label accepts when it reads from any open
/// tags back to the same.
pub proof fn lemma_neutral_balanced(s: Seq<char>)
    requires
        neutral(s),
    ensures
        balanced_markup(s),
{
    assert(scan(s, Seq::<int>::empty()) == Some(Seq::<int>::empty()));
}

/// Neutral pieces make a neutral whole.
pub proof fn lemma_neutral_concat(x: Seq<char>, y: Seq<char>)
    requires
        neutral(x),
        neutral(y),
    ensures
        neutral(x + y),
{
    assert forall|st: Seq<int>| #[trigger] scan(x + y, st) == Some(st) by {
        assert(scan(x, st) == Some(st));
        lemma_scan_append(x, y, st);
        assert(scan(y, st) == Some(st));
    }
}

/// Plain text is neutral.
pub proof fn lemma_neutral_plain(x: Seq<char>)
    requires
        forall|i: int| 0 <= i < x.len() ==> is_plain(#[trigger] x[i]),
    ensures
        neutral(x),
{
    assert forall|st: Seq<int>| #[trigger] scan(x, st) == Some(st) by {
        lemma_scan_plain(x, st);
    }
}

/// Escaped text is neutral.
pub proof fn lemma_neutral_escaped(t: Seq<char>)
    ensures
        neutral(escape_text(t)),
{
    assert forall|st: Seq<int>| #[trigger] scan(escape_text(t), st) == Some(st) by {
        lemma_scan_escaped(t, st);
    }
}

/// Neutral text between an opening and a closing tag of one kind is neutral.
pub proof fn lemma_neutral_wrapped(open: Seq<char>, x: Seq<char>, close: Seq<char>, kind: int)
    requires
        tag_at(open) == Some((open.len() as int, kind, true)),
        tag_at(close) == Some((close.len() as int, kind, false)),
        neutral(x),
    ensures
        neutral(open + x + close),
{
    assert forall|st: Seq<int>| #[trigger] scan(open + x + close, st) == Some(st) by {
        let up = st.push(kind);
        lemma_scan_tag(open, st, kind, true);
        lemma_scan_tag(close, up, kind, false);
        assert(scan(x, up) == Some(up));
        lemma_scan_append(open, x, st);
        lemma_scan_append(open + x, close, st);
        assert(up.drop_last() =~= st);
    }
}

/// Emphasis gives neutral markup: bold and italic tags are paired and never
/// cross.
pub proof fn lemma_neutral_emphasis(t: Seq<char>)
    ensures
        neutral(emphasis_text(t)),
{
    let escaped = escape_text(t);
    let bold = wrap_pairs_text(escaped, double_star(), bold_open(), bold_close());
    let guarded = replace_all(bold, double_star(), star_guard());
    let italic = italic_text(guarded);
    let result = replace_all(italic, star_guard(), double_star());
    assert(forall|i: int| 0 <= i < double_star().len() ==> is_marker(#[trigger] double_star()[i]));
    assert(forall|i: int| 0 <= i < star_guard().len() ==> is_marker(#[trigger] star_guard()[i]));
    lemma_escaped_no_lt(t);
    lemma_scan_escaped(t, Seq::empty());
    assert(tag_free(escaped));
    let n1 = count_matches(escaped, double_star());
    if n1 >= 2 {
        lemma_bold_layout_of_wrap(escaped, even_floor(n1));
    } else {
        lemma_tag_free_layout(escaped);
    }
    lemma_layout_replace(bold, double_star(), star_guard());
    assert forall|st: Seq<int>| #[trigger] scan(result, st) == Some(st) by {
        lemma_italic_from(guarded, even_floor(outside_stars(guarded)), true, st);
        lemma_replace_scan(italic, star_guard(), double_star(), st);
    }
}

/// Inline formatting gives neutral markup.
pub proof fn lemma_neutral_inline(t: Seq<char>)
    ensures
        neutral(inline_text(t)),
    decreases t.len(),
{
    lemma_find_bounds(t, backtick());
    assert(tag_at(tt_open()) == Some((4int, 2int, true)));
    assert(tag_at(tt_close()) == Some((5int, 2int, false)));
    match find(t, backtick()) {
        None => lemma_neutral_emphasis(t),
        Some(start) => {
            let after = t.skip(start + 1);
            lemma_find_bounds(after, backtick());
            lemma_neutral_emphasis(t.take(start));
            match find(after, backtick()) {
                Some(end) => {
                    let code = escape_text(after.take(end));
                    lemma_neutral_escaped(after.take(end));
                    lemma_neutral_wrapped(tt_open(), code, tt_close(), 2);
                    lemma_neutral_inline(after.skip(end + 1));
                    lemma_neutral_concat(monospace(code), inline_text(after.skip(end + 1)));
                    lemma_neutral_concat(
                        emphasis_text(t.take(start)),
                        monospace(code) + inline_text(after.skip(end + 1)),
                    );
                },
                None => {
                    lemma_neutral_escaped(backtick());
                    lemma_neutral_inline(after);
                    lemma_neutral_concat(escape_text(backtick()), inline_text(after));
                    lemma_neutral_concat(
                        emphasis_text(t.take(start)),
                        escape_text(backtick()) + inline_text(after),
                    );
                },
            }
        },
    }
}

/// The markup of a line outside a code fence is neutral.
pub proof fn lemma_neutral_line(line: Seq<char>)
    ensures
        neutral(line_markup(line)),
{
    let trimmed = trim_start(line);
    if trimmed.len() == 0 {
        lemma_neutral_plain(Seq::<char>::empty());
    } else {
        match heading_body_text(trimmed) {
            Some(rest) => {
                let body = inline_text(rest);
                lemma_neutral_inline(rest);
                let big_open = seq!['<', 'b', 'i', 'g', '>'];
                let big_close = seq!['<', '/', 'b', 'i', 'g', '>'];
                assert(tag_at(big_open) == Some((5int, 3int, true)));
                assert(tag_at(big_close) == Some((6int, 3int, false)));
                assert(tag_at(bold_open()) == Some((3int, 0int, true)));
                assert(tag_at(bold_close()) == Some((4int, 0int, false)));
                lemma_neutral_wrapped(bold_open(), body, bold_close(), 0);
                lemma_neutral_wrapped(big_open, bold_open() + body + bold_close(), big_close, 3);
                assert(heading_markup(body) =~= big_open + (bold_open() + body + bold_close())
                    + big_close);
            },
            None => match bullet_body_text(trimmed) {
                Some(rest) => {
                    let bullet = seq!['\u{2022}', ' ', ' '];
                    lemma_neutral_plain(bullet);
                    lemma_neutral_inline(rest);
                    lemma_neutral_concat(bullet, inline_text(rest));
                },
                None => lemma_neutral_inline(line),
            },
        }
    }
}

/// A fenced code block is neutral.
pub proof fn lemma_neutral_code_block(buf: Seq<Seq<char>>)
    ensures
        neutral(code_block(buf)),
{
    assert(tag_at(tt_open()) == Some((4int, 2int, true)));
    assert(tag_at(tt_close()) == Some((5int, 2int, false)));
    lemma_neutral_escaped(join(buf, newline()));
    lemma_neutral_wrapped(tt_open(), escape_text(join(buf, newline())), tt_close(), 2);
}

/// Neutral pieces joined by a neutral separator are neutral.
pub proof fn lemma_neutral_join(parts: Seq<Seq<char>>, sep: Seq<char>)
    requires
        forall|i: int| 0 <= i < parts.len() ==> neutral(#[trigger] parts[i]),
        neutral(sep),
    ensures
        neutral(join(parts, sep)),
    decreases parts.len(),
{
    if parts.len() == 0 {
        lemma_neutral_plain(Seq::<char>::empty());
    } else if parts.len() > 1 {
        lemma_neutral_join(parts.drop_last(), sep);
        assert(neutral(parts[parts.len() - 1]));
        lemma_neutral_concat(join(parts.drop_last(), sep), sep);
        lemma_neutral_concat(join(parts.drop_last(), sep) + sep, parts.last());
    } else {
        assert(neutral(parts[0]));
    }
}

/// Every output segment is neutral.
pub proof fn lemma_neutral_segments(lines: Seq<Seq<char>>, fence: Option<Seq<Seq<char>>>)
    ensures
        forall|i: int|
            0 <= i < segments(lines, fence).len() ==> neutral(#[trigger] segments(lines, fence)[i]),
    decreases lines.len(),
{
    if lines.len() == 0 {
        if let Some(buf) = fence {
            lemma_neutral_code_block(buf);
            assert(segments(lines, fence) =~= seq![code_block(buf)]);
        }
    } else if is_fence(lines[0]) {
        match fence {
            Some(buf) => {
                lemma_neutral_code_block(buf);
                lemma_neutral_segments(lines.drop_first(), None);
                let rest = segments(lines.drop_first(), None);
                assert forall|i: int|
                    0 <= i < segments(lines, fence).len() implies neutral(
                    #[trigger] segments(lines, fence)[i],
                ) by {
                    if i > 0 {
                        assert(segments(lines, fence)[i] == rest[i - 1]);
                    } else {
                        assert(segments(lines, fence)[0] == code_block(buf));
                    }
                }
            },
            None => {
                lemma_neutral_segments(lines.drop_first(), Some(Seq::empty()));
                assert(segments(lines, fence) == segments(lines.drop_first(), Some(Seq::empty())));
            },
        }
    } else {
        match fence {
            Some(buf) => {
                lemma_neutral_segments(lines.drop_first(), Some(buf.push(lines[0])));
                assert(segments(lines, fence) == segments(
                    lines.drop_first(),
                    Some(buf.push(lines[0])),
                ));
            },
            None => {
                lemma_neutral_line(lines[0]);
                lemma_neutral_segments(lines.drop_first(), None);
                let rest = segments(lines.drop_first(), None);
                assert forall|i: int|
                    0 <= i < segments(lines, fence).len() implies neutral(
                    #[trigger] segments(lines, fence)[i],
                ) by {
                    if i > 0 {
                        assert(segments(lines, fence)[i] == rest[i - 1]);
                    } else {
                        assert(segments(lines, fence)[0] == line_markup(lines[0]));
                    }
                }
            },
        }
    }
}

/// Whatever the Markdown text, its Pango markup is accepted by a label: each
/// `<`, `>` and `&` belongs to a tag or an entity, and every tag that opens
/// is closed.
pub proof fn lemma_markup_balanced(input: Seq<char>)
    ensures
        balanced_markup(pango_markup(input)),
{
    let segs = segments(lines_text(input), None);
    lemma_neutral_segments(lines_text(input), None);
    lemma_neutral_plain(newline());
    lemma_neutral_join(segs, newline());
    lemma_neutral_balanced(pango_markup(input));
}

} // verus!
