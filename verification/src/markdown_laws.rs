//! Laws of the Markdown conversion: what escaping does to a text and how it
//! is undone, that text without emphasis markers is only escaped, that a
//! code span is escaped and set in monospace, how pairs of a marker become
//! alternating tags, and that plain text passes through unchanged.
use vstd::prelude::*;

use crate::markdown::{
    amp_entity, backtick, bold_close, bold_open, bullet_body_text, code_block, double_star,
    emphasis_text,
    escape_char, escape_text, even_floor, fence_marker, gt_entity, heading_body_text, inline_text,
    is_fence, italic_close, italic_open, italic_text, leading_hashes, line_markup, lines_from,
    lines_text, lt_entity, monospace, newline, outside_stars, pango_markup, segments, single_star,
    star_guard, strip_cr, wrap_pairs_text, wrap_scan,
};
use crate::text::{
    count_matches, find, is_ws, join, replace_all, starts_with, trim, trim_end, trim_start,
};

verus! {

/// `c` does not occur in `s`.
pub open spec fn lacks(s: Seq<char>, c: char) -> bool {
    forall|i: int| 0 <= i < s.len() ==> #[trigger] s[i] != c
}

/// A pattern whose first character is missing from `x` does not occur in it.
pub proof fn lemma_find_none_char(x: Seq<char>, p: Seq<char>)
    requires
        p.len() > 0,
        lacks(x, p[0]),
    ensures
        find(x, p) is None,
    decreases x.len(),
{
    if x.len() > 0 {
        if p.len() <= x.len() {
            assert(x.take(p.len() as int)[0] == x[0]);
        }
        assert(forall|i: int| 0 <= i < x.drop_first().len() ==> x.drop_first()[i] == x[i + 1]);
        lemma_find_none_char(x.drop_first(), p);
    } else {
        assert(!starts_with(x, p));
    }
}

/// In `x + y`, with `y` beginning with a pattern whose first character is
/// missing from `x`, the first occurrence is at the end of `x`.
pub proof fn lemma_find_first_char(x: Seq<char>, y: Seq<char>, p: Seq<char>)
    requires
        p.len() > 0,
        lacks(x, p[0]),
        starts_with(y, p),
    ensures
        find(x + y, p) == Some(x.len() as int),
    decreases x.len(),
{
    let xy = x + y;
    if x.len() == 0 {
        assert(xy =~= y);
    } else {
        assert(xy[0] == x[0]);
        assert(xy.take(p.len() as int)[0] == xy[0]);
        assert(xy.drop_first() =~= x.drop_first() + y);
        assert(forall|i: int| 0 <= i < x.drop_first().len() ==> x.drop_first()[i] == x[i + 1]);
        lemma_find_first_char(x.drop_first(), y, p);
    }
}

/// A character that no entity holds.
pub open spec fn outside_entities(c: char) -> bool {
    c != '&' && c != 'a' && c != 'm' && c != 'p' && c != ';' && c != 'l' && c != 't' && c != 'g'
}

/// Escaping brings in no character that no entity holds.
pub proof fn lemma_escape_lacks(t: Seq<char>, c: char)
    requires
        lacks(t, c),
        outside_entities(c),
    ensures
        lacks(escape_text(t), c),
    decreases t.len(),
{
    if t.len() > 0 {
        assert(forall|i: int| 0 <= i < t.drop_first().len() ==> t.drop_first()[i] == t[i + 1]);
        lemma_escape_lacks(t.drop_first(), c);
        let head = escape_char(t[0]);
        let rest = escape_text(t.drop_first());
        assert(t[0] != c);
        assert(lacks(head, c));
        assert forall|i: int| 0 <= i < escape_text(t).len() implies #[trigger] escape_text(t)[i]
            != c by {
            if i < head.len() {
                assert(escape_text(t)[i] == head[i]);
            } else {
                assert(escape_text(t)[i] == rest[i - head.len()]);
            }
        }
    }
}

/// The occurrences of one character.
pub open spec fn char_count(t: Seq<char>, c: char) -> nat {
    count_matches(t, seq![c])
}

/// Counting one character steps one character at a time.
pub proof fn lemma_char_count_step(t: Seq<char>, c: char)
    requires
        t.len() > 0,
    ensures
        char_count(t, c) == (if t[0] == c {
            1nat
        } else {
            0nat
        }) + char_count(t.drop_first(), c),
{
    assert(t.skip(1) =~= t.drop_first());
    if t[0] == c {
        assert(t.take(1) =~= seq![c]);
    } else {
        assert(t.take(1)[0] == t[0]);
    }
}

/// Escaped text holds no `<` and no `>`, is longer by four characters for
/// each `&` and by three for each `<` and `>`, and every character other
/// than these three is kept.
pub proof fn lemma_escape_shape(t: Seq<char>)
    ensures
        lacks(escape_text(t), '<'),
        lacks(escape_text(t), '>'),
        escape_text(t).len() == t.len() + 4 * char_count(t, '&') + 3 * (char_count(t, '<')
            + char_count(t, '>')),
        lacks(t, '&') && lacks(t, '<') && lacks(t, '>') ==> escape_text(t) == t,
    decreases t.len(),
{
    if t.len() > 0 {
        let d = t.drop_first();
        assert(forall|i: int| 0 <= i < d.len() ==> d[i] == t[i + 1]);
        lemma_escape_shape(d);
        lemma_char_count_step(t, '&');
        lemma_char_count_step(t, '<');
        lemma_char_count_step(t, '>');
        let head = escape_char(t[0]);
        let rest = escape_text(d);
        assert forall|i: int| 0 <= i < escape_text(t).len() implies #[trigger] escape_text(t)[i]
            != '<' && escape_text(t)[i] != '>' by {
            if i < head.len() {
                assert(escape_text(t)[i] == head[i]);
            } else {
                assert(escape_text(t)[i] == rest[i - head.len()]);
            }
        }
        if lacks(t, '&') && lacks(t, '<') && lacks(t, '>') {
            assert(t[0] != '&' && t[0] != '<' && t[0] != '>');
            assert(seq![t[0]] + d =~= t);
        }
    } else {
        assert(char_count(t, '&') == 0 && char_count(t, '<') == 0 && char_count(t, '>') == 0);
    }
}

/// Text without `*` and without the shielding character gets no emphasis:
/// its emphasis is its escaped form. Underscores in particular are left
/// alone.
pub proof fn lemma_emphasis_without_stars(t: Seq<char>)
    requires
        lacks(t, '*'),
        lacks(t, '\u{E000}'),
    ensures
        emphasis_text(t) == escape_text(t),
{
    let e = escape_text(t);
    lemma_escape_lacks(t, '*');
    lemma_escape_lacks(t, '\u{E000}');
    lemma_escape_shape(t);
    lemma_find_none_char(e, double_star());
    crate::markup::lemma_count_split(e, double_star());
    lemma_find_none_char(e, single_star());
    crate::markup::lemma_count_split(e, single_star());
    lemma_find_none_char(e, bold_open());
    crate::markup::lemma_replace_split(e, double_star(), star_guard());
    assert(wrap_pairs_text(e, double_star(), bold_open(), bold_close()) == e);
    assert(replace_all(e, double_star(), star_guard()) == e);
    assert(outside_stars(e) == 0);
    assert(italic_text(e) == e);
    lemma_find_none_char(e, star_guard());
    crate::markup::lemma_replace_split(e, star_guard(), double_star());
}

/// Inline formatting: text without backticks gets emphasis alone, and a
/// code span is escaped and set in monospace, its stars left as they are.
pub proof fn lemma_inline_code(s: Seq<char>, t: Seq<char>)
    requires
        lacks(s, '`'),
        lacks(t, '`'),
    ensures
        inline_text(t) == emphasis_text(t),
        inline_text(backtick() + s + backtick()) == monospace(escape_text(s)),
{
    lemma_find_none_char(t, backtick());
    let empty = Seq::<char>::empty();
    lemma_find_none_char(empty, backtick());
    lemma_emphasis_without_stars(empty);
    assert(escape_text(empty) =~= empty);
    assert(inline_text(empty) == empty);
    let x = backtick() + s + backtick();
    assert(x.take(1) =~= backtick());
    assert(find(x, backtick()) == Some(0int));
    let after = x.skip(1);
    assert(after =~= s + backtick());
    assert((backtick()).take(1) =~= backtick());
    lemma_find_first_char(s, backtick(), backtick());
    assert(after.take(s.len() as int) =~= s);
    assert(after.skip(s.len() as int + 1) =~= empty);
    assert(x.take(0) =~= empty);
    assert(inline_text(x) =~= monospace(escape_text(s)));
}

/// A character with no meaning in the Markdown subset, no entity to become,
/// and no line ending to drop.
pub open spec fn plain_md(c: char) -> bool {
    c != '*' && c != '`' && c != '&' && c != '<' && c != '>' && c != '#' && c != '-' && c != '+'
        && c != '\r' && c != '\u{E000}'
}

/// Every character of `s` is plain.
pub open spec fn all_plain(s: Seq<char>) -> bool {
    forall|i: int| 0 <= i < s.len() ==> plain_md(#[trigger] s[i])
}

/// A blank line becomes empty; any other line stays as it is.
pub open spec fn blank_to_empty(l: Seq<char>) -> Seq<char> {
    if trim(l).len() == 0 {
        Seq::empty()
    } else {
        l
    }
}

/// The lines of plain text are plain.
pub proof fn lemma_lines_plain(s: Seq<char>, cur: Seq<char>)
    requires
        all_plain(s),
        all_plain(cur),
    ensures
        forall|k: int| 0 <= k < lines_from(s, cur).len() ==> all_plain(#[trigger] lines_from(s, cur)[k]),
    decreases s.len(),
{
    if s.len() > 0 {
        let d = s.drop_first();
        assert(forall|i: int| 0 <= i < d.len() ==> d[i] == s[i + 1]);
        if s[0] == '\n' {
            lemma_lines_plain(d, Seq::empty());
            let first = strip_cr(cur);
            assert(all_plain(first)) by {
                assert(forall|i: int| 0 <= i < first.len() ==> first[i] == cur[i]);
            }
            let rest = lines_from(d, Seq::empty());
            assert forall|k: int| 0 <= k < lines_from(s, cur).len() implies all_plain(
                #[trigger] lines_from(s, cur)[k],
            ) by {
                if k > 0 {
                    assert(lines_from(s, cur)[k] == rest[k - 1]);
                }
            }
        } else {
            let c2 = cur.push(s[0]);
            assert(all_plain(c2)) by {
                assert(forall|i: int| 0 <= i < cur.len() ==> c2[i] == cur[i]);
            }
            lemma_lines_plain(d, c2);
            assert(lines_from(s, cur) == lines_from(d, c2));
        }
    } else if cur.len() > 0 {
        assert(lines_from(s, cur) =~= seq![cur]);
        assert(lines_from(s, cur)[0] == cur);
    }
}

/// What trimming the start of plain text leaves is plain, and begins with a
/// character other than whitespace.
pub proof fn lemma_trim_start_plain(l: Seq<char>)
    requires
        all_plain(l),
    ensures
        all_plain(trim_start(l)),
        trim_start(l).len() > 0 ==> !is_ws(trim_start(l)[0]),
    decreases l.len(),
{
    if l.len() > 0 && is_ws(l[0]) {
        let d = l.drop_first();
        assert(forall|i: int| 0 <= i < d.len() ==> d[i] == l[i + 1]);
        lemma_trim_start_plain(d);
    }
}

/// Trimming the end of text that begins with a character other than
/// whitespace leaves something.
pub proof fn lemma_trim_end_keeps_first(x: Seq<char>)
    requires
        x.len() > 0,
        !is_ws(x[0]),
    ensures
        trim_end(x).len() > 0,
    decreases x.len(),
{
    if x.len() > 1 && is_ws(x.last()) {
        assert(x.drop_last()[0] == x[0]);
        lemma_trim_end_keeps_first(x.drop_last());
    }
}

/// A plain line is no fence, and its markup is the line itself, or nothing
/// when it is blank.
pub proof fn lemma_line_plain(l: Seq<char>)
    requires
        all_plain(l),
    ensures
        !is_fence(l),
        line_markup(l) == blank_to_empty(l),
{
    let tr = trim_start(l);
    lemma_trim_start_plain(l);
    if tr.len() > 0 {
        assert(plain_md(tr[0]));
        if fence_marker().len() <= tr.len() {
            assert(tr.take(3)[0] == tr[0]);
        }
        lemma_trim_end_keeps_first(tr);
        assert(leading_hashes(tr) == 0);
        assert(heading_body_text(tr) is None);
        assert(bullet_body_text(tr) is None);
        lemma_inline_code(Seq::empty(), l);
        lemma_emphasis_without_stars(l);
        lemma_escape_shape(l);
    } else {
        assert(!starts_with(tr, fence_marker()));
    }
}

/// Plain lines outside a code block are marked up one by one.
pub proof fn lemma_segments_plain(lines: Seq<Seq<char>>)
    requires
        forall|k: int| 0 <= k < lines.len() ==> all_plain(#[trigger] lines[k]),
    ensures
        segments(lines, None) == lines.map_values(|l: Seq<char>| blank_to_empty(l)),
    decreases lines.len(),
{
    if lines.len() > 0 {
        assert(all_plain(lines[0]));
        lemma_line_plain(lines[0]);
        let d = lines.drop_first();
        assert(forall|k: int| 0 <= k < d.len() ==> d[k] == lines[k + 1]);
        lemma_segments_plain(d);
        assert(lines.map_values(|l: Seq<char>| blank_to_empty(l)) =~= seq![blank_to_empty(lines[0])]
            + d.map_values(|l: Seq<char>| blank_to_empty(l)));
    } else {
        assert(lines.map_values(|l: Seq<char>| blank_to_empty(l)) =~= Seq::<Seq<char>>::empty());
    }
}

/// Plain text passes through unchanged: its markup is its lines, blank ones
/// emptied, joined by line feeds.
pub proof fn lemma_plain_text_unchanged(s: Seq<char>)
    requires
        all_plain(s),
    ensures
        pango_markup(s) == join(
            lines_text(s).map_values(|l: Seq<char>| blank_to_empty(l)),
            newline(),
        ),
{
    assert(all_plain(Seq::<char>::empty()));
    lemma_lines_plain(s, Seq::empty());
    lemma_segments_plain(lines_text(s));
}

/// Text with `&`, `<` and `>` turned into entities as far as the flags say:
/// `&` always, `<` when `lt` holds, `>` when `gt` holds.
pub open spec fn entities(t: Seq<char>, lt: bool, gt: bool) -> Seq<char>
    decreases t.len(),
{
    if t.len() == 0 {
        Seq::empty()
    } else {
        let c = t[0];
        let head = if c == '&' {
            amp_entity()
        } else if c == '<' && lt {
            lt_entity()
        } else if c == '>' && gt {
            gt_entity()
        } else {
            seq![c]
        };
        head + entities(t.drop_first(), lt, gt)
    }
}

/// Escaping turns all three characters into entities.
pub proof fn lemma_escape_entities(t: Seq<char>)
    ensures
        escape_text(t) == entities(t, true, true),
    decreases t.len(),
{
    if t.len() > 0 {
        lemma_escape_entities(t.drop_first());
    }
}

/// Text without the first character of the pattern is copied as it is.
pub proof fn lemma_replace_skip(x: Seq<char>, y: Seq<char>, p: Seq<char>, w: Seq<char>)
    requires
        p.len() > 0,
        lacks(x, p[0]),
    ensures
        replace_all(x + y, p, w) == x + replace_all(y, p, w),
    decreases x.len(),
{
    let xy = x + y;
    if x.len() == 0 {
        assert(xy =~= y);
    } else {
        assert(xy[0] == x[0]);
        if p.len() <= xy.len() {
            assert(xy.take(p.len() as int)[0] == xy[0]);
        }
        assert(!starts_with(xy, p));
        assert(xy.drop_first() =~= x.drop_first() + y);
        assert(lacks(x.drop_first(), p[0])) by {
            assert forall|i: int| 0 <= i < x.drop_first().len() implies #[trigger] x.drop_first()[i]
                != p[0] by {
                assert(x.drop_first()[i] == x[i + 1]);
            }
        }
        lemma_replace_skip(x.drop_first(), y, p, w);
        assert(seq![x[0]] + (x.drop_first() + replace_all(y, p, w)) =~= x + replace_all(y, p, w));
    }
}

/// An entity other than the pattern is copied as it is.
pub proof fn lemma_replace_other_entity(e: Seq<char>, y: Seq<char>, p: Seq<char>, w: Seq<char>)
    requires
        p.len() >= 2,
        e.len() >= 2,
        e[0] == p[0],
        e[1] != p[1],
        lacks(e.drop_first(), p[0]),
    ensures
        replace_all(e + y, p, w) == e + replace_all(y, p, w),
{
    let ey = e + y;
    if p.len() <= ey.len() {
        assert(ey.take(p.len() as int)[1] == e[1]);
    }
    assert(!starts_with(ey, p));
    assert(ey.drop_first() =~= e.drop_first() + y);
    lemma_replace_skip(e.drop_first(), y, p, w);
    assert(seq![e[0]] + (e.drop_first() + replace_all(y, p, w)) =~= e + replace_all(y, p, w));
}

/// The pattern itself is replaced.
pub proof fn lemma_replace_own(y: Seq<char>, p: Seq<char>, w: Seq<char>)
    requires
        p.len() > 0,
    ensures
        replace_all(p + y, p, w) == w + replace_all(y, p, w),
{
    let py = p + y;
    assert(py.take(p.len() as int) =~= p);
    assert(py.skip(p.len() as int) =~= y);
}

/// Unescaping `&lt;` gives back the `<` characters.
pub proof fn lemma_unescape_lt(t: Seq<char>)
    ensures
        replace_all(entities(t, true, true), lt_entity(), seq!['<']) == entities(t, false, true),
    decreases t.len(),
{
    if t.len() > 0 {
        let c = t[0];
        let rest = entities(t.drop_first(), true, true);
        lemma_unescape_lt(t.drop_first());
        if c == '&' {
            assert(lacks(amp_entity().drop_first(), '&'));
            lemma_replace_other_entity(amp_entity(), rest, lt_entity(), seq!['<']);
        } else if c == '<' {
            lemma_replace_own(rest, lt_entity(), seq!['<']);
        } else if c == '>' {
            assert(lacks(gt_entity().drop_first(), '&'));
            lemma_replace_other_entity(gt_entity(), rest, lt_entity(), seq!['<']);
        } else {
            lemma_replace_skip(seq![c], rest, lt_entity(), seq!['<']);
        }
    }
}

/// Unescaping `&gt;` gives back the `>` characters.
pub proof fn lemma_unescape_gt(t: Seq<char>)
    ensures
        replace_all(entities(t, false, true), gt_entity(), seq!['>']) == entities(t, false, false),
    decreases t.len(),
{
    if t.len() > 0 {
        let c = t[0];
        let rest = entities(t.drop_first(), false, true);
        lemma_unescape_gt(t.drop_first());
        if c == '&' {
            assert(lacks(amp_entity().drop_first(), '&'));
            lemma_replace_other_entity(amp_entity(), rest, gt_entity(), seq!['>']);
        } else if c == '>' {
            lemma_replace_own(rest, gt_entity(), seq!['>']);
        } else {
            lemma_replace_skip(seq![c], rest, gt_entity(), seq!['>']);
        }
    }
}

/// Unescaping `&amp;` gives back the text.
pub proof fn lemma_unescape_amp(t: Seq<char>)
    ensures
        replace_all(entities(t, false, false), amp_entity(), seq!['&']) == t,
    decreases t.len(),
{
    if t.len() > 0 {
        let c = t[0];
        let rest = entities(t.drop_first(), false, false);
        lemma_unescape_amp(t.drop_first());
        if c == '&' {
            lemma_replace_own(rest, amp_entity(), seq!['&']);
        } else {
            lemma_replace_skip(seq![c], rest, amp_entity(), seq!['&']);
        }
        assert(seq![c] + t.drop_first() =~= t);
    }
}

/// Escaping is undone by replacing `&lt;`, then `&gt;`, then `&amp;` with
/// the characters they stand for.
pub proof fn lemma_escape_round_trip(t: Seq<char>)
    ensures
        replace_all(
            replace_all(replace_all(escape_text(t), lt_entity(), seq!['<']), gt_entity(), seq!['>']),
            amp_entity(),
            seq!['&'],
        ) == t,
{
    lemma_escape_entities(t);
    lemma_unescape_lt(t);
    lemma_unescape_gt(t);
    lemma_unescape_amp(t);
}

/// The tags of `s`, in order: `true` for each `open`, `false` for each
/// `close`.
pub open spec fn tag_sequence(s: Seq<char>, open: Seq<char>, close: Seq<char>) -> Seq<bool>
    decreases s.len(),
{
    if s.len() == 0 {
        Seq::empty()
    } else if open.len() > 0 && starts_with(s, open) {
        seq![true] + tag_sequence(s.skip(open.len() as int), open, close)
    } else if close.len() > 0 && starts_with(s, close) {
        seq![false] + tag_sequence(s.skip(close.len() as int), open, close)
    } else {
        tag_sequence(s.drop_first(), open, close)
    }
}

/// `k` tags alternating from `first`.
pub open spec fn alternating(k: nat, first: bool) -> Seq<bool> {
    Seq::new(k, |i: int| (i % 2 == 0) == first)
}

/// An opening and a closing tag as the emphasis passes write them.
pub open spec fn tag_pair(open: Seq<char>, close: Seq<char>) -> bool {
    ||| open == bold_open() && close == bold_close()
    ||| open == italic_open() && close == italic_close()
}

/// Text without the first character of the pattern holds no occurrence.
pub proof fn lemma_count_skip(x: Seq<char>, y: Seq<char>, p: Seq<char>)
    requires
        p.len() > 0,
        lacks(x, p[0]),
    ensures
        count_matches(x + y, p) == count_matches(y, p),
    decreases x.len(),
{
    let xy = x + y;
    if x.len() == 0 {
        assert(xy =~= y);
    } else {
        assert(xy[0] == x[0]);
        if p.len() <= xy.len() {
            assert(xy.take(p.len() as int)[0] == xy[0]);
        }
        assert(xy.drop_first() =~= x.drop_first() + y);
        assert(lacks(x.drop_first(), p[0])) by {
            assert forall|i: int| 0 <= i < x.drop_first().len() implies #[trigger] x.drop_first()[i]
                != p[0] by {
                assert(x.drop_first()[i] == x[i + 1]);
            }
        }
        lemma_count_skip(x.drop_first(), y, p);
    }
}

/// Text without `<` holds no tag.
pub proof fn lemma_tags_skip(x: Seq<char>, y: Seq<char>, open: Seq<char>, close: Seq<char>)
    requires
        tag_pair(open, close),
        lacks(x, '<'),
    ensures
        tag_sequence(x + y, open, close) == tag_sequence(y, open, close),
    decreases x.len(),
{
    let xy = x + y;
    if x.len() == 0 {
        assert(xy =~= y);
    } else {
        assert(xy[0] == x[0]);
        if open.len() <= xy.len() {
            assert(xy.take(open.len() as int)[0] == xy[0]);
        }
        if close.len() <= xy.len() {
            assert(xy.take(close.len() as int)[0] == xy[0]);
        }
        assert(xy.drop_first() =~= x.drop_first() + y);
        assert(lacks(x.drop_first(), '<')) by {
            assert forall|i: int| 0 <= i < x.drop_first().len() implies #[trigger] x.drop_first()[i]
                != '<' by {
                assert(x.drop_first()[i] == x[i + 1]);
            }
        }
        lemma_tags_skip(x.drop_first(), y, open, close);
    }
}

/// The converted text begins with a tag or with the text's first character.
pub proof fn lemma_wrap_first(
    s: Seq<char>,
    m: Seq<char>,
    open: Seq<char>,
    close: Seq<char>,
    k: nat,
    opening: bool,
)
    requires
        tag_pair(open, close),
    ensures
        wrap_scan(s, m, open, close, k, opening).len() > 0 ==> wrap_scan(
            s,
            m,
            open,
            close,
            k,
            opening,
        )[0] == '<' || (s.len() > 0 && wrap_scan(s, m, open, close, k, opening)[0] == s[0]),
{
}

/// One tag in front of the rest: what it adds to each count, to the tags and
/// to the text given back.
pub proof fn lemma_tag_front(
    x: Seq<char>,
    m: Seq<char>,
    open: Seq<char>,
    close: Seq<char>,
    opening: bool,
)
    requires
        tag_pair(open, close),
        m == single_star() || m == double_star(),
    ensures
        ({
            let tag = if opening {
                open
            } else {
                close
            };
            &&& count_matches(tag + x, open) == (if opening {
                1nat
            } else {
                0nat
            }) + count_matches(x, open)
            &&& count_matches(tag + x, close) == (if opening {
                0nat
            } else {
                1nat
            }) + count_matches(x, close)
            &&& count_matches(tag + x, m) == count_matches(x, m)
            &&& tag_sequence(tag + x, open, close) == seq![opening] + tag_sequence(x, open, close)
            &&& replace_all(replace_all(tag + x, open, m), close, m) == m + replace_all(
                replace_all(x, open, m),
                close,
                m,
            )
        }),
{
    let tag = if opening {
        open
    } else {
        close
    };
    let other = if opening {
        close
    } else {
        open
    };
    let tx = tag + x;
    assert(tx.take(tag.len() as int) =~= tag);
    assert(tx.skip(tag.len() as int) =~= x);
    assert(tx[1] == tag[1]);
    if other.len() <= tx.len() {
        assert(tx.take(other.len() as int)[1] == tx[1]);
    }
    assert(!starts_with(tx, other));
    assert(lacks(tag.drop_first(), '<'));
    assert(tx.drop_first() =~= tag.drop_first() + x);
    lemma_count_skip(tag.drop_first(), x, other);
    assert(lacks(tag, '*'));
    lemma_count_skip(tag, x, m);
    let rx = replace_all(x, open, m);
    assert(lacks(m, '<'));
    if opening {
        lemma_replace_own(x, open, m);
        lemma_replace_skip(m, rx, close, m);
    } else {
        lemma_replace_other_entity(close, x, open, m);
        lemma_replace_own(rx, close, m);
    }
}

/// Turning `k` occurrences of the marker into alternating tags: the tags
/// come out alternating from `opening`, the marker count drops by `k`, and
/// putting the marker back for each tag gives the text back.
pub proof fn lemma_wrap_scan_law(
    s: Seq<char>,
    m: Seq<char>,
    open: Seq<char>,
    close: Seq<char>,
    k: nat,
    opening: bool,
)
    requires
        tag_pair(open, close),
        m == single_star() || m == double_star(),
        lacks(s, '<'),
        k <= count_matches(s, m),
    ensures
        ({
            let r = wrap_scan(s, m, open, close, k, opening);
            &&& count_matches(r, open) == (if opening {
                (k + 1) / 2
            } else {
                k / 2
            })
            &&& count_matches(r, close) == (if opening {
                k / 2
            } else {
                (k + 1) / 2
            })
            &&& count_matches(r, m) == count_matches(s, m) - k
            &&& tag_sequence(r, open, close) == alternating(k, opening)
            &&& replace_all(replace_all(r, open, m), close, m) == s
        }),
    decreases s.len(), k,
{
    let r = wrap_scan(s, m, open, close, k, opening);
    let empty = Seq::<char>::empty();
    if k == 0 {
        assert(s + empty =~= s);
        lemma_count_skip(s, empty, open);
        lemma_count_skip(s, empty, close);
        lemma_tags_skip(s, empty, open, close);
        assert(alternating(0, opening) =~= Seq::<bool>::empty());
        lemma_replace_skip(s, empty, open, m);
        lemma_replace_skip(s, empty, close, m);
    } else if starts_with(s, m) {
        let rest = s.skip(m.len() as int);
        assert(lacks(rest, '<')) by {
            assert forall|i: int| 0 <= i < rest.len() implies #[trigger] rest[i] != '<' by {
                assert(rest[i] == s[i + m.len()]);
            }
        }
        lemma_wrap_scan_law(rest, m, open, close, (k - 1) as nat, !opening);
        let x = wrap_scan(rest, m, open, close, (k - 1) as nat, !opening);
        lemma_tag_front(x, m, open, close, opening);
        assert(alternating(k, opening) =~= seq![opening] + alternating((k - 1) as nat, !opening));
        assert(s =~= m + rest);
    } else {
        assert(s.len() > 0);
        let d = s.drop_first();
        assert(lacks(d, '<')) by {
            assert forall|i: int| 0 <= i < d.len() implies #[trigger] d[i] != '<' by {
                assert(d[i] == s[i + 1]);
            }
        }
        lemma_wrap_scan_law(d, m, open, close, k, opening);
        let x = wrap_scan(d, m, open, close, k, opening);
        let c = s[0];
        assert(c != '<');
        assert(lacks(seq![c], '<'));
        lemma_count_skip(seq![c], x, open);
        lemma_count_skip(seq![c], x, close);
        lemma_tags_skip(seq![c], x, open, close);
        if c != '*' {
            lemma_count_skip(seq![c], x, m);
        } else {
            lemma_wrap_first(d, m, open, close, k, opening);
            if m == single_star() {
                assert(s.take(1) =~= m);
            }
            assert(m == double_star());
            let cx = seq![c] + x;
            if 2 <= cx.len() {
                assert(cx[1] == x[0]);
                assert(d.len() > 0);
                assert(d[0] == s[1]);
                assert(s.take(2) =~= seq!['*', s[1]]);
                assert(x[0] != '*');
                assert(cx.take(2)[1] == cx[1]);
            }
            assert(!starts_with(cx, m));
            assert(cx.drop_first() =~= x);
        }
        lemma_replace_skip(seq![c], x, open, m);
        let rx = replace_all(x, open, m);
        lemma_replace_skip(seq![c], rx, close, m);
        assert(seq![c] + d =~= s);
    }
}

/// Pairs of a marker become alternating tags: of `n` occurrences, `n / 2`
/// open and `n / 2` close tags come out in turn, `n % 2` markers stay, and
/// putting the marker back for each tag gives the text back.
pub proof fn lemma_wrap_pairs_law(t: Seq<char>, m: Seq<char>, open: Seq<char>, close: Seq<char>)
    requires
        m == single_star() || m == double_star(),
        tag_pair(open, close),
        lacks(t, '<'),
        lacks(t, '>'),
    ensures
        ({
            let n = count_matches(t, m);
            let r = wrap_pairs_text(t, m, open, close);
            &&& count_matches(r, open) == n / 2
            &&& count_matches(r, close) == n / 2
            &&& count_matches(r, m) == n % 2
            &&& tag_sequence(r, open, close) == Seq::new(2 * (n / 2), |i: int| i % 2 == 0)
            &&& replace_all(replace_all(r, open, m), close, m) == t
        }),
{
    let n = count_matches(t, m);
    if n < 2 {
        lemma_wrap_scan_law(t, m, open, close, 0, true);
        assert(Seq::new(2 * (n / 2), |i: int| i % 2 == 0) =~= alternating(0, true));
    } else {
        let k = even_floor(n);
        lemma_wrap_scan_law(t, m, open, close, k, true);
        assert(k == 2 * (n / 2));
        assert(Seq::new(2 * (n / 2), |i: int| i % 2 == 0) =~= alternating(k, true));
    }
}

/// Leading whitespace is what `trim_start` drops.
pub proof fn lemma_trim_start_indent(ws: Seq<char>, l: Seq<char>)
    requires
        forall|i: int| 0 <= i < ws.len() ==> is_ws(#[trigger] ws[i]),
    ensures
        trim_start(ws + l) == trim_start(l),
    decreases ws.len(),
{
    if ws.len() > 0 {
        let d = ws.drop_first();
        assert(forall|i: int| 0 <= i < d.len() ==> d[i] == ws[i + 1]);
        assert((ws + l)[0] == ws[0]);
        assert((ws + l).drop_first() =~= d + l);
        lemma_trim_start_indent(d, l);
    } else {
        assert(ws + l =~= l);
    }
}

/// A line whose text after leading whitespace begins with three backticks.
pub open spec fn fence_line(line: Seq<char>) -> bool {
    starts_with(trim_start(line), fence_marker())
}

/// Indenting a line that begins with three backticks changes nothing: it
/// opens or closes a code fence wherever it stands.
pub proof fn lemma_fence_indent(
    lines: Seq<Seq<char>>,
    k: int,
    ws: Seq<char>,
    fence: Option<Seq<Seq<char>>>,
)
    requires
        0 <= k < lines.len(),
        starts_with(lines[k], fence_marker()),
        forall|i: int| 0 <= i < ws.len() ==> is_ws(#[trigger] ws[i]),
    ensures
        segments(lines.update(k, ws + lines[k]), fence) == segments(lines, fence),
    decreases lines.len(),
{
    let moved = lines.update(k, ws + lines[k]);
    let l = lines[k];
    lemma_trim_start_indent(ws, l);
    assert(l.take(3)[0] == '`');
    assert(l[0] == '`');
    assert(trim_start(l) == l);
    assert(is_fence(l) && is_fence(ws + l));
    assert(moved.drop_first() =~= if k == 0 {
        lines.drop_first()
    } else {
        lines.drop_first().update(k - 1, ws + l)
    });
    if k > 0 {
        assert(moved[0] == lines[0]);
        let d = lines.drop_first();
        assert(d[k - 1] == l);
        if is_fence(lines[0]) {
            lemma_fence_indent(d, k - 1, ws, None);
            lemma_fence_indent(d, k - 1, ws, Some(Seq::empty()));
        } else {
            match fence {
                Some(buf) => lemma_fence_indent(d, k - 1, ws, Some(buf.push(lines[0]))),
                None => lemma_fence_indent(d, k - 1, ws, None),
            }
        }
    }
}

/// Inside an open code block, lines up to a fence line are kept as they are
/// and the block closes at the fence line.
pub proof fn lemma_fence_body(
    body: Seq<Seq<char>>,
    close: Seq<char>,
    rest: Seq<Seq<char>>,
    buf: Seq<Seq<char>>,
)
    requires
        fence_line(close),
        forall|i: int| 0 <= i < body.len() ==> !fence_line(#[trigger] body[i]),
    ensures
        segments(body + seq![close] + rest, Some(buf)) == seq![code_block(buf + body)] + segments(
            rest,
            None,
        ),
    decreases body.len(),
{
    let all = body + seq![close] + rest;
    if body.len() == 0 {
        assert(all[0] == close);
        assert(all.drop_first() =~= rest);
        assert(buf + body =~= buf);
    } else {
        assert(all[0] == body[0]);
        assert(!fence_line(body[0]));
        let d = body.drop_first();
        assert(forall|i: int| 0 <= i < d.len() ==> d[i] == body[i + 1]);
        assert(all.drop_first() =~= d + seq![close] + rest);
        lemma_fence_body(d, close, rest, buf.push(body[0]));
        assert(buf.push(body[0]) + d =~= buf + body);
    }
}

/// A code fence, indented or not: from a line that begins (after leading
/// whitespace) with three backticks to the next such line, the lines in
/// between become one monospace block of their escaped text, and the rest
/// goes on as before.
pub proof fn lemma_fenced_block(
    open: Seq<char>,
    body: Seq<Seq<char>>,
    close: Seq<char>,
    rest: Seq<Seq<char>>,
)
    requires
        fence_line(open),
        fence_line(close),
        forall|i: int| 0 <= i < body.len() ==> !fence_line(#[trigger] body[i]),
    ensures
        segments(seq![open] + body + seq![close] + rest, None) == seq![
            monospace(escape_text(join(body, newline()))),
        ] + segments(rest, None),
{
    let all = seq![open] + body + seq![close] + rest;
    assert(all[0] == open);
    assert(all.drop_first() =~= body + seq![close] + rest);
    lemma_fence_body(body, close, rest, Seq::empty());
    assert(Seq::<Seq<char>>::empty() + body =~= body);
}

} // verus!
