//! Minimal Markdown → Pango-markup conversion for the AI message view.
//!
//! A GTK label renders Pango markup, not Markdown, so the common subset that
//! language models emit is translated: fenced and inline code, `**bold**`,
//! `*italic*`, `# headings` and `- ` bullets. Literal text is escaped, so the
//! markup a label receives never holds a raw `<` or `>` outside the tags
//! produced here.
use vstd::prelude::*;
use vstd::string::StrSliceExecFns;

use crate::markup::{
    balanced_markup, lemma_markup_balanced, lemma_neutral_balanced, lemma_neutral_emphasis,
    lemma_neutral_escaped, lemma_neutral_inline,
};
use crate::text::{
    views, slice_chars, chars_of, count_matches, count_occurrences, extend_all, extend_range, find, find_from, join,
    join_chars, matches_at, offset, replace_all, replace_chars, skip_ws, starts_with, string_of,
    trim_start,
};

verus! {

// ---------------------------------------------------------------------------
// Fixed pieces of markup
// ---------------------------------------------------------------------------

/// `&amp;`
pub open spec fn amp_entity() -> Seq<char> {
    seq!['&', 'a', 'm', 'p', ';']
}

/// `&lt;`
pub open spec fn lt_entity() -> Seq<char> {
    seq!['&', 'l', 't', ';']
}

/// `&gt;`
pub open spec fn gt_entity() -> Seq<char> {
    seq!['&', 'g', 't', ';']
}

/// `<tt>`
pub open spec fn tt_open() -> Seq<char> {
    seq!['<', 't', 't', '>']
}

/// `</tt>`
pub open spec fn tt_close() -> Seq<char> {
    seq!['<', '/', 't', 't', '>']
}

/// `**`
pub open spec fn double_star() -> Seq<char> {
    seq!['*', '*']
}

/// `*`
pub open spec fn single_star() -> Seq<char> {
    seq!['*']
}

/// The private-use character that shields a leftover `**` from the italic pass.
pub open spec fn star_guard() -> Seq<char> {
    seq!['\u{E000}']
}

/// `<b>`
pub open spec fn bold_open() -> Seq<char> {
    seq!['<', 'b', '>']
}

/// `</b>`
pub open spec fn bold_close() -> Seq<char> {
    seq!['<', '/', 'b', '>']
}

/// `<i>`
pub open spec fn italic_open() -> Seq<char> {
    seq!['<', 'i', '>']
}

/// `</i>`
pub open spec fn italic_close() -> Seq<char> {
    seq!['<', '/', 'i', '>']
}

/// A backtick.
pub open spec fn backtick() -> Seq<char> {
    seq!['`']
}

/// The fence marker ```` ``` ````.
pub open spec fn fence_marker() -> Seq<char> {
    seq!['`', '`', '`']
}

/// A line feed.
pub open spec fn newline() -> Seq<char> {
    seq!['\n']
}

/// `s` wrapped in `<tt>` … `</tt>`.
pub open spec fn monospace(s: Seq<char>) -> Seq<char> {
    tt_open() + s + tt_close()
}

/// `s` wrapped in `<big><b>` … `</b></big>`.
pub open spec fn heading_markup(s: Seq<char>) -> Seq<char> {
    seq!['<', 'b', 'i', 'g', '>', '<', 'b', '>'] + s + seq!['<', '/', 'b', '>', '<', '/', 'b', 'i', 'g', '>']
}

/// `s` behind the bullet `•  `.
pub open spec fn bullet_markup(s: Seq<char>) -> Seq<char> {
    seq!['\u{2022}', ' ', ' '] + s
}

// ---------------------------------------------------------------------------
// Specification of the conversion
// ---------------------------------------------------------------------------

/// The escaped form of one character.
pub open spec fn escape_char(c: char) -> Seq<char> {
    if c == '&' {
        amp_entity()
    } else if c == '<' {
        lt_entity()
    } else if c == '>' {
        gt_entity()
    } else {
        seq![c]
    }
}

/// `t` with `&`, `<` and `>` replaced by their entities.
pub open spec fn escape_text(t: Seq<char>) -> Seq<char>
    decreases t.len(),
{
    if t.len() == 0 {
        Seq::empty()
    } else {
        escape_char(t[0]) + escape_text(t.drop_first())
    }
}

/// Scans `s` left to right and replaces the next `k` occurrences of `m` with
/// tags, `open` first and then alternating.
pub open spec fn wrap_scan(
    s: Seq<char>,
    m: Seq<char>,
    open: Seq<char>,
    close: Seq<char>,
    k: nat,
    opening: bool,
) -> Seq<char>
    decreases s.len(), k,
{
    if k == 0 {
        s
    } else if starts_with(s, m) {
        (if opening {
            open
        } else {
            close
        }) + wrap_scan(s.skip(m.len() as int), m, open, close, (k - 1) as nat, !opening)
    } else if s.len() == 0 {
        s
    } else {
        seq![s[0]] + wrap_scan(s.drop_first(), m, open, close, k, opening)
    }
}

/// The largest even number not above `n`.
pub open spec fn even_floor(n: nat) -> nat {
    (n - n % 2) as nat
}

/// `t` with an even number of `m` occurrences, the largest available, turned
/// into alternating `open`/`close` tags; a text with fewer than two
/// occurrences is returned unchanged.
pub open spec fn wrap_pairs_text(t: Seq<char>, m: Seq<char>, open: Seq<char>, close: Seq<char>) -> Seq<
    char,
> {
    let total = count_matches(t, m);
    if total < 2 {
        t
    } else {
        wrap_scan(t, m, open, close, even_floor(total), true)
    }
}

/// The stars of `s` outside its bold regions (from a `<b>` to the next
/// `</b>`).
pub open spec fn outside_stars(s: Seq<char>) -> nat
    decreases s.len(),
{
    proof {
        lemma_find_bounds(s, bold_open());
    }
    match find(s, bold_open()) {
        None => count_matches(s, single_star()),
        Some(j) => {
            let after = s.skip(j + 3);
            proof {
                lemma_find_bounds(after, bold_close());
            }
            count_matches(s.take(j), single_star()) + match find(after, bold_close()) {
                Some(e) => outside_stars(after.skip(e + 4)),
                None => 0,
            }
        },
    }
}

/// The italic pass over `s` with `k` outside stars still to turn into tags,
/// the next one opening if `opening`: outside the bold regions the stars are
/// paired across the whole text, inside a bold region among themselves, so
/// that an italic span never crosses a bold tag.
pub open spec fn italic_from(s: Seq<char>, k: nat, opening: bool) -> Seq<char>
    decreases s.len(),
{
    proof {
        lemma_find_bounds(s, bold_open());
    }
    match find(s, bold_open()) {
        None => wrap_scan(s, single_star(), italic_open(), italic_close(), k, opening),
        Some(j) => {
            let before = s.take(j);
            let c = count_matches(before, single_star());
            let used: nat = if k <= c {
                k
            } else {
                c
            };
            let after = s.skip(j + 3);
            proof {
                lemma_find_bounds(after, bold_close());
            }
            wrap_scan(before, single_star(), italic_open(), italic_close(), used, opening)
                + bold_open() + match find(after, bold_close()) {
                Some(e) => wrap_pairs_text(after.take(e), single_star(), italic_open(), italic_close())
                    + bold_close() + italic_from(
                    after.skip(e + 4),
                    (k - used) as nat,
                    if used % 2 == 0 {
                        opening
                    } else {
                        !opening
                    },
                ),
                None => wrap_pairs_text(after, single_star(), italic_open(), italic_close()),
            }
        },
    }
}

/// The italic pass: an even number of the stars outside bold regions, the
/// largest available, and inside each bold region an even number of its own
/// stars, turned into alternating `<i>`/`</i>`.
pub open spec fn italic_text(s: Seq<char>) -> Seq<char> {
    italic_from(s, even_floor(outside_stars(s)), true)
}

/// Escaping, then `**bold**`, then `*italic*`; a leftover `**` stays literal,
/// and italics never cross bold.
pub open spec fn emphasis_text(t: Seq<char>) -> Seq<char> {
    let escaped = escape_text(t);
    let bold = wrap_pairs_text(escaped, double_star(), bold_open(), bold_close());
    let guarded = replace_all(bold, double_star(), star_guard());
    let italic = italic_text(guarded);
    replace_all(italic, star_guard(), double_star())
}

/// A non-empty pattern occurs at most as often as the text has characters.
pub proof fn lemma_count_le_len(s: Seq<char>, p: Seq<char>)
    requires
        p.len() > 0,
    ensures
        count_matches(s, p) <= s.len(),
    decreases s.len(),
{
    if s.len() > 0 {
        if starts_with(s, p) {
            lemma_count_le_len(s.skip(p.len() as int), p);
        } else {
            lemma_count_le_len(s.drop_first(), p);
        }
    }
}

/// The indices that `find` reports lie inside the searched text.
pub proof fn lemma_find_bounds(s: Seq<char>, p: Seq<char>)
    ensures
        find(s, p) matches Some(i) ==> 0 <= i && i + p.len() <= s.len(),
    decreases s.len(),
{
    if !starts_with(s, p) && s.len() > 0 {
        lemma_find_bounds(s.drop_first(), p);
    }
}

/// Inline formatting of one line: `` `code` `` spans first, emphasis on the
/// text between them; an unmatched backtick stays literal.
pub open spec fn inline_text(t: Seq<char>) -> Seq<char>
    decreases t.len(),
{
    proof {
        lemma_find_bounds(t, backtick());
    }
    match find(t, backtick()) {
        None => emphasis_text(t),
        Some(start) => {
            let after = t.skip(start + 1);
            proof {
                lemma_find_bounds(after, backtick());
            }
            emphasis_text(t.take(start)) + match find(after, backtick()) {
                Some(end) => monospace(escape_text(after.take(end))) + inline_text(
                    after.skip(end + 1),
                ),
                None => escape_text(backtick()) + inline_text(after),
            }
        },
    }
}


// ---------------------------------------------------------------------------
// Executable conversion on character vectors
// ---------------------------------------------------------------------------

/// Appends the escaped form of `t[lo..hi]` to `out`.
pub fn escape_into(out: &mut Vec<char>, t: &[char], lo: usize, hi: usize)
    requires
        lo <= hi <= t.len(),
    ensures
        final(out)@ == old(out)@ + escape_text(t@.subrange(lo as int, hi as int)),
{
    let mut i = lo;
    while i < hi
        invariant
            lo <= i <= hi <= t.len(),
            old(out)@ + escape_text(t@.subrange(lo as int, hi as int)) == out@ + escape_text(
                t@.subrange(i as int, hi as int),
            ),
        decreases hi - i,
    {
        assert(t@.subrange(i as int, hi as int).drop_first() =~= t@.subrange(i + 1, hi as int));
        let c = t[i];
        if c == '&' {
            extend_all(out, &['&', 'a', 'm', 'p', ';']);
        } else if c == '<' {
            extend_all(out, &['&', 'l', 't', ';']);
        } else if c == '>' {
            extend_all(out, &['&', 'g', 't', ';']);
        } else {
            out.push(c);
        }
        i = i + 1;
    }
    assert(t@.subrange(i as int, hi as int).len() == 0);
}

/// `wrap_scan` on character vectors: turns the next `k` occurrences of `m`
/// in `t` into tags, `open` first if `opening`.
pub fn wrap_scan_chars(
    t: &[char],
    m: &[char],
    open: &[char],
    close: &[char],
    k: usize,
    opening: bool,
) -> (r: Vec<char>)
    ensures
        r@ == wrap_scan(t@, m@, open@, close@, k as nat, opening),
{
    let mut out: Vec<char> = Vec::new();
    let mut replaced: usize = 0;
    let mut i: usize = 0;
    assert(t@.skip(0) =~= t@);
    loop
        invariant
            i <= t.len(),
            replaced <= k,
            wrap_scan(t@, m@, open@, close@, k as nat, opening) == out@ + wrap_scan(
                t@.skip(i as int),
                m@,
                open@,
                close@,
                (k - replaced) as nat,
                if replaced % 2 == 0 {
                    opening
                } else {
                    !opening
                },
            ),
        ensures
            i <= t.len(),
            wrap_scan(t@, m@, open@, close@, k as nat, opening) == out@ + t@.skip(i as int),
        decreases t.len() - i, k - replaced,
    {
        if replaced == k {
            break;
        }
        if matches_at(t, m, i) {
            assert(t@.skip(i as int).skip(m.len() as int) =~= t@.skip(i + m.len()));
            if (replaced % 2 == 0) == opening {
                extend_all(&mut out, open);
            } else {
                extend_all(&mut out, close);
            }
            i = i + m.len();
            replaced = replaced + 1;
        } else if i == t.len() {
            break;
        } else {
            assert(t@.skip(i as int).drop_first() =~= t@.skip(i + 1));
            out.push(t[i]);
            i = i + 1;
        }
    }
    extend_range(&mut out, t, i, t.len());
    assert(t@.subrange(i as int, t.len() as int) =~= t@.skip(i as int));
    out
}

/// `wrap_pairs` on character vectors.
pub fn wrap_pairs_chars(t: &[char], m: &[char], open: &[char], close: &[char]) -> (r: Vec<char>)
    requires
        m.len() > 0 || t.len() < usize::MAX,
    ensures
        r@ == wrap_pairs_text(t@, m@, open@, close@),
{
    let total = count_occurrences(t, m);
    if total < 2 {
        let mut out: Vec<char> = Vec::new();
        extend_all(&mut out, t);
        return out;
    }
    wrap_scan_chars(t, m, open, close, total - total % 2, true)
}

/// The number of stars of `s[p..]` outside its bold regions.
fn outside_star_count(s: &[char]) -> (n: usize)
    ensures
        n == outside_stars(s@),
{
    let b_open = vec!['<', 'b', '>'];
    let b_close = vec!['<', '/', 'b', '>'];
    let star = vec!['*'];
    assert(b_open@ == bold_open() && b_close@ == bold_close() && star@ == single_star());
    let mut n: usize = 0;
    let mut p: usize = 0;
    assert(s@.skip(0) =~= s@);
    loop
        invariant
            p <= s.len(),
            n <= p,
            b_open@ == bold_open(),
            b_close@ == bold_close(),
            star@ == single_star(),
            outside_stars(s@) == n + outside_stars(s@.skip(p as int)),
        decreases s.len() - p,
    {
        let ghost rest = s@.skip(p as int);
        match find_from(s, &b_open, p) {
            None => {
                let piece = slice_chars(s, p, s.len());
                assert(piece@ =~= rest);
                let c = count_occurrences(&piece, &star);
                proof {
                    lemma_count_le_len(piece@, star@);
                }
                return n + c;
            },
            Some(j) => {
                let piece = slice_chars(s, p, j);
                assert(find(rest, bold_open()) == Some(j - p));
                assert(piece@ =~= rest.take(j - p));
                assert(rest.skip(j - p + 3) =~= s@.skip(j + 3));
                let c = count_occurrences(&piece, &star);
                proof {
                    lemma_count_le_len(piece@, star@);
                }
                match find_from(s, &b_close, j + 3) {
                    None => {
                        return n + c;
                    },
                    Some(e) => {
                        assert(find(s@.skip(j + 3), bold_close()) == Some(e - (j + 3)));
                        assert(s@.skip(j + 3).skip(e - (j + 3) + 4) =~= s@.skip(e + 4));
                        n = n + c;
                        p = e + 4;
                    },
                }
            },
        }
    }
}

/// The italic pass on character vectors.
#[verifier::rlimit(40)]
pub fn italic_chars(s: &[char]) -> (r: Vec<char>)
    ensures
        r@ == italic_text(s@),
{
    let b_open = vec!['<', 'b', '>'];
    let b_close = vec!['<', '/', 'b', '>'];
    let i_open = vec!['<', 'i', '>'];
    let i_close = vec!['<', '/', 'i', '>'];
    let star = vec!['*'];
    assert(b_open@ == bold_open() && b_close@ == bold_close() && star@ == single_star());
    assert(i_open@ == italic_open() && i_close@ == italic_close());
    let total = outside_star_count(s);
    let mut k: usize = total - total % 2;
    let mut opening = true;
    let mut out: Vec<char> = Vec::new();
    let mut p: usize = 0;
    assert(s@.skip(0) =~= s@);
    loop
        invariant
            p <= s.len(),
            b_open@ == bold_open(),
            b_close@ == bold_close(),
            star@ == single_star(),
            i_open@ == italic_open(),
            i_close@ == italic_close(),
            italic_text(s@) == out@ + italic_from(s@.skip(p as int), k as nat, opening),
        decreases s.len() - p,
    {
        let ghost rest = s@.skip(p as int);
        match find_from(s, &b_open, p) {
            None => {
                let piece = slice_chars(s, p, s.len());
                assert(piece@ =~= rest);
                extend_all(&mut out, &wrap_scan_chars(&piece, &star, &i_open, &i_close, k, opening));
                return out;
            },
            Some(j) => {
                let piece = slice_chars(s, p, j);
                assert(find(rest, bold_open()) == Some(j - p));
                assert(piece@ =~= rest.take(j - p));
                assert(rest.skip(j - p + 3) =~= s@.skip(j + 3));
                let c = count_occurrences(&piece, &star);
                let used = if k <= c {
                    k
                } else {
                    c
                };
                extend_all(&mut out, &wrap_scan_chars(&piece, &star, &i_open, &i_close, used, opening));
                extend_all(&mut out, &b_open);
                let ghost after = s@.skip(j + 3);
                match find_from(s, &b_close, j + 3) {
                    None => {
                        let inner = slice_chars(s, j + 3, s.len());
                        assert(inner@ =~= after);
                        extend_all(&mut out, &wrap_pairs_chars(&inner, &star, &i_open, &i_close));
                        assert(out@ =~= italic_text(s@));
                        return out;
                    },
                    Some(e) => {
                        assert(find(after, bold_close()) == Some(e - (j + 3)));
                        let inner = slice_chars(s, j + 3, e);
                        assert(inner@ =~= after.take(e - (j + 3)));
                        assert(after.skip(e - (j + 3) + 4) =~= s@.skip(e + 4));
                        extend_all(&mut out, &wrap_pairs_chars(&inner, &star, &i_open, &i_close));
                        extend_all(&mut out, &b_close);
                        if used % 2 == 1 {
                            opening = !opening;
                        }
                        k = k - used;
                        p = e + 4;
                    },
                }
            },
        }
    }
}

/// `emphasis` on character vectors.
pub fn emphasis_chars(t: &[char], lo: usize, hi: usize) -> (r: Vec<char>)
    requires
        lo <= hi <= t.len(),
    ensures
        r@ == emphasis_text(t@.subrange(lo as int, hi as int)),
{
    let mut escaped: Vec<char> = Vec::new();
    escape_into(&mut escaped, t, lo, hi);
    let star2 = vec!['*', '*'];
    let guard = vec!['\u{E000}'];
    let b_open = vec!['<', 'b', '>'];
    let b_close = vec!['<', '/', 'b', '>'];
    assert(escaped@ =~= escape_text(t@.subrange(lo as int, hi as int)));
    assert(star2@ == double_star() && guard@ == star_guard());
    assert(b_open@ == bold_open() && b_close@ == bold_close());
    let bold = wrap_pairs_chars(&escaped, &star2, &b_open, &b_close);
    let guarded = replace_chars(&bold, &star2, &guard);
    let italic = italic_chars(&guarded);
    replace_chars(&italic, &guard, &star2)
}


/// `inline` on character vectors: formats `t[lo..hi]`.
pub fn inline_chars(t: &[char], lo: usize, hi: usize) -> (r: Vec<char>)
    requires
        lo <= hi <= t.len(),
    ensures
        r@ == inline_text(t@.subrange(lo as int, hi as int)),
{
    let s = slice_chars(t, lo, hi);
    let tick = vec!['`'];
    assert(tick@ == backtick());
    let mut out: Vec<char> = Vec::new();
    let mut i: usize = 0;
    assert(s@.skip(0) =~= s@);
    loop
        invariant_except_break
            inline_text(s@) == out@ + inline_text(s@.skip(i as int)),
        invariant
            i <= s.len(),
            lo <= hi <= t.len(),
            s@ == t@.subrange(lo as int, hi as int),
            tick@ == backtick(),
        ensures
            inline_text(s@) == out@,
        decreases s.len() - i,
    {
        let ghost rest = s@.skip(i as int);
        match find_from(&s, &tick, i) {
            None => {
                let e = emphasis_chars(&s, i, s.len());
                assert(s@.subrange(i as int, s.len() as int) =~= rest);
                extend_all(&mut out, &e);
                break ;
            },
            Some(start) => {
                assert(find(rest, backtick()) == Some(start - i));
                let ghost after = rest.skip(start - i + 1);
                assert(after =~= s@.skip(start + 1));
                assert(rest.take(start - i) =~= s@.subrange(i as int, start as int));
                let e = emphasis_chars(&s, i, start);
                extend_all(&mut out, &e);
                match find_from(&s, &tick, start + 1) {
                    Some(end) => {
                        assert(find(after, backtick()) == Some(end - start - 1));
                        assert(after.take(end - start - 1) =~= s@.subrange(start + 1, end as int));
                        assert(after.skip(end - start - 1 + 1) =~= s@.skip(end + 1));
                        extend_all(&mut out, &['<', 't', 't', '>']);
                        escape_into(&mut out, &s, start + 1, end);
                        extend_all(&mut out, &['<', '/', 't', 't', '>']);
                        i = end + 1;
                    },
                    None => {
                        assert(escape_text(backtick()) =~= backtick()) by {
                            assert(backtick().drop_first() =~= Seq::<char>::empty());
                            assert(escape_text(Seq::<char>::empty()) =~= Seq::<char>::empty());
                            assert(escape_char('`') =~= backtick());
                        }
                        out.push('`');
                        i = start + 1;
                    },
                }
            },
        }
    }
    out
}


// ---------------------------------------------------------------------------
// Block structure
// ---------------------------------------------------------------------------

/// Number of `#` characters that begin `s`.
pub open spec fn leading_hashes(s: Seq<char>) -> nat
    decreases s.len(),
{
    if s.len() > 0 && s[0] == '#' {
        1 + leading_hashes(s.drop_first())
    } else {
        0
    }
}

/// The text of an ATX heading line (one to six `#` and a space), without its
/// leading spaces; `None` when `line` is no heading.
pub open spec fn heading_body_text(line: Seq<char>) -> Option<Seq<char>> {
    let h = leading_hashes(line);
    let rest = line.skip(h as int);
    if 1 <= h <= 6 && rest.len() > 0 && rest[0] == ' ' {
        Some(trim_start(rest))
    } else {
        None
    }
}

/// The text after a `- `, `* ` or `+ ` bullet marker; `None` without one.
pub open spec fn bullet_body_text(line: Seq<char>) -> Option<Seq<char>> {
    if line.len() >= 2 && line[1] == ' ' && (line[0] == '-' || line[0] == '*' || line[0] == '+') {
        Some(line.skip(2))
    } else {
        None
    }
}

/// `l` without one trailing carriage return.
pub open spec fn strip_cr(l: Seq<char>) -> Seq<char> {
    if l.len() > 0 && l.last() == '\r' {
        l.drop_last()
    } else {
        l
    }
}

/// The lines of `s` after the partial line `cur` (`str::lines`): split at `\n`,
/// a `\r` before the `\n` dropped, no empty line after a final `\n`.
pub open spec fn lines_from(s: Seq<char>, cur: Seq<char>) -> Seq<Seq<char>>
    decreases s.len(),
{
    if s.len() == 0 {
        if cur.len() == 0 {
            Seq::empty()
        } else {
            seq![cur]
        }
    } else if s[0] == '\n' {
        seq![strip_cr(cur)] + lines_from(s.drop_first(), Seq::empty())
    } else {
        lines_from(s.drop_first(), cur.push(s[0]))
    }
}

/// The lines of `s` (`str::lines`).
pub open spec fn lines_text(s: Seq<char>) -> Seq<Seq<char>> {
    lines_from(s, Seq::empty())
}

/// The markup of one line outside a code fence.
pub open spec fn line_markup(line: Seq<char>) -> Seq<char> {
    let trimmed = trim_start(line);
    if trimmed.len() == 0 {
        Seq::empty()
    } else {
        match heading_body_text(trimmed) {
            Some(rest) => heading_markup(inline_text(rest)),
            None => match bullet_body_text(trimmed) {
                Some(rest) => bullet_markup(inline_text(rest)),
                None => inline_text(line),
            },
        }
    }
}

/// The markup of a fenced code block with lines `buf`.
pub open spec fn code_block(buf: Seq<Seq<char>>) -> Seq<char> {
    monospace(escape_text(join(buf, newline())))
}

/// `line` opens or closes a code fence.
pub open spec fn is_fence(line: Seq<char>) -> bool {
    starts_with(trim_start(line), fence_marker())
}

/// The output segments for `lines`, given the lines `fence` of the code block
/// that is open, if one is; a block left open at the end is closed there.
pub open spec fn segments(lines: Seq<Seq<char>>, fence: Option<Seq<Seq<char>>>) -> Seq<Seq<char>>
    decreases lines.len(),
{
    if lines.len() == 0 {
        match fence {
            Some(buf) => seq![code_block(buf)],
            None => Seq::empty(),
        }
    } else if is_fence(lines[0]) {
        match fence {
            Some(buf) => seq![code_block(buf)] + segments(lines.drop_first(), None),
            None => segments(lines.drop_first(), Some(Seq::empty())),
        }
    } else {
        match fence {
            Some(buf) => segments(lines.drop_first(), Some(buf.push(lines[0]))),
            None => seq![line_markup(lines[0])] + segments(lines.drop_first(), None),
        }
    }
}

/// The Pango markup for the Markdown text `input`.
pub open spec fn pango_markup(input: Seq<char>) -> Seq<char> {
    join(segments(lines_text(input), None), newline())
}

/// `leading_hashes` never exceeds the length of the text.
pub proof fn lemma_leading_hashes_bound(s: Seq<char>)
    ensures
        leading_hashes(s) <= s.len(),
    decreases s.len(),
{
    if s.len() > 0 && s[0] == '#' {
        lemma_leading_hashes_bound(s.drop_first());
    }
}

/// Start of the heading text of the line `s[lo..]`, if it is a heading.
pub fn heading_start(s: &[char], lo: usize) -> (r: Option<usize>)
    requires
        lo <= s.len(),
    ensures
        match r {
            Some(j) => lo <= j <= s.len() && heading_body_text(s@.skip(lo as int)) == Some(
                s@.skip(j as int),
            ),
            None => heading_body_text(s@.skip(lo as int)) is None,
        },
{
    let mut i = lo;
    while i < s.len() && s[i] == '#'
        invariant
            lo <= i <= s.len(),
            leading_hashes(s@.skip(lo as int)) == (i - lo) + leading_hashes(s@.skip(i as int)),
        decreases s.len() - i,
    {
        assert(s@.skip(i as int).drop_first() =~= s@.skip(i + 1));
        i = i + 1;
    }
    assert(leading_hashes(s@.skip(i as int)) == 0);
    assert(s@.skip(lo as int).skip(i - lo) =~= s@.skip(i as int));
    let h = i - lo;
    if 1 <= h && h <= 6 && i < s.len() && s[i] == ' ' {
        Some(skip_ws(s, i))
    } else {
        None
    }
}

/// Start of the bullet text of the line `s[lo..]`, if it is a bullet.
pub fn bullet_start(s: &[char], lo: usize) -> (r: Option<usize>)
    requires
        lo <= s.len(),
    ensures
        match r {
            Some(j) => lo <= j <= s.len() && bullet_body_text(s@.skip(lo as int)) == Some(
                s@.skip(j as int),
            ),
            None => bullet_body_text(s@.skip(lo as int)) is None,
        },
{
    if s.len() - lo >= 2 && s[lo + 1] == ' ' && (s[lo] == '-' || s[lo] == '*' || s[lo] == '+') {
        assert(s@.skip(lo as int).skip(2) =~= s@.skip(lo + 2));
        Some(lo + 2)
    } else {
        None
    }
}

/// The lines of `s` (`str::lines`).
pub fn split_lines(s: &[char]) -> (r: Vec<Vec<char>>)
    ensures
        views(r@) == lines_text(s@),
{
    let mut r: Vec<Vec<char>> = Vec::new();
    let mut cur: Vec<char> = Vec::new();
    let mut i: usize = 0;
    assert(s@.skip(0) =~= s@);
    while i < s.len()
        invariant
            i <= s.len(),
            lines_text(s@) == views(r@) + lines_from(s@.skip(i as int), cur@),
        decreases s.len() - i,
    {
        assert(s@.skip(i as int).drop_first() =~= s@.skip(i + 1));
        if s[i] == '\n' {
            let ghost prev = views(r@);
            if cur.len() > 0 && cur[cur.len() - 1] == '\r' {
                cur.pop();
            }
            r.push(cur);
            assert(views(r@) =~= prev + seq![views(r@).last()]);
            cur = Vec::new();
        } else {
            cur.push(s[i]);
        }
        i = i + 1;
    }
    assert(s@.skip(i as int).len() == 0);
    if cur.len() > 0 {
        let ghost prev = views(r@);
        r.push(cur);
        assert(views(r@) =~= prev + seq![views(r@).last()]);
    } else {
        assert(views(r@) =~= views(r@) + Seq::<Seq<char>>::empty());
    }
    r
}


/// The markup of the line `line` outside a code fence.
pub fn line_markup_chars(line: &[char]) -> (r: Vec<char>)
    ensures
        r@ == line_markup(line@),
{
    let t0 = skip_ws(line, 0);
    assert(line@.skip(0) =~= line@);
    let mut out: Vec<char> = Vec::new();
    if t0 == line.len() {
        return out;
    }
    match heading_start(line, t0) {
        Some(j) => {
            assert(line@.subrange(j as int, line.len() as int) =~= line@.skip(j as int));
            extend_all(&mut out, &['<', 'b', 'i', 'g', '>', '<', 'b', '>']);
            let body = inline_chars(line, j, line.len());
            extend_all(&mut out, &body);
            extend_all(&mut out, &['<', '/', 'b', '>', '<', '/', 'b', 'i', 'g', '>']);
        },
        None => match bullet_start(line, t0) {
            Some(j) => {
                assert(line@.subrange(j as int, line.len() as int) =~= line@.skip(j as int));
                extend_all(&mut out, &['\u{2022}', ' ', ' ']);
                let body = inline_chars(line, j, line.len());
                extend_all(&mut out, &body);
            },
            None => {
                assert(line@.subrange(0, line.len() as int) =~= line@);
                out = inline_chars(line, 0, line.len());
            },
        },
    }
    out
}

/// The code block holding the lines `buf`.
pub fn code_block_chars(buf: &Vec<Vec<char>>) -> (r: Vec<char>)
    ensures
        r@ == code_block(views(buf@)),
{
    let nl = vec!['\n'];
    assert(nl@ == newline());
    let joined = join_chars(buf, &nl);
    let mut out: Vec<char> = Vec::new();
    extend_all(&mut out, &['<', 't', 't', '>']);
    escape_into(&mut out, &joined, 0, joined.len());
    assert(joined@.subrange(0, joined.len() as int) =~= joined@);
    extend_all(&mut out, &['<', '/', 't', 't', '>']);
    out
}

/// The fence state as the specification sees it.
pub open spec fn fence_state(open: bool, buf: Seq<Vec<char>>) -> Option<Seq<Seq<char>>> {
    if open {
        Some(views(buf))
    } else {
        None
    }
}

/// The Pango markup for the Markdown text `input`.
pub fn pango_markup_chars(input: &[char]) -> (r: Vec<char>)
    ensures
        r@ == pango_markup(input@),
{
    let lines = split_lines(input);
    let fence = vec!['`', '`', '`'];
    assert(fence@ == fence_marker());
    let mut segs: Vec<Vec<char>> = Vec::new();
    let mut open = false;
    let mut buf: Vec<Vec<char>> = Vec::new();
    let mut k: usize = 0;
    assert(views(lines@).skip(0) =~= views(lines@));
    while k < lines.len()
        invariant
            k <= lines.len(),
            fence@ == fence_marker(),
            segments(views(lines@), None) == views(segs@) + segments(
                views(lines@).skip(k as int),
                fence_state(open, buf@),
            ),
        decreases lines.len() - k,
    {
        let ghost rest = views(lines@).skip(k as int);
        assert(rest[0] == lines[k as int]@);
        assert(rest.drop_first() =~= views(lines@).skip(k + 1));
        let line = &lines[k];
        let t0 = skip_ws(line, 0);
        assert(line@.skip(0) =~= line@);
        if matches_at(line, &fence, t0) {
            if open {
                let block = code_block_chars(&buf);
                let ghost prev = views(segs@);
                segs.push(block);
                assert(views(segs@) =~= prev + seq![code_block(views(buf@))]);
                open = false;
                buf = Vec::new();
            } else {
                open = true;
                buf = Vec::new();
                assert(views(buf@) =~= Seq::<Seq<char>>::empty());
            }
        } else if open {
            let copy = slice_chars(line, 0, line.len());
            assert(copy@ =~= line@);
            let ghost prev = views(buf@);
            buf.push(copy);
            assert(views(buf@) =~= prev.push(line@));
        } else {
            let m = line_markup_chars(line);
            let ghost prev = views(segs@);
            segs.push(m);
            assert(views(segs@) =~= prev + seq![line_markup(line@)]);
        }
        k = k + 1;
    }
    assert(views(lines@).skip(k as int).len() == 0);
    if open {
        let block = code_block_chars(&buf);
        let ghost prev = views(segs@);
        segs.push(block);
        assert(views(segs@) =~= prev + seq![code_block(views(buf@))]);
    } else {
        assert(views(segs@) =~= views(segs@) + Seq::<Seq<char>>::empty());
    }
    let nl = vec!['\n'];
    assert(nl@ == newline());
    join_chars(&segs, &nl)
}


// ---------------------------------------------------------------------------
// The conversion on strings
// ---------------------------------------------------------------------------

/// Converts a Markdown string to Pango markup.
pub fn to_pango_markup(input: &str) -> (out: String)
    ensures
        out@ == pango_markup(input@),
        balanced_markup(out@),
{
    proof {
        lemma_markup_balanced(input@);
    }
    let chars = chars_of(input);
    let markup = pango_markup_chars(&chars);
    string_of(&markup)
}

/// The text of an ATX heading line (`# Title` up to `###### Title`), without
/// the spaces after the hashes.
pub fn heading_body(line: &str) -> (r: Option<&str>)
    ensures
        match r {
            Some(body) => heading_body_text(line@) == Some(body@),
            None => heading_body_text(line@) is None,
        },
{
    let chars = chars_of(line);
    assert(chars@.skip(0) =~= chars@);
    match heading_start(&chars, 0) {
        Some(j) => {
            let body = line.substring_char(j, chars.len());
            assert(body@ =~= chars@.skip(j as int));
            Some(body)
        },
        None => None,
    }
}

/// The text after a `- `, `* ` or `+ ` bullet marker.
pub fn bullet_body(line: &str) -> (r: Option<&str>)
    ensures
        match r {
            Some(body) => bullet_body_text(line@) == Some(body@),
            None => bullet_body_text(line@) is None,
        },
{
    let chars = chars_of(line);
    assert(chars@.skip(0) =~= chars@);
    match bullet_start(&chars, 0) {
        Some(j) => {
            let body = line.substring_char(j, chars.len());
            assert(body@ =~= chars@.skip(j as int));
            Some(body)
        },
        None => None,
    }
}

/// Inline formatting of a single line: `code` spans first, so that their
/// contents are never read as emphasis, then emphasis on the rest.
pub fn inline(text: &str) -> (out: String)
    ensures
        out@ == inline_text(text@),
        balanced_markup(out@),
{
    proof {
        lemma_neutral_inline(text@);
        lemma_neutral_balanced(inline_text(text@));
    }
    let chars = chars_of(text);
    assert(chars@.subrange(0, chars.len() as int) =~= chars@);
    let r = inline_chars(&chars, 0, chars.len());
    string_of(&r)
}

/// Escapes literal text, then applies `**bold**` and `*italic*`; underscores
/// are left alone so that identifiers like `snake_case` are not mangled.
pub fn emphasis(text: &str) -> (out: String)
    ensures
        out@ == emphasis_text(text@),
        balanced_markup(out@),
{
    proof {
        lemma_neutral_emphasis(text@);
        lemma_neutral_balanced(emphasis_text(text@));
    }
    let chars = chars_of(text);
    assert(chars@.subrange(0, chars.len() as int) =~= chars@);
    let r = emphasis_chars(&chars, 0, chars.len());
    string_of(&r)
}

/// Replaces an even number of `marker` occurrences with alternating
/// open/close tags, leaving an unbalanced trailing marker literal.
pub fn wrap_pairs(text: &str, marker: &str, open: &str, close: &str) -> (out: String)
    requires
        marker@.len() > 0 || text@.len() < usize::MAX,
    ensures
        out@ == wrap_pairs_text(text@, marker@, open@, close@),
{
    let t = chars_of(text);
    let m = chars_of(marker);
    let o = chars_of(open);
    let c = chars_of(close);
    let r = wrap_pairs_chars(&t, &m, &o, &c);
    string_of(&r)
}

/// Escapes `&`, `<` and `>` as entities.
pub fn escape(text: &str) -> (out: String)
    ensures
        out@ == escape_text(text@),
        balanced_markup(out@),
{
    proof {
        lemma_neutral_escaped(text@);
        lemma_neutral_balanced(escape_text(text@));
    }
    let chars = chars_of(text);
    let mut r: Vec<char> = Vec::new();
    escape_into(&mut r, &chars, 0, chars.len());
    assert(chars@.subrange(0, chars.len() as int) =~= chars@);
    assert(r@ =~= escape_text(chars@));
    string_of(&r)
}

} // verus!
