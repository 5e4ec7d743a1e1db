//! The font browser: the families read from `fc-list`, in order and without
//! repeats, the families a query shows, and the preview sentence.
use vstd::prelude::*;

use crate::text::{
    chars_of, find, lowercase, slice_chars, string_of, to_lowercase, trim, trim_range,
};

verus! {

/// `a` comes before `b` in the order of strings: the first differing
/// character decides, and a proper prefix comes first. (Comparing the UTF-8
/// bytes of two strings gives the same order, since UTF-8 keeps the order of
/// code points.)
pub open spec fn lex_lt(a: Seq<char>, b: Seq<char>) -> bool
    decreases a.len(),
{
    if a.len() == 0 {
        b.len() > 0
    } else if b.len() == 0 {
        false
    } else if a[0] != b[0] {
        a[0] < b[0]
    } else {
        lex_lt(a.drop_first(), b.drop_first())
    }
}

/// The order is strict: nothing comes before itself, and of two different
/// strings exactly one comes first.
pub proof fn lemma_lex_total(a: Seq<char>, b: Seq<char>)
    ensures
        !lex_lt(a, a),
        a != b ==> (lex_lt(a, b) || lex_lt(b, a)),
        !(lex_lt(a, b) && lex_lt(b, a)),
    decreases a.len(),
{
    if a.len() > 0 && b.len() > 0 {
        lemma_lex_total(a.drop_first(), b.drop_first());
        if a[0] == b[0] && a != b {
            assert(a =~= seq![a[0]] + a.drop_first());
            assert(b =~= seq![b[0]] + b.drop_first());
        }
    } else if a.len() > 0 {
        lemma_lex_total(a.drop_first(), a.drop_first());
    } else if b.len() == 0 {
        assert(a =~= b);
    }
}

/// The order is transitive.
pub proof fn lemma_lex_trans(a: Seq<char>, b: Seq<char>, c: Seq<char>)
    requires
        lex_lt(a, b),
        lex_lt(b, c),
    ensures
        lex_lt(a, c),
    decreases a.len(),
{
    if a.len() > 0 && b.len() > 0 && c.len() > 0 && a[0] == b[0] && b[0] == c[0] {
        lemma_lex_trans(a.drop_first(), b.drop_first(), c.drop_first());
    }
}

/// Strictly increasing: sorted and without repeats.
pub open spec fn strictly_sorted(s: Seq<Seq<char>>) -> bool {
    forall|i: int, j: int| 0 <= i < j < s.len() ==> lex_lt(#[trigger] s[i], #[trigger] s[j])
}

/// Whether `a` comes before `b`.
pub fn lex_less(a: &[char], b: &[char]) -> (r: bool)
    ensures
        r == lex_lt(a@, b@),
{
    let mut i: usize = 0;
    assert(a@.skip(0) =~= a@);
    assert(b@.skip(0) =~= b@);
    while i < a.len() && i < b.len() && a[i] == b[i]
        invariant
            i <= a.len(),
            i <= b.len(),
            lex_lt(a@, b@) == lex_lt(a@.skip(i as int), b@.skip(i as int)),
        decreases a.len() - i,
    {
        assert(a@.skip(i as int).drop_first() =~= a@.skip(i + 1));
        assert(b@.skip(i as int).drop_first() =~= b@.skip(i + 1));
        i = i + 1;
    }
    if i == a.len() {
        i < b.len()
    } else if i == b.len() {
        false
    } else {
        a[i] < b[i]
    }
}

/// The views of a list of strings.
pub open spec fn name_views(v: Seq<String>) -> Seq<Seq<char>> {
    Seq::new(v.len(), |i: int| v[i]@)
}

/// Adds the name `x` to the strictly sorted list `v`, unless it is there.
fn insert_name(v: &mut Vec<String>, x: String)
    requires
        strictly_sorted(name_views(old(v)@)),
    ensures
        strictly_sorted(name_views(final(v)@)),
        forall|y: Seq<char>|
            name_views(final(v)@).contains(y) <==> (name_views(old(v)@).contains(y) || y == x@),
{
    let xc = chars_of(x.as_str());
    let mut i: usize = 0;
    while i < v.len() && lex_less(&chars_of(v[i].as_str()), &xc)
        invariant
            i <= v.len(),
            xc@ == x@,
            forall|j: int| 0 <= j < i ==> lex_lt(#[trigger] name_views(v@)[j], x@),
        decreases v.len() - i,
    {
        i = i + 1;
    }
    let ghost old_names = name_views(v@);
    if i < v.len() {
        let here = chars_of(v[i].as_str());
        if crate::text::seq_eq(&here, &xc) {
            assert(old_names[i as int] == x@);
            return;
        }
        proof {
            lemma_lex_total(old_names[i as int], x@);
            assert(lex_lt(x@, old_names[i as int]));
        }
    }
    v.insert(i, x);
    proof {
        let new_names = name_views(v@);
        assert(new_names =~= old_names.insert(i as int, x@));
        assert forall|a: int, b: int| 0 <= a < b < new_names.len() implies lex_lt(
            #[trigger] new_names[a],
            #[trigger] new_names[b],
        ) by {
            if b < i {
            } else if a < i && b == i {
            } else if a < i {
                assert(new_names[b] == old_names[b - 1]);
                if b - 1 > i {
                    lemma_lex_trans(x@, old_names[i as int], old_names[b - 1]);
                }
                lemma_lex_trans(old_names[a], x@, old_names[b - 1]);
            } else if a == i {
                assert(new_names[b] == old_names[b - 1]);
                if b - 1 > i {
                    lemma_lex_trans(x@, old_names[i as int], old_names[b - 1]);
                }
            } else {
                assert(new_names[a] == old_names[a - 1]);
                assert(new_names[b] == old_names[b - 1]);
            }
        }
        assert forall|y: Seq<char>| new_names.contains(y) implies (old_names.contains(y) || y
            == x@) by {
            let k = choose|k: int| 0 <= k < new_names.len() && new_names[k] == y;
            if k < i {
                assert(old_names[k] == y);
            } else if k > i {
                assert(old_names[k - 1] == y);
            }
        }
        assert forall|y: Seq<char>| (old_names.contains(y) || y == x@) implies new_names.contains(
            y,
        ) by {
            if y == x@ {
                assert(new_names[i as int] == y);
            } else {
                let k = choose|k: int| 0 <= k < old_names.len() && old_names[k] == y;
                if k < i {
                    assert(new_names[k] == y);
                } else {
                    assert(new_names[k + 1] == y);
                }
            }
        }
    }
}

/// The family that one piece of `fc-list` output names: the piece trimmed,
/// unless that leaves nothing or a hidden name beginning with `.`.
pub open spec fn family_item(piece: Seq<char>) -> Seq<Seq<char>> {
    let t = trim(piece);
    if t.len() > 0 && t[0] != '.' {
        seq![t]
    } else {
        Seq::empty()
    }
}

/// The families named in `s` after the unfinished piece `cur`; lines and
/// commas separate the pieces.
pub open spec fn families_from(s: Seq<char>, cur: Seq<char>) -> Seq<Seq<char>>
    decreases s.len(),
{
    if s.len() == 0 {
        family_item(cur)
    } else if s[0] == ',' || s[0] == '\n' {
        family_item(cur) + families_from(s.drop_first(), Seq::empty())
    } else {
        families_from(s.drop_first(), cur.push(s[0]))
    }
}

/// The families named in the output of `fc-list : family`, in order, repeats
/// included.
pub open spec fn named_families(output: Seq<char>) -> Seq<Seq<char>> {
    families_from(output, Seq::empty())
}

/// Adds the family of the piece `s[lo..hi]`, if it names one.
fn add_family(out: &mut Vec<String>, s: &[char], lo: usize, hi: usize)
    requires
        lo <= hi <= s.len(),
        strictly_sorted(name_views(old(out)@)),
    ensures
        strictly_sorted(name_views(final(out)@)),
        forall|y: Seq<char>|
            name_views(final(out)@).contains(y) <==> (name_views(old(out)@).contains(y)
                || family_item(s@.subrange(lo as int, hi as int)).contains(y)),
{
    let piece = slice_chars(s, lo, hi);
    let (a, b) = trim_range(&piece);
    if a < b && piece[a] != '.' {
        let name = slice_chars(&piece, a, b);
        proof {
            assert(family_item(piece@) =~= seq![name@]);
            assert forall|y: Seq<char>| family_item(piece@).contains(y) <==> y == name@ by {
                if y == name@ {
                    assert(family_item(piece@)[0] == y);
                }
            }
        }
        insert_name(out, string_of(&name));
    } else {
        assert(family_item(piece@) =~= Seq::<Seq<char>>::empty());
    }
}

/// The font families that `fc-list : family` printed: every name of a line,
/// the lines split at commas, trimmed, hidden names left out, sorted and
/// without repeats.
pub fn parse_font_families(output: &str) -> (r: Vec<String>)
    ensures
        strictly_sorted(name_views(r@)),
        forall|y: Seq<char>| name_views(r@).contains(y) <==> named_families(output@).contains(y),
{
    let s = chars_of(output);
    let mut out: Vec<String> = Vec::new();
    let mut start: usize = 0;
    let mut i: usize = 0;
    let ghost mut seen: Seq<Seq<char>> = Seq::empty();
    assert(s@.skip(0) =~= s@);
    assert(s@.subrange(0, 0) =~= Seq::<char>::empty());
    while i < s.len()
        invariant
            start <= i <= s.len(),
            strictly_sorted(name_views(out@)),
            named_families(s@) == seen + families_from(
                s@.skip(i as int),
                s@.subrange(start as int, i as int),
            ),
            forall|y: Seq<char>| name_views(out@).contains(y) <==> seen.contains(y),
        decreases s.len() - i,
    {
        assert(s@.skip(i as int).drop_first() =~= s@.skip(i + 1));
        if s[i] == ',' || s[i] == '\n' {
            let ghost item = family_item(s@.subrange(start as int, i as int));
            let ghost before = name_views(out@);
            add_family(&mut out, &s, start, i);
            assert(forall|y: Seq<char>| before.contains(y) <==> seen.contains(y));
            proof {
                assert forall|y: Seq<char>| (seen + item).contains(y) <==> (seen.contains(y)
                    || item.contains(y)) by {
                    if (seen + item).contains(y) {
                        let k = choose|k: int| 0 <= k < (seen + item).len() && (seen + item)[k]
                            == y;
                        if k >= seen.len() {
                            assert(item[k - seen.len()] == y);
                        }
                    }
                    if item.contains(y) {
                        let k = choose|k: int| 0 <= k < item.len() && item[k] == y;
                        assert((seen + item)[seen.len() + k] == y);
                    }
                    if seen.contains(y) {
                        let k = choose|k: int| 0 <= k < seen.len() && seen[k] == y;
                        assert((seen + item)[k] == y);
                    }
                }
                assert(s@.subrange(i + 1, i + 1) =~= Seq::<char>::empty());
                assert forall|y: Seq<char>| name_views(out@).contains(y) <==> (seen + item).contains(
                    y,
                ) by {
                    assert(name_views(out@).contains(y) <==> (before.contains(y) || item.contains(
                        y,
                    )));
                }
                seen = seen + item;
            }
            start = i + 1;
        } else {
            assert(s@.subrange(start as int, i as int).push(s@[i as int]) =~= s@.subrange(
                start as int,
                i + 1,
            ));
        }
        i = i + 1;
    }
    let ghost item = family_item(s@.subrange(start as int, i as int));
    add_family(&mut out, &s, start, i);
    proof {
        assert(named_families(s@) == seen + item);
        assert forall|y: Seq<char>| name_views(out@).contains(y) <==> named_families(s@).contains(
            y,
        ) by {
            if (seen + item).contains(y) {
                let k = choose|k: int| 0 <= k < (seen + item).len() && (seen + item)[k] == y;
                if k >= seen.len() {
                    assert(item[k - seen.len()] == y);
                }
            }
            if item.contains(y) {
                let k = choose|k: int| 0 <= k < item.len() && item[k] == y;
                assert((seen + item)[seen.len() + k] == y);
            }
            if seen.contains(y) {
                let k = choose|k: int| 0 <= k < seen.len() && seen[k] == y;
                assert((seen + item)[k] == y);
            }
        }
    }
    out
}

/// Whether the family `f` matches the lower-case query `q`: its lower-case
/// name contains `q` (every family matches an empty query).
pub open spec fn font_matches(f: Seq<char>, q: Seq<char>) -> bool {
    find(lowercase(f), q) is Some
}

/// The indices of the families among `fs` that match `q`, in order.
pub open spec fn matching_fonts(fs: Seq<Seq<char>>, q: Seq<char>) -> Seq<usize>
    decreases fs.len(),
{
    if fs.len() == 0 {
        Seq::empty()
    } else {
        matching_fonts(fs.drop_last(), q) + if font_matches(fs.last(), q) {
            seq![(fs.len() - 1) as usize]
        } else {
            Seq::empty()
        }
    }
}

/// The most families the browser lists at once.
pub const MAX_LISTED_FONTS: usize = 120;

/// The families listed for `query`: the first 120 whose name contains the
/// trimmed query, ignoring case, by their index in `fonts`.
pub fn visible_fonts(fonts: &[String], query: &str) -> (r: Vec<usize>)
    ensures
        ({
            let all = matching_fonts(name_views(fonts@), lowercase(trim(query@)));
            r@ == if all.len() <= MAX_LISTED_FONTS {
                all
            } else {
                all.take(MAX_LISTED_FONTS as int)
            }
        }),
{
    let qc = chars_of(query);
    let (lo, hi) = trim_range(&qc);
    let trimmed = string_of(&slice_chars(&qc, lo, hi));
    let q = to_lowercase(trimmed.as_str());
    let ghost qv = lowercase(trim(query@));
    let ghost names = name_views(fonts@);
    let mut out: Vec<usize> = Vec::new();
    let mut i: usize = 0;
    while i < fonts.len()
        invariant
            i <= fonts.len(),
            q@ == qv,
            qv == lowercase(trim(query@)),
            names == name_views(fonts@),
            out@ == matching_fonts(names.take(i as int), qv),
            out.len() <= MAX_LISTED_FONTS,
        decreases fonts.len() - i,
    {
        assert(names.take(i + 1).drop_last() =~= names.take(i as int));
        let lower = to_lowercase(fonts[i].as_str());
        let hit = crate::text::contains_str(&chars_of(lower.as_str()), q.as_str());
        if hit {
            if out.len() >= MAX_LISTED_FONTS {
                proof {
                    lemma_matching_prefix(names, qv, i as int + 1);
                }
                assert(out@ + seq![i] =~= matching_fonts(names.take(i + 1), qv));
                let ghost all = matching_fonts(names, qv);
                let ghost upto = out@ + seq![i];
                assert(all.len() >= upto.len());
                assert(all.take(upto.len() as int) == upto);
                assert(all.len() > MAX_LISTED_FONTS);
                assert(all.take(MAX_LISTED_FONTS as int) =~= out@) by {
                    assert forall|k: int| 0 <= k < MAX_LISTED_FONTS implies all[k] == out@[k] by {
                        assert(all.take(upto.len() as int)[k] == upto[k]);
                    }
                }
                return out;
            }
            out.push(i);
        }
        i = i + 1;
    }
    assert(names.take(i as int) =~= names);
    out
}

/// The matches among a prefix of the families begin the matches among all.
pub proof fn lemma_matching_prefix(fs: Seq<Seq<char>>, q: Seq<char>, n: int)
    requires
        0 <= n <= fs.len(),
    ensures
        matching_fonts(fs, q).len() >= matching_fonts(fs.take(n), q).len(),
        matching_fonts(fs, q).take(matching_fonts(fs.take(n), q).len() as int) == matching_fonts(
            fs.take(n),
            q,
        ),
    decreases fs.len() - n,
{
    if n < fs.len() {
        lemma_matching_prefix(fs, q, n + 1);
        assert(fs.take(n + 1).drop_last() =~= fs.take(n));
        let small = matching_fonts(fs.take(n), q);
        let big = matching_fonts(fs.take(n + 1), q);
        assert(big.take(small.len() as int) =~= small);
        assert(matching_fonts(fs, q).take(small.len() as int) =~= big.take(small.len() as int));
    } else {
        assert(fs.take(n) =~= fs);
    }
}

/// The sentence the browser shows in each family: the typed preview, or a
/// pangram when it is blank.
pub fn preview_text(preview: &str) -> (r: String)
    ensures
        r@ == if trim(preview@).len() == 0 {
            "The quick brown fox jumps over the lazy dog"@
        } else {
            preview@
        },
{
    let c = chars_of(preview);
    let (lo, hi) = trim_range(&c);
    if lo == hi {
        "The quick brown fox jumps over the lazy dog".to_owned()
    } else {
        string_of(&c)
    }
}

} // verus!
