//! Keyboard selection in the launcher's lists, where section headers are
//! rows that cannot be selected.
//!
//! A list is modelled by which of its rows are selectable, in order.
use vstd::prelude::*;

verus! {

/// The first selectable row at or after `i`.
pub open spec fn first_from(sel: Seq<bool>, i: int) -> Option<int>
    decreases sel.len() - i,
{
    if i < 0 || i >= sel.len() {
        None
    } else if sel[i] {
        Some(i)
    } else {
        first_from(sel, i + 1)
    }
}

/// The last selectable row at or before `i`.
pub open spec fn last_upto(sel: Seq<bool>, i: int) -> Option<int>
    decreases i + 1,
{
    if i < 0 || i >= sel.len() {
        None
    } else if sel[i] {
        Some(i)
    } else {
        last_upto(sel, i - 1)
    }
}

/// The row where moving the selection by `delta` starts looking: the
/// selected row (the first row when none is) moved by `delta`, but not
/// above the first row.
pub open spec fn move_start(selected: Option<int>, delta: int) -> int {
    let cur = match selected {
        Some(c) => c,
        None => 0,
    };
    if cur + delta < 0 {
        0
    } else {
        cur + delta
    }
}

/// The row to select after moving by `delta`: the nearest selectable row
/// from the start row in the direction of `delta`; `None` leaves the
/// selection as it is.
pub open spec fn move_target(sel: Seq<bool>, selected: Option<int>, delta: int) -> Option<int> {
    let start = move_start(selected, delta);
    if delta > 0 {
        first_from(sel, start)
    } else {
        last_upto(sel, start)
    }
}

/// The row to select when the selection of a list with selectable rows
/// `selectable` moves by `delta` from `selected`. A move by zero keeps a
/// selectable row (and finds nothing in an empty list); it is not asked from
/// a row that cannot be selected, where the search would never end.
pub fn move_selection(selectable: &[bool], selected: Option<usize>, delta: i32) -> (r: Option<
    usize,
>)
    requires
        delta != 0 || match selected {
            Some(c) => selectable@[c as int],
            None => selectable.len() == 0 || selectable@[0],
        },
        selectable.len() < 0x7fff_ffff,
        selected matches Some(c) ==> c < selectable.len(),
    ensures
        move_target(
            selectable@,
            match selected {
                Some(c) => Some(c as int),
                None => None,
            },
            delta as int,
        ) == match r {
            Some(i) => Some(i as int),
            None => None::<int>,
        },
{
    let cur: i64 = match selected {
        Some(c) => c as i64,
        None => 0,
    };
    let mut next: i64 = if cur + (delta as i64) < 0 {
        0
    } else {
        cur + (delta as i64)
    };
    let ghost start = next as int;
    let ghost sv = match selected {
        Some(c) => Some(c as int),
        None => None::<int>,
    };
    assert(start == move_start(sv, delta as int));
    let len = selectable.len() as i64;
    if delta > 0 {
        while next < len
            invariant
                0 <= start <= next,
                len == selectable.len(),
                delta > 0,
                sv == match selected {
                    Some(c) => Some(c as int),
                    None => None::<int>,
                },
                move_target(selectable@, sv, delta as int) == first_from(selectable@, next as int),
            decreases len - next,
        {
            if selectable[next as usize] {
                assert(first_from(selectable@, next as int) == Some(next as int));
                assert(move_target(selectable@, sv, delta as int) == Some(next as int));
                let idx = next as usize;
                assert(idx as int == next as int);
                return Some(idx);
            }
            next = next + 1;
        }
        None
    } else {
        if next >= len {
            return None;
        }
        loop
            invariant
                0 <= next <= start < len,
                len == selectable.len(),
                delta <= 0,
                sv == match selected {
                    Some(c) => Some(c as int),
                    None => None::<int>,
                },
                move_target(selectable@, sv, delta as int) == last_upto(selectable@, next as int),
            decreases next,
        {
            if selectable[next as usize] {
                let idx = next as usize;
                assert(idx as int == next as int);
                return Some(idx);
            }
            if next == 0 {
                return None;
            }
            next = next - 1;
        }
    }
}

/// The number of selectable rows in `sel`.
pub open spec fn count_selectable(sel: Seq<bool>) -> nat
    decreases sel.len(),
{
    if sel.len() == 0 {
        0
    } else {
        count_selectable(sel.drop_last()) + if sel.last() {
            1nat
        } else {
            0nat
        }
    }
}

/// The position of row `row` among the selectable rows, which is the index of
/// the result it shows; `None` for a header.
pub open spec fn action_index(sel: Seq<bool>, row: int) -> Option<nat> {
    if 0 <= row < sel.len() && sel[row] {
        Some(count_selectable(sel.take(row)))
    } else {
        None
    }
}

/// The index of the result shown in row `row` of a list with selectable
/// rows `selectable`.
pub fn action_index_for_row(selectable: &[bool], row: usize) -> (r: Option<usize>)
    ensures
        match r {
            Some(i) => action_index(selectable@, row as int) == Some(i as nat),
            None => action_index(selectable@, row as int) is None,
        },
{
    if row >= selectable.len() || !selectable[row] {
        return None;
    }
    let mut count: usize = 0;
    let mut i: usize = 0;
    while i < row
        invariant
            i <= row < selectable.len(),
            count <= i,
            count == count_selectable(selectable@.take(i as int)),
        decreases row - i,
    {
        assert(selectable@.take(i + 1).drop_last() =~= selectable@.take(i as int));
        if selectable[i] {
            count = count + 1;
        }
        i = i + 1;
    }
    Some(count)
}

/// The first selectable row, which is selected when a list is filled.
pub fn select_first_action_row(selectable: &[bool]) -> (r: Option<usize>)
    ensures
        first_from(selectable@, 0) == match r {
            Some(i) => Some(i as int),
            None => None::<int>,
        },
{
    let mut i: usize = 0;
    while i < selectable.len()
        invariant
            i <= selectable.len(),
            first_from(selectable@, 0) == first_from(selectable@, i as int),
        decreases selectable.len() - i,
    {
        if selectable[i] {
            return Some(i);
        }
        i = i + 1;
    }
    None
}

/// What `first_from` finds is a selectable row, with no selectable row
/// between the start and it; when it finds nothing, no row from the start on
/// is selectable.
pub proof fn lemma_first_from(sel: Seq<bool>, i: int)
    requires
        0 <= i,
    ensures
        first_from(sel, i) matches Some(j) ==> i <= j < sel.len() && sel[j] && forall|k: int|
            i <= k < j ==> !sel[k],
        first_from(sel, i) is None ==> forall|k: int| i <= k < sel.len() ==> !sel[k],
    decreases sel.len() - i,
{
    if i < sel.len() && !sel[i] {
        lemma_first_from(sel, i + 1);
    }
}

/// What `last_upto` finds is a selectable row, with no selectable row
/// between it and the start; when it finds nothing, no row up to the start is
/// selectable.
pub proof fn lemma_last_upto(sel: Seq<bool>, i: int)
    requires
        i < sel.len(),
    ensures
        last_upto(sel, i) matches Some(j) ==> 0 <= j <= i && sel[j] && forall|k: int|
            j < k <= i ==> !sel[k],
        last_upto(sel, i) is None ==> forall|k: int| 0 <= k <= i ==> !sel[k],
    decreases i + 1,
{
    if i >= 0 && !sel[i] {
        lemma_last_upto(sel, i - 1);
    }
}

/// Moving the selection lands on a selectable row in the direction of the
/// move, skipping only headers; it fails only when no such row exists.
pub proof fn lemma_move_lands_on_selectable(sel: Seq<bool>, selected: Option<int>, delta: int)
    requires
        delta != 0,
        selected matches Some(c) ==> 0 <= c < sel.len(),
    ensures
        ({
            let start = move_start(selected, delta);
            match move_target(sel, selected, delta) {
                Some(j) => 0 <= j < sel.len() && sel[j] && (if delta > 0 {
                    start <= j && forall|k: int| start <= k < j ==> !sel[k]
                } else {
                    j <= start && forall|k: int| j < k <= start ==> !sel[k]
                }),
                None => if delta > 0 {
                    forall|k: int| start <= k < sel.len() ==> !sel[k]
                } else {
                    start >= sel.len() || forall|k: int| 0 <= k <= start ==> !sel[k]
                },
            }
        }),
{
    let start = move_start(selected, delta);
    if delta > 0 {
        lemma_first_from(sel, start);
    } else if start < sel.len() {
        lemma_last_upto(sel, start);
    }
}

/// Counting selectable rows is monotone: a later row has at least as many
/// selectable rows before it.
pub proof fn lemma_count_monotone(sel: Seq<bool>, a: int, b: int)
    requires
        0 <= a <= b <= sel.len(),
    ensures
        count_selectable(sel.take(a)) <= count_selectable(sel.take(b)),
    decreases b - a,
{
    if a < b {
        lemma_count_monotone(sel, a, b - 1);
        assert(sel.take(b).drop_last() =~= sel.take(b - 1));
    }
}

/// Selectable rows map to distinct results, in order, the first one to the
/// first result.
pub proof fn lemma_action_index_is_rank(sel: Seq<bool>, a: int, b: int)
    requires
        0 <= a < b < sel.len(),
        sel[a],
        sel[b],
    ensures
        action_index(sel, a)->0 < action_index(sel, b)->0,
        first_from(sel, 0) == Some(a) ==> action_index(sel, a) == Some(0nat),
{
    lemma_count_monotone(sel, a + 1, b);
    assert(sel.take(a + 1).drop_last() =~= sel.take(a));
    if first_from(sel, 0) == Some(a) {
        lemma_first_from(sel, 0);
        lemma_no_selectable_counts_zero(sel, a);
    }
}

/// A prefix without selectable rows counts none.
proof fn lemma_no_selectable_counts_zero(sel: Seq<bool>, n: int)
    requires
        0 <= n <= sel.len(),
        forall|k: int| 0 <= k < n ==> !sel[k],
    ensures
        count_selectable(sel.take(n)) == 0,
    decreases n,
{
    if n > 0 {
        assert(sel.take(n).drop_last() =~= sel.take(n - 1));
        lemma_no_selectable_counts_zero(sel, n - 1);
    }
}

} // verus!
