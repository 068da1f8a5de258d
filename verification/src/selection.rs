//! The selection model: a cursor over the displayed list, with
//! wrap-around advance and retreat, clamped whenever the list is
//! rebuilt.

use vstd::prelude::*;

verus! {

/// A cursor fits a list of length `len`: unset exactly when the list is
/// empty, in bounds otherwise.
pub open spec fn sel_wf(sel: Option<usize>, len: usize) -> bool {
    match sel {
        None => len == 0,
        Some(i) => i < len,
    }
}

/// Cursor after one step down: an empty list keeps no selection;
/// otherwise the cursor moves to the next entry, wrapping from the last
/// to the first, and an unset cursor lands on the first.
pub open spec fn sel_advance(sel: Option<usize>, len: usize) -> Option<usize> {
    if len == 0 {
        None
    } else {
        match sel {
            None => Some(0usize),
            Some(i) => if i + 1 >= len {
                Some(0usize)
            } else {
                Some((i + 1) as usize)
            },
        }
    }
}

/// Cursor after one step up: symmetric to `sel_advance`, wrapping from
/// the first entry to the last.
pub open spec fn sel_retreat(sel: Option<usize>, len: usize) -> Option<usize> {
    if len == 0 {
        None
    } else {
        match sel {
            None => Some(0usize),
            Some(i) => if i == 0 {
                Some((len - 1) as usize)
            } else {
                Some((i - 1) as usize)
            },
        }
    }
}

/// Cursor after the list was rebuilt to length `len`: unset on an empty
/// list, moved to the last entry when it fell off the end, set to the
/// first entry when the list just became non-empty.
pub open spec fn sel_clamp(sel: Option<usize>, len: usize) -> Option<usize> {
    if len == 0 {
        None
    } else {
        match sel {
            None => Some(0usize),
            Some(i) => if i >= len {
                Some((len - 1) as usize)
            } else {
                Some(i)
            },
        }
    }
}

/// The three cursor operations keep the cursor fitting the list.
pub proof fn lemma_sel_ops_wf(sel: Option<usize>, len: usize)
    requires
        sel_wf(sel, len),
    ensures
        sel_wf(sel_advance(sel, len), len),
        sel_wf(sel_retreat(sel, len), len),
        sel_wf(sel_clamp(sel, len), len),
{
}

/// The cursor after `k` steps down in a row.
pub open spec fn sel_advance_n(sel: Option<usize>, len: usize, k: nat) -> Option<usize>
    decreases k,
{
    if k == 0 {
        sel
    } else {
        sel_advance_n(sel_advance(sel, len), len, (k - 1) as nat)
    }
}

/// From any entry, stepping down once per entry below it reaches the
/// top.
proof fn lemma_advance_to_zero(i: usize, len: usize)
    requires
        i < len,
    ensures
        sel_advance_n(Some(i), len, (len - i) as nat) == Some(0usize),
    decreases len - i,
{
    if i + 1 < len {
        assert(sel_advance(Some(i), len) == Some((i + 1) as usize));
        lemma_advance_to_zero((i + 1) as usize, len);
    } else {
        assert(sel_advance(Some(i), len) == Some(0usize));
        assert(len - i == 1);
        assert(sel_advance_n(Some(0usize), len, 0) == Some(0usize));
    }
}

/// Selection wrap: on a non-empty list, advancing once per entry
/// returns the cursor from the top to the top, and one retreat from the
/// top wraps to the bottom.
pub proof fn lemma_selection_wrap(len: usize)
    requires
        len > 0,
    ensures
        sel_advance_n(Some(0usize), len, len as nat) == Some(0usize),
        sel_retreat(Some(0usize), len) == Some((len - 1) as usize),
{
    lemma_advance_to_zero(0usize, len);
}

/// Selection clamp: when the cursor sat on the last of `n` entries and
/// the list shrank to `m < n` entries, the cursor moves to the new last
/// entry, or unsets when nothing is left.
pub proof fn lemma_selection_clamp(n: usize, m: usize)
    requires
        0 < n,
        m < n,
    ensures
        sel_clamp(Some((n - 1) as usize), m) == if m == 0 {
            None
        } else {
            Some((m - 1) as usize)
        },
{
}

} // verus!
