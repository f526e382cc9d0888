//! Facts about the model that the verified functions rest on.

use super::model::{
    index_at_delta, next_from, prev_from, range_sum, total_height, Growth, ListView, SelectState,
};
use crate::events::Movement;
use vstd::arithmetic::div_mod::{
    lemma_fundamental_div_mod, lemma_fundamental_div_mod_converse, lemma_mod_bound,
    lemma_small_mod,
};
use vstd::prelude::*;

verus! {

/// The sum of the heights of the item at `at` and of its neighbours up to
/// `steps` steps away in the direction `dir`, around the ends of the list.
pub open spec fn arc_sum(hs: Seq<u16>, at: int, dir: int, steps: int) -> int
    decreases steps,
{
    if steps <= 0 {
        hs[at] as int
    } else {
        arc_sum(hs, at, dir, steps - 1) + hs[index_at_delta(
            at,
            hs.len() as int,
            true,
            dir * steps,
        )->Some_0]
    }
}

/// `next_from` finds the least index from `i` on that can be hovered.
pub proof fn lemma_next_from(sel: Seq<bool>, i: int)
    requires
        0 <= i <= sel.len(),
    ensures
        i <= next_from(sel, i) <= sel.len(),
        next_from(sel, i) < sel.len() ==> sel[next_from(sel, i)],
        forall|j: int| i <= j < next_from(sel, i) ==> !#[trigger] sel[j],
    decreases sel.len() - i,
{
    if i < sel.len() && !sel[i] {
        lemma_next_from(sel, i + 1);
    }
}

/// `prev_from` finds the greatest index up to `i` that can be hovered.
pub proof fn lemma_prev_from(sel: Seq<bool>, i: int)
    requires
        -1 <= i < sel.len(),
    ensures
        -1 <= prev_from(sel, i) <= i,
        prev_from(sel, i) >= 0 ==> sel[prev_from(sel, i)],
        forall|j: int| prev_from(sel, i) < j <= i ==> !#[trigger] sel[j],
    decreases i + 1,
{
    if i >= 0 && !sel[i] {
        lemma_prev_from(sel, i - 1);
    }
}

/// A sum of heights grows with the range it is taken over.
pub proof fn lemma_range_sum_grows(hs: Seq<u16>, lo: int, mid: int, hi: int)
    requires
        lo <= mid <= hi,
    ensures
        0 <= range_sum(hs, lo, mid) <= range_sum(hs, lo, hi),
    decreases hi - lo,
{
    if mid < hi {
        lemma_range_sum_grows(hs, lo, mid, hi - 1);
    } else if lo < mid {
        lemma_range_sum_grows(hs, lo, mid - 1, hi - 1);
    }
}

/// Stepping `back` places back from `at` around a list of `len` items, `back`
/// being at most `len`, stays on the place of `at` within the list and goes
/// around at most once.
pub proof fn lemma_step_back(at: int, len: int, back: int)
    requires
        0 <= at,
        0 < len,
        0 <= back <= len,
    ensures
        (at + len - back) % len == if at % len >= back {
            at % len - back
        } else {
            at % len + len - back
        },
{
    let q = at / len;
    let r = at % len;
    lemma_fundamental_div_mod(at, len);
    if r >= back {
        assert(at + len - back == (q + 1) * len + (r - back)) by (nonlinear_arith)
            requires
                at == len * q + r,
        ;
        lemma_fundamental_div_mod_converse(at + len - back, len, q + 1, r - back);
    } else {
        assert(at + len - back == q * len + (r + len - back)) by (nonlinear_arith)
            requires
                at == len * q + r,
        ;
        lemma_fundamental_div_mod_converse(at + len - back, len, q, r + len - back);
    }
}

/// A sum of heights over a range is the sum over its two parts.
pub proof fn lemma_range_sum_split(hs: Seq<u16>, lo: int, mid: int, hi: int)
    requires
        lo <= mid <= hi,
    ensures
        range_sum(hs, lo, hi) == range_sum(hs, lo, mid) + range_sum(hs, mid, hi),
    decreases hi - mid,
{
    if mid < hi {
        lemma_range_sum_split(hs, lo, mid, hi - 1);
    }
}

/// Where a list loops, the neighbour `steps` steps from an item, `steps`
/// being at most the length, is the item that many places on, around the
/// ends.
pub proof fn lemma_ring_index(at: int, len: int, dir: int, steps: int)
    requires
        0 <= at < len,
        dir == 1 || dir == -1,
        1 <= steps <= len,
    ensures
        index_at_delta(at, len, true, dir * steps) == Some(
            if dir == 1 {
                if at + steps < len {
                    at + steps
                } else {
                    at + steps - len
                }
            } else {
                if steps <= at {
                    at - steps
                } else {
                    at + len - steps
                }
            },
        ),
{
    if dir == -1 {
        lemma_step_back(at, len, steps);
        lemma_small_mod(at as nat, len as nat);
    }
}

/// Going forward around a looping list, the heights passed add up to those
/// of one range, or of two once the end has been passed.
pub proof fn lemma_arc_forward(hs: Seq<u16>, at: int, steps: int)
    requires
        0 <= at < hs.len(),
        0 <= steps < hs.len(),
    ensures
        arc_sum(hs, at, 1, steps) == if at + steps < hs.len() {
            range_sum(hs, at, at + steps + 1)
        } else {
            range_sum(hs, at, hs.len() as int) + range_sum(hs, 0, at + steps + 1 - hs.len())
        },
    decreases steps,
{
    let len = hs.len() as int;
    if steps == 0 {
        assert(range_sum(hs, at, at) == 0);
    } else {
        lemma_arc_forward(hs, at, steps - 1);
        lemma_ring_index(at, len, 1, steps);
        if at + steps == len {
            assert(range_sum(hs, 0, 0) == 0);
        }
    }
}

/// Going backward around a looping list, the heights passed add up to those
/// of one range, or of two once the beginning has been passed.
pub proof fn lemma_arc_backward(hs: Seq<u16>, at: int, steps: int)
    requires
        0 <= at < hs.len(),
        0 <= steps < hs.len(),
    ensures
        arc_sum(hs, at, -1, steps) == if steps <= at {
            range_sum(hs, at - steps, at + 1)
        } else {
            range_sum(hs, 0, at + 1) + range_sum(hs, hs.len() + at - steps, hs.len() as int)
        },
    decreases steps,
{
    let len = hs.len() as int;
    if steps == 0 {
        assert(range_sum(hs, at, at) == 0);
    } else {
        lemma_arc_backward(hs, at, steps - 1);
        lemma_ring_index(at, len, -1, steps);
        if steps <= at {
            lemma_range_sum_split(hs, at - steps, at - steps + 1, at + 1);
            assert(range_sum(hs, at - steps, at - steps) == 0);
        } else {
            lemma_range_sum_split(hs, len + at - steps, len + at - steps + 1, len);
            assert(range_sum(hs, len + at - steps, len + at - steps) == 0);
            if steps == at + 1 {
                assert(range_sum(hs, len, len) == 0);
            }
        }
    }
}

/// Once around a looping list, in either direction, every height has been
/// passed once.
pub proof fn lemma_arc_full(hs: Seq<u16>, at: int, dir: int)
    requires
        0 <= at < hs.len(),
        dir == 1 || dir == -1,
    ensures
        arc_sum(hs, at, dir, hs.len() - 1) == total_height(hs),
{
    let len = hs.len() as int;
    if dir == 1 {
        lemma_arc_forward(hs, at, len - 1);
        lemma_range_sum_split(hs, 0, at, len);
    } else {
        lemma_arc_backward(hs, at, len - 1);
        lemma_range_sum_split(hs, 0, at + 1, len);
    }
}

/// The lines that a range of items gets grow with the range.
pub proof fn lemma_rows_between_grows(s: SelectState, lo: int, mid: int, hi: int)
    requires
        lo <= mid <= hi,
        0 <= s.page_start_height,
        0 <= s.page_end_height,
    ensures
        0 <= s.rows_between(lo, mid) <= s.rows_between(lo, hi),
    decreases hi - lo,
{
    if mid < hi {
        lemma_rows_between_grows(s, lo, mid, hi - 1);
    } else if lo < mid {
        lemma_rows_between_grows(s, lo, mid - 1, hi - 1);
    }
}

/// No neighbour of an index that is not negative has a negative index.
pub proof fn lemma_index_not_negative(at: int, len: int, looping: bool, delta: int)
    requires
        0 <= at,
        0 < len,
    ensures
        index_at_delta(at, len, looping, delta) matches Some(i) ==> 0 <= i,
{
    if delta <= 0 && looping {
        lemma_mod_bound(at + len + delta, len);
    }
}

/// No end of a window that is being built gets a negative index.
pub proof fn lemma_grow_near_not_negative(
    s: SelectState,
    list: ListView,
    dir: int,
    step: int,
    limit: int,
    growth: Growth,
)
    requires
        0 <= s.at,
        0 < list.len(),
        0 <= growth.near.index,
        0 <= growth.far.index,
    ensures
        0 <= s.grow_near(list, dir, step, limit, growth).near.index,
        0 <= s.grow_near(list, dir, step, limit, growth).far.index,
    decreases limit - step,
{
    if step < limit {
        lemma_index_not_negative(s.at, list.len(), list.should_loop, dir * step);
        lemma_grow_near_not_negative(
            s,
            list,
            dir,
            step + 1,
            limit,
            growth.take_near(s.heights(), list.budget(), s.index_at(list, dir * step)),
        );
    }
}

/// No end of a window built around the hovered item has a negative index.
pub proof fn lemma_page_around_not_negative(s: SelectState, list: ListView, moved: Movement)
    requires
        0 <= s.at,
        0 < list.len(),
    ensures
        0 <= s.with_page_around(list, moved).page_start,
        0 <= s.with_page_around(list, moved).page_end,
        s.with_page_around(list, moved).at == s.at,
{
    let hs = s.heights();
    let dir = super::model::came_from(moved);
    let own = super::model::Bound { index: s.at, height: hs[s.at] as int };
    let start = Growth { near: own, far: own, rows: hs[s.at] as int };
    lemma_index_not_negative(s.at, list.len(), list.should_loop, dir);
    lemma_index_not_negative(s.at, list.len(), list.should_loop, -dir);
    let first = start.take_near(hs, list.budget(), s.index_at(list, dir));
    let second = first.take_far(list.budget(), s.index_at(list, -dir));
    lemma_grow_near_not_negative(s, list, dir, 2, list.budget(), second);
}

/// The next index that can be hovered is one that can be hovered.
pub proof fn lemma_next_selectable(s: SelectState, list: ListView)
    requires
        list.supports_selection(),
        s.first_selectable == next_from(list.selectable, 0),
        s.last_selectable == prev_from(list.selectable, list.len() - 1),
        0 <= s.at,
    ensures
        list.is_selectable(s.next_selectable(list)),
{
    let sel = list.selectable;
    let witness = choose|i: int| list.is_selectable(i);
    lemma_next_from(sel, 0);
    lemma_prev_from(sel, sel.len() - 1);
    assert(sel[witness]);
    if s.at < s.last_selectable {
        lemma_next_from(sel, s.at + 1);
        assert(sel[s.last_selectable]);
    }
}

/// The previous index that can be hovered is one that can be hovered.
pub proof fn lemma_prev_selectable(s: SelectState, list: ListView)
    requires
        list.supports_selection(),
        s.first_selectable == next_from(list.selectable, 0),
        s.last_selectable == prev_from(list.selectable, list.len() - 1),
        0 <= s.at,
    ensures
        list.is_selectable(s.prev_selectable(list)),
{
    let sel = list.selectable;
    let witness = choose|i: int| list.is_selectable(i);
    lemma_next_from(sel, 0);
    lemma_prev_from(sel, sel.len() - 1);
    assert(sel[witness]);
    if s.at > s.first_selectable && s.at <= list.len() {
        lemma_prev_from(sel, s.at - 1);
        assert(sel[s.first_selectable]);
    }
}

/// Once the lines are used up, no further neighbour is taken.
pub proof fn lemma_grow_near_full(
    s: SelectState,
    list: ListView,
    dir: int,
    step: int,
    limit: int,
    growth: Growth,
)
    requires
        growth.rows >= list.budget(),
    ensures
        s.grow_near(list, dir, step, limit, growth) == growth,
    decreases limit - step,
{
    if step < limit {
        lemma_grow_near_full(s, list, dir, step + 1, limit, growth);
    }
}

} // verus!
