//! Facts about the window: the lines it takes, and where the hovered item is
//! in it.

use super::lemmas::{
    arc_sum, lemma_arc_backward, lemma_arc_forward, lemma_arc_full, lemma_range_sum_grows,
    lemma_ring_index, lemma_rows_between_grows,
};
use super::model::{
    came_from, drew, drew_all, footer_ops, index_at_delta, move_below, moved_below, range_sum,
    rendered_in_turn, scan_page_end, total_height, Bound, Drawn, Growth, Rendering,
    ListView, SelectState,
};
use crate::backend::{asked, attempts, Call, CallLog, Op};
use crate::events::Movement;
use crate::layout::Layout;
use vstd::prelude::*;

verus! {

/// The lines that a range of items gets are the heights of the items, but for
/// the two ends of the window, which get what the window gives them.
pub proof fn lemma_rows_as_heights(s: SelectState, lo: int, hi: int)
    requires
        lo <= hi,
    ensures
        s.rows_between(lo, hi) == range_sum(s.heights(), lo, hi) - (if lo <= s.page_start < hi {
            s.heights()[s.page_start] - s.page_start_height
        } else {
            0
        }) - (if lo <= s.page_end < hi && s.page_end != s.page_start {
            s.heights()[s.page_end] - s.page_end_height
        } else {
            0
        }),
    decreases hi - lo,
{
    if lo < hi {
        lemma_rows_as_heights(s, lo, hi - 1);
    }
}

/// Rendering a range of items moves the layout down by the lines that the
/// items get, and leaves its columns and the size of the terminal alone.
pub proof fn lemma_layout_after(s: SelectState, from: int, to: int, carried: Layout)
    requires
        from <= to,
        0 <= s.page_start_height <= u16::MAX,
        0 <= s.page_end_height <= u16::MAX,
        carried.offset_y + s.rows_between(from, to) <= u16::MAX,
    ensures
        s.layout_after(from, to, carried).offset_y == carried.offset_y + s.rows_between(from, to),
        s.layout_after(from, to, carried).line_offset == carried.line_offset,
        s.layout_after(from, to, carried).offset_x == carried.offset_x,
        s.layout_after(from, to, carried).width == carried.width,
        s.layout_after(from, to, carried).height == carried.height,
    decreases to - from,
{
    if from < to {
        lemma_rows_between_grows(s, from, to - 1, to);
        lemma_layout_after(s, from, to - 1, carried);
    }
}

/// The items handed to the list for a range are one for each index, and
/// those for the beginning of the range come first.
pub proof fn lemma_drawn_between(s: SelectState, from: int, mid: int, to: int, carried: Layout)
    requires
        from <= mid <= to,
    ensures
        s.drawn_between(from, to, carried).len() == to - from,
        s.drawn_between(from, to, carried).take(mid - from) == s.drawn_between(from, mid, carried),
    decreases to - from,
{
    if mid < to {
        lemma_drawn_between(s, from, mid, to - 1, carried);
        assert(s.drawn_between(from, to, carried).take(mid - from) == s.drawn_between(
            from,
            to - 1,
            carried,
        ).take(mid - from));
    } else if from < to {
        lemma_drawn_between(s, from, to - 1, to - 1, carried);
        assert(s.drawn_between(from, to, carried).take(to - from) == s.drawn_between(
            from,
            to,
            carried,
        ));
    } else {
        assert(s.drawn_between(from, to, carried).take(0) == s.drawn_between(from, to, carried));
    }
}

/// A window takes no negative number of lines, nor does either of its parts
/// where it goes around the end of the list.
pub proof fn lemma_window_rows_not_negative(s: SelectState, list: ListView)
    requires
        s.wf(list),
        s.has_window(),
    ensures
        0 <= s.window_rows(list),
        s.page_end < s.page_start ==> 0 <= s.rows_between(s.page_start, list.len()) && 0
            <= s.rows_between(0, s.page_end + 1),
{
    lemma_rows_between_grows(s, s.page_start, list.len(), list.len());
    lemma_rows_between_grows(s, 0, s.page_end + 1, s.page_end + 1);
    if s.page_start <= s.page_end {
        lemma_rows_between_grows(
            s,
            s.page_start,
            s.page_end + 1,
            s.page_end + 1,
        );
    }
}

/// Handing one more item to the list once a plan has been rendered with
/// success is rendering the plan with that item added, up to the failure of
/// the list where it fails on the item; and so it is, where the list
/// succeeds, once the cursor has been asked to move below the item.
pub proof fn lemma_drew_one<E>(
    done: Seq<Drawn>,
    item: Drawn,
    listed: Seq<Rendering>,
    record: Seq<Rendering>,
    asked_before: Seq<Call<E>>,
    calls: Seq<Call<E>>,
    calls_item: Seq<Call<E>>,
    handed: Result<(), E>,
    moved: Result<(), E>,
)
    requires
        drew(done, listed, record, asked_before, calls, Ok::<(), E>(())),
        calls.len() <= calls_item.len(),
        calls_item.take(calls.len() as int) == calls,
    ensures
        handed is Err ==> drew(
            done.push(item),
            listed,
            record.push(
                Rendering {
                    item,
                    asked_before: calls.len() as int,
                    asked_after: calls_item.len() as int,
                    ok: false,
                },
            ),
            asked_before,
            calls_item,
            handed,
        ),
        drew(
            done.push(item),
            listed,
            record.push(
                Rendering {
                    item,
                    asked_before: calls.len() as int,
                    asked_after: calls_item.len() as int,
                    ok: true,
                },
            ),
            asked_before,
            calls_item.push(Call { op: move_below(item), result: moved }),
            moved,
        ),
{
    let base = listed.len() as int;
    let first = asked_before.len() as int;
    let plan = done.push(item);
    let failed = record.push(
        Rendering {
            item,
            asked_before: calls.len() as int,
            asked_after: calls_item.len() as int,
            ok: false,
        },
    );
    let passed = record.push(
        Rendering {
            item,
            asked_before: calls.len() as int,
            asked_after: calls_item.len() as int,
            ok: true,
        },
    );
    let calls_moved = calls_item.push(Call { op: move_below(item), result: moved });
    assert(failed.take(base) == listed) by {
        assert(failed.take(record.len() as int) == record);
        assert(failed.take(record.len() as int).take(base) == failed.take(base));
    }
    assert(passed.take(base) == listed) by {
        assert(passed.take(record.len() as int) == record);
        assert(passed.take(record.len() as int).take(base) == passed.take(base));
    }
    assert(calls_item.take(first) == asked_before) by {
        assert(calls_item.take(calls.len() as int).take(first) == calls_item.take(first));
    }
    assert(calls_moved.take(first) == asked_before) by {
        assert(calls_moved.take(calls_item.len() as int) == calls_item);
        assert(calls_moved.take(calls_item.len() as int).take(first) == calls_moved.take(first));
    }
    assert forall|k: int| base <= k < failed.len() implies (#[trigger] rendered_in_turn(
        plan,
        base,
        failed,
        first,
        calls_item,
        k,
    ) && rendered_in_turn(plan, base, passed, first, calls_moved, k)) by {
        if k < record.len() {
            assert(rendered_in_turn(done, base, record, first, calls, k));
            if k == record.len() - 1 {
                assert(record[k] == record.last());
            }
            assert(record[k].asked_after < calls.len());
            assert(calls_item.take(calls.len() as int)[record[k].asked_after]
                == calls_item[record[k].asked_after]);
        } else if k > base {
            assert(record[k - 1] == record.last());
        }
    }
    assert forall|k: int| base <= k < passed.len() implies #[trigger] rendered_in_turn(
        plan,
        base,
        passed,
        first,
        calls_moved,
        k,
    ) by {
        assert(rendered_in_turn(plan, base, failed, first, calls_item, k));
    }
    if moved is Ok {
        assert(moved->Ok_0 == ());
        assert(moved == Ok::<(), E>(moved->Ok_0));
    }
}

/// Rendering a second plan once a first one has been rendered with success is
/// rendering the two in order.
pub proof fn lemma_drew_then<E>(
    first: Seq<Drawn>,
    second: Seq<Drawn>,
    listed: Seq<Rendering>,
    between: Seq<Rendering>,
    record: Seq<Rendering>,
    asked_before: Seq<Call<E>>,
    asked_between: Seq<Call<E>>,
    asked_after: Seq<Call<E>>,
    done: Result<(), E>,
    r: Result<(), E>,
)
    requires
        first.len() > 0,
        done is Ok,
        drew(first, listed, between, asked_before, asked_between, done),
        drew(second, between, record, asked_between, asked_after, r),
    ensures
        drew(first + second, listed, record, asked_before, asked_after, r),
{
    assert(done->Ok_0 == ());
    assert(done == Ok::<(), E>(done->Ok_0));
    let plan = first + second;
    let base = listed.len() as int;
    let mid = between.len() as int;
    assert(record.take(base) == listed) by {
        assert(record.take(mid).take(base) == record.take(base));
    }
    assert(asked_after.take(asked_before.len() as int) == asked_before) by {
        assert(asked_after.take(asked_between.len() as int).take(asked_before.len() as int)
            == asked_after.take(asked_before.len() as int));
    }
    assert(between == record.take(mid));
    assert(asked_between == asked_after.take(asked_between.len() as int));
    assert forall|k: int| base <= k < record.len() implies #[trigger] rendered_in_turn(
        plan,
        base,
        record,
        asked_before.len() as int,
        asked_after,
        k,
    ) by {
        if k < mid {
            assert(rendered_in_turn(
                first,
                base,
                between,
                asked_before.len() as int,
                asked_between,
                k,
            ));
            assert(record[k] == between[k]);
            if k > base {
                assert(record[k - 1] == between[k - 1]);
            }
            if k == mid - 1 {
                assert(between[k] == between.last());
                assert(moved_below(between.last(), asked_between, done));
            }
            assert(between[k].asked_after < asked_between.len());
            assert(asked_after.take(asked_between.len() as int)[between[k].asked_after]
                == asked_after[between[k].asked_after]);
        } else {
            assert(rendered_in_turn(
                second,
                mid,
                record,
                asked_between.len() as int,
                asked_after,
                k,
            ));
        }
    }
    if record.len() == mid {
        assert(record == between);
    }
    if r is Ok {
        assert(r->Ok_0 == ());
        assert(r == Ok::<(), E>(r->Ok_0));
        assert(mid - base == first.len());
        assert(record.len() - mid == second.len());
        if second.len() == 0 {
            assert(asked_after == asked_between);
        }
    }
}

/// Where rendering a plan fails, whatever was to follow is not rendered.
pub proof fn lemma_drew_stops<E>(
    first: Seq<Drawn>,
    second: Seq<Drawn>,
    listed: Seq<Rendering>,
    record: Seq<Rendering>,
    asked_before: Seq<Call<E>>,
    asked_after: Seq<Call<E>>,
    r: Result<(), E>,
)
    requires
        r is Err,
        drew(first, listed, record, asked_before, asked_after, r),
    ensures
        drew(first + second, listed, record, asked_before, asked_after, r),
{
    let base = listed.len() as int;
    assert forall|k: int| base <= k < record.len() implies #[trigger] rendered_in_turn(
        first + second,
        base,
        record,
        asked_before.len() as int,
        asked_after,
        k,
    ) by {
        assert(rendered_in_turn(first, base, record, asked_before.len() as int, asked_after, k));
    }
}

/// Whether `first` is the terminal's record once the cursor has been moved
/// to the next line with success, where a line was begun; and the record as
/// it was, where none was.
pub open spec fn line_left<E>(layout: Layout, before: Seq<Call<E>>, first: Seq<Call<E>>) -> bool {
    if layout.line_offset != 0 {
        first == before.push(
            Call {
                op: Op::MoveCursorTo(layout.offset_x, (layout.offset_y + 1) as u16),
                result: Ok::<(), E>(()),
            },
        )
    } else {
        first == before
    }
}

/// A window has at least one item to render.
pub proof fn lemma_page_not_empty(s: SelectState, list: ListView, layout: Layout)
    requires
        s.wf(list),
        s.has_window(),
    ensures
        s.drawn_page(list, layout).len() > 0,
{
    let start = SelectState::first_line(layout);
    if s.page_end < s.page_start {
        lemma_drawn_between(s, s.page_start, list.len(), list.len(), start);
        lemma_drawn_between(
            s,
            0,
            s.page_end + 1,
            s.page_end + 1,
            s.layout_after(s.page_start, list.len(), start),
        );
    } else {
        lemma_drawn_between(s, s.page_start, s.page_end + 1, s.page_end + 1, start);
    }
}

/// Where rendering the items of the window fails, the list was rendered up
/// to that failure.
pub proof fn lemma_drew_page_stops<E>(
    s: SelectState,
    list: ListView,
    layout: Layout,
    listed: Seq<Rendering>,
    record: Seq<Rendering>,
    asked_before: Seq<Call<E>>,
    asked_first: Seq<Call<E>>,
    asked_after: Seq<Call<E>>,
    r: Result<(), E>,
)
    requires
        line_left(layout, asked_before, asked_first),
        r is Err,
        drew(s.drawn_page(list, layout), listed, record, asked_first, asked_after, r),
    ensures
        s.drew_page(list, layout, listed, record, asked_before, asked_after, r),
{
    let first = asked_first.len() as int;
    assert(asked_after.take(first) == asked_first);
    assert(asked_after.take(asked_before.len() as int) == asked_before) by {
        assert(asked_after.take(first).take(asked_before.len() as int) == asked_after.take(
            asked_before.len() as int,
        ));
    }
    if layout.line_offset != 0 {
        assert(asked_after[first - 1] == asked_after.take(first)[first - 1]);
    }
}

/// Where the items of the window have been rendered, and then what comes
/// below them has been asked for, the list was rendered.
pub proof fn lemma_drew_page_below<E>(
    s: SelectState,
    list: ListView,
    layout: Layout,
    listed: Seq<Rendering>,
    record: Seq<Rendering>,
    asked_before: Seq<Call<E>>,
    asked_first: Seq<Call<E>>,
    asked_items: Seq<Call<E>>,
    asked_after: Seq<Call<E>>,
    done: Result<(), E>,
    r: Result<(), E>,
)
    requires
        line_left(layout, asked_before, asked_first),
        s.drawn_page(list, layout).len() > 0,
        done is Ok,
        drew(s.drawn_page(list, layout), listed, record, asked_first, asked_items, done),
        asked(
            CallLog { calls: asked_items },
            CallLog { calls: asked_after },
            if s.is_paginating(list) {
                footer_ops(
                    layout.offset_x,
                    (layout.offset_y + s.rendered_rows(list, layout)) as u16,
                )
            } else {
                Seq::empty()
            },
            r,
        ),
    ensures
        s.drew_page(list, layout, listed, record, asked_before, asked_after, r),
{
    assert(done->Ok_0 == ());
    assert(done == Ok::<(), E>(done->Ok_0));
    let plan = s.drawn_page(list, layout);
    let first = asked_first.len() as int;
    let end = asked_items.len() as int;
    let below = if s.is_paginating(list) {
        footer_ops(layout.offset_x, (layout.offset_y + s.rendered_rows(list, layout)) as u16)
    } else {
        Seq::empty()
    };
    assert(asked_after.take(end) == asked_items) by {
        if below.len() > 0 {
            let made = choose|made: int|
                1 <= made <= below.len() && (r is Ok ==> made == below.len()) && asked_after
                    == asked_items + #[trigger] attempts(below, made, r);
            assert((asked_items + attempts(below, made, r)).take(end) == asked_items);
        } else {
            assert(asked_items.take(end) == asked_items);
        }
    }
    assert(asked_items.take(first) == asked_first);
    assert(asked_after.take(first) == asked_first) by {
        assert(asked_after.take(end).take(first) == asked_after.take(first));
    }
    assert(asked_after.take(asked_before.len() as int) == asked_before) by {
        assert(asked_after.take(first).take(asked_before.len() as int) == asked_after.take(
            asked_before.len() as int,
        ));
    }
    if layout.line_offset != 0 {
        assert(asked_after[first - 1] == asked_after.take(first)[first - 1]);
    }
    assert(record.len() - listed.len() == plan.len());
    assert(rendered_in_turn(
        plan,
        listed.len() as int,
        record,
        first,
        asked_items,
        record.len() - 1,
    ));
    assert(moved_below(record.last(), asked_items, Ok::<(), E>(())));
    assert(record.last().asked_after == end - 1);
    assert(asked_after.take(end)[end - 1] == asked_after[end - 1]);
    assert(asked_items.last() == asked_items[end - 1]);
    assert(drew_all(plan, listed, record, asked_after));
    assert(CallLog { calls: asked_after.take(end) } == CallLog { calls: asked_items });
}

/// Whether `end` is an end of the first page: an item after the first, before
/// which lines are left, with its height or with the lines that are left,
/// whichever is less.
pub open spec fn ends_first_page(hs: Seq<u16>, budget: int, end: Bound) -> bool {
    &&& 1 <= end.index < hs.len()
    &&& range_sum(hs, 0, end.index) < budget
    &&& end.height == if hs[end.index] < budget - range_sum(hs, 0, end.index) {
        hs[end.index] as int
    } else {
        budget - range_sum(hs, 0, end.index)
    }
}

/// Walking on from an end of the first page leads to an end of the first
/// page; and so does walking on from the first item, where it leaves lines and
/// is not the only one.
pub proof fn lemma_scan_page_end(hs: Seq<u16>, budget: int, i: int, acc: int, end: Bound)
    requires
        1 <= i <= hs.len(),
        acc == range_sum(hs, 0, i),
        i == 1 || ends_first_page(hs, budget, end),
        i == 1 ==> acc < budget && hs.len() >= 2,
    ensures
        ends_first_page(hs, budget, scan_page_end(hs, budget, i, acc, end)),
    decreases hs.len() - i,
{
    if i < hs.len() && acc < budget {
        let height = if hs[i] < budget - acc {
            hs[i] as int
        } else {
            budget - acc
        };
        lemma_scan_page_end(hs, budget, i + 1, acc + hs[i], Bound { index: i, height });
    }
}

/// The window at the top of a list that scrolls fits, where the first item
/// is less high than the lines left beside the footer.
pub proof fn lemma_first_page_fits(s: SelectState, list: ListView)
    requires
        s.wf(list),
        s.cache is Some,
        s.is_paginating(list),
        s.heights()[0] < list.budget(),
    ensures
        s.with_first_page(list).wf(list),
        s.with_first_page(list).window_fits(list),
        s.with_first_page(list).page_start == 0,
{
    let hs = s.heights();
    let budget = list.budget();
    let after = s.with_first_page(list);
    let kept = Bound { index: s.page_end, height: s.page_end_height };
    assert(range_sum(hs, 0, 1) == hs[0]) by {
        assert(range_sum(hs, 0, 0) == 0);
    }
    assert(hs.len() >= 2) by {
        if hs.len() == 1 {
            assert(total_height(hs) == hs[0]);
        }
    }
    lemma_scan_page_end(hs, budget, 1, hs[0] as int, kept);
    let end = scan_page_end(hs, budget, 1, hs[0] as int, kept);
    assert(after.page_end == end.index);
    assert(after.page_end_height == end.height);
    lemma_rows_as_heights(after, 0, end.index + 1);
    lemma_range_sum_grows(hs, 0, 0, end.index);
    assert(after.heights() == hs);
}

/// Whether the items share a page evenly depends on the measured heights
/// alone.
pub proof fn lemma_pages_evenly_by_heights(a: SelectState, b: SelectState, list: ListView)
    requires
        a.pages_evenly(list),
        a.cache == b.cache,
        a.height == b.height,
    ensures
        b.pages_evenly(list),
{
    let hs = a.heights();
    assert(b.heights() == hs);
    assert forall|i: int| 0 <= i < list.len() implies #[trigger] b.heights()[i] < list.budget() by {
        assert(hs[i] < list.budget());
    }
    if list.should_loop && list.len() >= 3 {
        assert forall|j: int| 0 <= j < list.len() implies total_height(b.heights())
            - #[trigger] b.heights()[j] + 1 >= list.budget() by {
            assert(total_height(hs) - hs[j] + 1 >= list.budget());
        }
    }
}

/// The lines that a range of items gets depend on the window and the
/// measured heights alone.
pub proof fn lemma_rows_by_window(a: SelectState, b: SelectState, lo: int, hi: int)
    requires
        a.cache == b.cache,
        a.page_start == b.page_start,
        a.page_end == b.page_end,
        a.page_start_height == b.page_start_height,
        a.page_end_height == b.page_end_height,
    ensures
        a.rows_between(lo, hi) == b.rows_between(lo, hi),
    decreases hi - lo,
{
    if lo < hi {
        lemma_rows_by_window(a, b, lo, hi - 1);
    }
}

/// Whether the window fits depends on the window and the measured heights
/// alone, and so do the lines that it takes.
pub proof fn lemma_window_fits_by_window(a: SelectState, b: SelectState, list: ListView)
    requires
        a.cache == b.cache,
        a.page_start == b.page_start,
        a.page_end == b.page_end,
        a.page_start_height == b.page_start_height,
        a.page_end_height == b.page_end_height,
    ensures
        a.window_rows(list) == b.window_rows(list),
        a.window_fits(list) == b.window_fits(list),
{
    lemma_rows_by_window(a, b, a.page_start, list.len());
    lemma_rows_by_window(a, b, 0, a.page_end + 1);
    lemma_rows_by_window(a, b, a.page_start, a.page_end + 1);
}

/// The index within a list of `len` items that stands for `i`, which may be
/// up to `len` places before the list or after it.
pub open spec fn ring(i: int, len: int) -> int {
    if i < 0 {
        i + len
    } else if i >= len {
        i - len
    } else {
        i
    }
}

/// Where a list loops, the neighbour `steps` steps from an item, `steps`
/// being at most the length, is the item that stands for the place that many
/// places on.
pub proof fn lemma_ring_neighbour(at: int, len: int, dir: int, steps: int)
    requires
        0 <= at < len,
        dir == 1 || dir == -1,
        1 <= steps <= len,
    ensures
        index_at_delta(at, len, true, dir * steps) == Some(ring(at + dir * steps, len)),
        0 <= ring(at + dir * steps, len) < len,
{
    lemma_ring_index(at, len, dir, steps);
    if dir == 1 {
        assert(dir * steps == steps) by (nonlinear_arith)
            requires
                dir == 1,
        ;
    } else {
        assert(dir * steps == -steps) by (nonlinear_arith)
            requires
                dir == -1,
        ;
    }
}

/// The heights passed around a looping list add up to more the further it
/// goes.
pub proof fn lemma_arc_grows(hs: Seq<u16>, at: int, dir: int, less: int, more: int)
    requires
        0 <= less <= more,
    ensures
        hs[at] <= arc_sum(hs, at, dir, less) <= arc_sum(hs, at, dir, more),
    decreases more,
{
    if less < more {
        lemma_arc_grows(hs, at, dir, less, more - 1);
    } else if 0 < less {
        lemma_arc_grows(hs, at, dir, less - 1, more - 1);
    }
}

/// Going around a looping list from an item is passing that item and then
/// going around from its neighbour.
pub proof fn lemma_arc_shift(hs: Seq<u16>, start: int, dir: int, steps: int)
    requires
        0 <= start < hs.len(),
        dir == 1 || dir == -1,
        0 <= steps < hs.len(),
    ensures
        arc_sum(hs, start, dir, steps + 1) == hs[start] + arc_sum(
            hs,
            ring(start + dir, hs.len() as int),
            dir,
            steps,
        ),
    decreases steps,
{
    let len = hs.len() as int;
    let next = ring(start + dir, len);
    lemma_ring_index(start, len, dir, steps + 1);
    if steps == 0 {
        assert(arc_sum(hs, start, dir, 0) == hs[start]);
        assert(arc_sum(hs, next, dir, 0) == hs[next]);
    } else {
        lemma_arc_shift(hs, start, dir, steps - 1);
        lemma_ring_index(next, len, dir, steps);
    }
}

/// Going around a looping list up to the last item but one passes every
/// item but the neighbour on the other side.
pub proof fn lemma_arc_but_one(hs: Seq<u16>, at: int, dir: int)
    requires
        0 <= at < hs.len(),
        2 <= hs.len(),
        dir == 1 || dir == -1,
    ensures
        arc_sum(hs, at, dir, hs.len() - 2) == total_height(hs) - hs[ring(
            at - dir,
            hs.len() as int,
        )],
{
    let len = hs.len() as int;
    lemma_arc_full(hs, at, dir);
    lemma_ring_index(at, len, dir, len - 1);
}

/// Whether `growth` is what is built around the hovered item once `near`
/// neighbours on the side the selection came from and `far` neighbours, none
/// or one, on the other side have been taken: the two ends are the last
/// neighbours taken, all of them are different items, only the last one taken
/// on the first side may show less than its height, and the lines taken are
/// those of the items, within the lines that are left beside the footer.
pub open spec fn has_taken(
    s: SelectState,
    list: ListView,
    dir: int,
    near: int,
    far: int,
    growth: Growth,
) -> bool {
    let hs = s.heights();
    let len = list.len();
    &&& 0 <= near
    &&& 0 <= far <= 1
    &&& near + far <= len - 1
    &&& (!list.should_loop ==> 0 <= s.at + dir * near < len && 0 <= s.at - dir * far < len)
    &&& growth.near.index == ring(s.at + dir * near, len)
    &&& growth.far.index == ring(s.at - dir * far, len)
    &&& 0 <= growth.near.height <= hs[growth.near.index]
    &&& (near == 0 ==> growth.near.height == hs[s.at])
    &&& growth.far.height == if far == 0 {
        hs[s.at] as int
    } else {
        1
    }
    &&& growth.rows == arc_sum(hs, s.at, dir, near) - hs[growth.near.index] + growth.near.height
        + far
    &&& growth.rows <= list.budget()
    &&& (growth.rows < list.budget() ==> growth.near.height == hs[growth.near.index])
}

/// Whether no further neighbour will be taken on the side the selection came
/// from, or every one up to `step` has been.
pub open spec fn taking_on(
    s: SelectState,
    list: ListView,
    dir: int,
    step: int,
    near: int,
    far: int,
    growth: Growth,
) -> bool {
    &&& near < step
    &&& growth.rows >= list.budget() || near == step - 1 || (!list.should_loop && !(0 <= s.at
        + dir * (near + 1) < list.len()))
    &&& (list.should_loop ==> far == 1 || growth.rows >= list.budget())
}

/// Taking further neighbours on the side the selection came from keeps the
/// window in shape. Returns how many neighbours have been taken there in the
/// end.
pub proof fn lemma_grow_near_takes(
    s: SelectState,
    list: ListView,
    dir: int,
    step: int,
    limit: int,
    growth: Growth,
    near: int,
    far: int,
) -> (taken: int)
    requires
        s.wf(list),
        s.hover_fits(list),
        dir == 1 || dir == -1,
        2 <= step,
        has_taken(s, list, dir, near, far, growth),
        taking_on(s, list, dir, step, near, far, growth),
    ensures
        near <= taken,
        has_taken(s, list, dir, taken, far, s.grow_near(list, dir, step, limit, growth)),
    decreases limit - step,
{
    let hs = s.heights();
    let len = list.len();
    let budget = list.budget();
    if step >= limit {
        near
    } else {
        let index = s.index_at(list, dir * step);
        let next = growth.take_near(hs, budget, index);
        if growth.rows >= budget {
            lemma_grow_near_takes(s, list, dir, step + 1, limit, next, near, far)
        } else if list.should_loop {
            // every neighbour so far has been taken whole, and one line of the
            // neighbour on the other side
            assert(step <= len - 2) by {
                if step >= len - 1 {
                    lemma_arc_grows(hs, s.at, dir, len - 2, step - 1);
                    lemma_arc_but_one(hs, s.at, dir);
                    assert(0 <= ring(s.at - dir, len) < len);
                }
            }
            lemma_ring_neighbour(s.at, len, dir, step);
            assert(next.near.index == ring(s.at + dir * step, len));
            assert(has_taken(s, list, dir, step, far, next));
            lemma_grow_near_takes(s, list, dir, step + 1, limit, next, step, far)
        } else if near == step - 1 && 0 <= s.at + dir * step < len {
            assert(index == Some(s.at + dir * step));
            lemma_ring_neighbour(s.at, len, dir, step);
            assert(has_taken(s, list, dir, step, far, next));
            lemma_grow_near_takes(s, list, dir, step + 1, limit, next, step, far)
        } else {
            assert(index is None) by {
                if dir == 1 {
                    assert(dir * step == step && dir * (near + 1) == near + 1);
                } else {
                    assert(dir * step == -step && dir * (near + 1) == -(near + 1));
                }
            }
            lemma_grow_near_takes(s, list, dir, step + 1, limit, next, near, far)
        }
    }
}

/// The first two neighbours are taken in shape: the one on the side the
/// selection came from and then the one on the other side. Returns how many
/// have been taken on either side, which is at least one in all.
pub proof fn lemma_first_neighbours_taken(s: SelectState, list: ListView, dir: int) -> (taken: (
    int,
    int,
))
    requires
        s.wf(list),
        s.hover_fits(list),
        dir == 1 || dir == -1,
    ensures
        ({
            let hs = s.heights();
            let own = Bound { index: s.at, height: hs[s.at] as int };
            let start = Growth { near: own, far: own, rows: hs[s.at] as int };
            let first = start.take_near(hs, list.budget(), s.index_at(list, dir));
            let second = first.take_far(list.budget(), s.index_at(list, -dir));
            &&& has_taken(s, list, dir, taken.0, taken.1, second)
            &&& taking_on(s, list, dir, 2, taken.0, taken.1, second)
            &&& taken.0 + taken.1 >= 1
        }),
{
    let hs = s.heights();
    let len = list.len();
    let budget = list.budget();
    let own = Bound { index: s.at, height: hs[s.at] as int };
    let start = Growth { near: own, far: own, rows: hs[s.at] as int };
    let first = start.take_near(hs, budget, s.index_at(list, dir));
    let second = first.take_far(budget, s.index_at(list, -dir));

    assert(hs.len() == len);
    assert(hs[s.at] < budget);
    assert(len >= 2) by {
        if len == 1 {
            assert(range_sum(hs, 0, 0) == 0);
            assert(total_height(hs) == hs[0]);
        }
    }
    assert(arc_sum(hs, s.at, dir, 0) == hs[s.at]);
    assert(has_taken(s, list, dir, 0, 0, start));

    let near: int = if s.index_at(list, dir) is Some {
        1
    } else {
        0
    };
    if list.should_loop {
        lemma_ring_neighbour(s.at, len, dir, 1);
        lemma_ring_neighbour(s.at, len, -dir, 1);
    }
    assert(dir * 1 == dir);
    assert((-dir) * 1 == -dir);
    if near == 1 {
        lemma_ring_neighbour(s.at, len, dir, 1);
        assert(first.near.index == ring(s.at + dir, len));
        assert(arc_sum(hs, s.at, dir, 1) == hs[s.at] + hs[first.near.index]);
    }
    assert(has_taken(s, list, dir, near, 0, first));

    let far: int = if first.rows < budget && s.index_at(list, -dir) is Some {
        1
    } else {
        0
    };
    if far == 1 {
        lemma_ring_neighbour(s.at, len, -dir, 1);
        assert(second.far.index == ring(s.at - dir, len));
        if list.should_loop && len == 2 {
            lemma_arc_full(hs, s.at, dir);
        }
        assert(near + far <= len - 1);
    }
    assert(has_taken(s, list, dir, near, far, second));
    (near, far)
}

/// The window built from what has been taken around the hovered item fits,
/// and the hovered item is in it.
pub proof fn lemma_taken_window_fits(
    s: SelectState,
    list: ListView,
    moved: Movement,
    near: int,
    far: int,
)
    requires
        s.wf(list),
        s.hover_fits(list),
        moved == Movement::Up || moved == Movement::Down,
        has_taken(s, list, came_from(moved), near, far, s.grown(list, moved)),
        near + far >= 1,
    ensures
        s.with_page_around(list, moved).wf(list),
        s.with_page_around(list, moved).window_fits(list),
        s.with_page_around(list, moved).hover_is_shown(),
{
    let hs = s.heights();
    let len = list.len();
    let dir = came_from(moved);
    let g = s.grown(list, moved);
    let t = s.with_page_around(list, moved);
    let anchor = g.far.index;
    assert(hs.len() == len);
    assert(t.heights() == hs);
    assert(0 <= ring(s.at + dir * near, len) < len);
    assert(0 <= anchor < len);
    // the heights from the neighbour on the other side to the last one taken
    if far == 1 {
        lemma_arc_shift(hs, anchor, dir, near);
        assert(ring(anchor + dir, len) == s.at);
    }
    assert(arc_sum(hs, anchor, dir, near + far) == arc_sum(hs, s.at, dir, near) + far
        * hs[anchor]);
    if dir == 1 {
        lemma_arc_forward(hs, anchor, near + far);
        assert(t.page_start == anchor);
        assert(t.page_end == ring(anchor + near + far, len));
    } else {
        lemma_arc_backward(hs, anchor, near + far);
        assert(t.page_end == anchor);
        assert(t.page_start == ring(anchor - near - far, len));
    }
    if t.page_end < t.page_start {
        lemma_rows_as_heights(t, t.page_start, len);
        lemma_rows_as_heights(t, 0, t.page_end + 1);
    } else {
        lemma_rows_as_heights(t, t.page_start, t.page_end + 1);
    }
}

/// The window built anew around the hovered item fits, and the hovered item
/// is in it, where that item is less high than the lines left beside the
/// footer.
pub proof fn lemma_page_around_fits(s: SelectState, list: ListView, moved: Movement)
    requires
        s.wf(list),
        s.hover_fits(list),
        moved == Movement::Up || moved == Movement::Down,
    ensures
        s.with_page_around(list, moved).wf(list),
        s.with_page_around(list, moved).window_fits(list),
        s.with_page_around(list, moved).hover_is_shown(),
        s.with_page_around(list, moved).window_rows(list) <= list.page_size - 1,
{
    let hs = s.heights();
    let dir = came_from(moved);
    let own = Bound { index: s.at, height: hs[s.at] as int };
    let start = Growth { near: own, far: own, rows: hs[s.at] as int };
    let first = start.take_near(hs, list.budget(), s.index_at(list, dir));
    let second = first.take_far(list.budget(), s.index_at(list, -dir));
    let (near, far) = lemma_first_neighbours_taken(s, list, dir);
    let taken = lemma_grow_near_takes(s, list, dir, 2, list.budget(), second, near, far);
    lemma_taken_window_fits(s, list, moved, taken, far);
}

/// Where the items share a page evenly, a window built around any item of
/// the list fits.
pub proof fn lemma_hover_fits_evenly(s: SelectState, list: ListView)
    requires
        s.pages_evenly(list),
        0 <= s.at < list.len(),
    ensures
        s.hover_fits(list),
{
    assert(s.heights()[s.at] < list.budget());
}

/// The window built anew around the hovered item fits, and the hovered item
/// is in it, where the items share a page evenly.
pub proof fn lemma_page_around_fits_evenly(s: SelectState, list: ListView, moved: Movement)
    requires
        s.wf(list),
        s.pages_evenly(list),
        0 <= s.at < list.len(),
        moved == Movement::Up || moved == Movement::Down,
    ensures
        s.with_page_around(list, moved).wf(list),
        s.with_page_around(list, moved).pages_evenly(list),
        s.with_page_around(list, moved).window_fits(list),
        s.with_page_around(list, moved).hover_is_shown(),
{
    lemma_hover_fits_evenly(s, list);
    lemma_page_around_fits(s, list, moved);
    lemma_pages_evenly_by_heights(s, s.with_page_around(list, moved), list);
}

/// The window at the top of a list fits, where the items share a page
/// evenly.
pub proof fn lemma_first_page_fits_evenly(s: SelectState, list: ListView)
    requires
        s.wf(list),
        s.pages_evenly(list),
    ensures
        s.with_first_page(list).wf(list),
        s.with_first_page(list).pages_evenly(list),
        s.with_first_page(list).window_fits(list),
{
    assert(s.heights()[0] < list.budget());
    lemma_first_page_fits(s, list);
    lemma_pages_evenly_by_heights(s, s.with_first_page(list), list);
}

} // verus!
