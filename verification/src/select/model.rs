//! The mathematical model of a paginated list: what a list reports, the state
//! of the selection, and the transitions between states.

use crate::backend::{asked, colored, Call, CallLog, Color, Op};
use crate::events::{KeyEvent, Movement};
use crate::layout::{Layout, RenderRegion};
use vstd::prelude::*;

verus! {

/// What a list reports, as plain values.
pub struct ListView {
    /// For each index, whether the item there can be hovered.
    pub selectable: Seq<bool>,
    /// The number of lines the list may take on screen.
    pub page_size: nat,
    /// Whether moving past one end leads to the other.
    pub should_loop: bool,
    /// The number of lines an item takes under a layout.
    pub height_at: spec_fn(int, Layout) -> u16,
}

impl ListView {
    /// The number of items.
    pub open spec fn len(self) -> int {
        self.selectable.len() as int
    }

    /// The lines left for items once one line is kept for the footer.
    pub open spec fn budget(self) -> int {
        self.page_size - 1
    }

    /// The height of every item when measured for `layout`: items are measured
    /// as if they started at the beginning of a line.
    pub open spec fn heights(self, layout: Layout) -> Seq<u16> {
        Seq::new(
            self.selectable.len(),
            |i: int| (self.height_at)(i, Layout { line_offset: 0, ..layout }),
        )
    }

    /// Whether an index holds an item that can be hovered.
    pub open spec fn is_selectable(self, i: int) -> bool {
        0 <= i < self.len() && self.selectable[i]
    }

    /// What a selection can be built on: at least one item can be hovered, and
    /// the page size is at least 5 and fits the width of a height.
    pub open spec fn supports_selection(self) -> bool {
        &&& self.len() <= usize::MAX
        &&& 5 <= self.page_size <= u16::MAX
        &&& exists|i: int| self.is_selectable(i)
    }
}

/// The sum of the heights at the indices from `lo` up to, not including, `hi`.
pub open spec fn range_sum(hs: Seq<u16>, lo: int, hi: int) -> int
    decreases hi - lo,
{
    if hi <= lo {
        0
    } else {
        range_sum(hs, lo, hi - 1) + hs[hi - 1]
    }
}

/// The sum of all heights.
pub open spec fn total_height(hs: Seq<u16>) -> int {
    range_sum(hs, 0, hs.len() as int)
}

/// The least index from `i` on that can be hovered, or the length when there
/// is none.
pub open spec fn next_from(sel: Seq<bool>, i: int) -> int
    decreases sel.len() - i,
{
    if i < 0 || i >= sel.len() {
        sel.len() as int
    } else if sel[i] {
        i
    } else {
        next_from(sel, i + 1)
    }
}

/// The greatest index up to `i` that can be hovered, or -1 when there is none.
pub open spec fn prev_from(sel: Seq<bool>, i: int) -> int
    decreases i + 1,
{
    if i < 0 || i >= sel.len() {
        -1
    } else if sel[i] {
        i
    } else {
        prev_from(sel, i - 1)
    }
}

/// The heights of all items as last measured, with the layout they were
/// measured for.
pub struct HeightCache {
    pub heights: Seq<u16>,
    pub layout: Layout,
}

/// An item as it is handed to the list to be rendered.
pub struct Drawn {
    /// The index of the item.
    pub index: int,
    /// Whether the item is the hovered one.
    pub hovered: bool,
    /// The layout that the item is rendered with.
    pub layout: Layout,
}

/// One call of a list to render an item: the item as it was handed over, how
/// many calls the terminal had on record before and after, and whether the
/// list answered with success.
pub struct Rendering {
    pub item: Drawn,
    pub asked_before: int,
    pub asked_after: int,
    pub ok: bool,
}

/// What a list has been asked so far.
pub struct RenderLog {
    /// The calls to render an item, first to last.
    pub items: Seq<Rendering>,
    /// The number of calls for the height of an item.
    pub measured: nat,
}

/// What is asked of the terminal once an item has been rendered: to move the
/// cursor to the row below it.
pub open spec fn move_below(item: Drawn) -> Op {
    Op::MoveCursorTo(item.layout.offset_x, (item.layout.offset_y + item.layout.max_height) as u16)
}

/// Whether the terminal's record `calls` ends with the move below the item of
/// `rendering`, made right after the list had rendered it and answered with
/// `r`.
pub open spec fn moved_below<E>(rendering: Rendering, calls: Seq<Call<E>>, r: Result<(), E>)
    -> bool {
    calls.len() == rendering.asked_after + 1 && calls.last() == (Call {
        op: move_below(rendering.item),
        result: r,
    })
}

/// Whether the call at `k` of a list's record is the one that a plan asks for
/// in its turn: it hands over the item of the plan, it starts where the call
/// before it and the move below that item left the terminal, and, unless it
/// is the last on record, it succeeded and the cursor was moved below its
/// item with success.
pub open spec fn rendered_in_turn<E>(
    plan: Seq<Drawn>,
    base: int,
    record: Seq<Rendering>,
    first_call: int,
    calls: Seq<Call<E>>,
    k: int,
) -> bool {
    let it = record[k];
    &&& it.item == plan[k - base]
    &&& it.asked_before == (if k == base {
        first_call
    } else {
        record[k - 1].asked_after + 1
    })
    &&& 0 <= it.asked_before <= it.asked_after <= calls.len()
    &&& (k < record.len() - 1 ==> it.ok && it.asked_after < calls.len() && calls[it.asked_after]
        == (Call { op: move_below(it.item), result: Ok::<(), E>(()) }))
}

/// Whether list and terminal were asked to render the items of `plan` in
/// order, each followed by a move of the cursor below it, up to the first
/// call that failed. `listed` and `record` are the list's record before and
/// after, `asked_before` and `asked_after` the terminal's; what the list asks
/// of the terminal while it renders an item lies between. `r` is `Ok` only if
/// every item was rendered and every move made, with success; else it is the
/// failure of the last move, or the list failed on the last item on record,
/// and nothing was asked after that.
pub open spec fn drew<E>(
    plan: Seq<Drawn>,
    listed: Seq<Rendering>,
    record: Seq<Rendering>,
    asked_before: Seq<Call<E>>,
    asked_after: Seq<Call<E>>,
    r: Result<(), E>,
) -> bool {
    let base = listed.len() as int;
    let n = record.len() - base;
    &&& 0 <= n <= plan.len()
    &&& record.take(base) == listed
    &&& asked_before.len() <= asked_after.len()
    &&& asked_after.take(asked_before.len() as int) == asked_before
    &&& forall|k: int|
        base <= k < record.len() ==> #[trigger] rendered_in_turn(
            plan,
            base,
            record,
            asked_before.len() as int,
            asked_after,
            k,
        )
    &&& (r is Ok ==> n == plan.len() && if n == 0 {
        asked_after == asked_before
    } else {
        record.last().ok && moved_below(record.last(), asked_after, r)
    })
    &&& (r is Err ==> n >= 1 && if record.last().ok {
        moved_below(record.last(), asked_after, r)
    } else {
        asked_after.len() == record.last().asked_after
    })
}

/// The footer of a list that scrolls.
pub open spec fn footer() -> Seq<char> {
    "(Move up and down to reveal more choices)"@
}

/// What is asked of the terminal below the window of a list that scrolls:
/// the footer in dark grey, and the cursor on the row below it.
pub open spec fn footer_ops(column: u16, row: u16) -> Seq<Op> {
    colored(footer(), Color::DarkGrey) + seq![Op::MoveCursorTo(column, row)]
}

/// Whether, by the records, every item of `plan` was rendered and the cursor
/// moved below the last of them, with success.
pub open spec fn drew_all<E>(
    plan: Seq<Drawn>,
    listed: Seq<Rendering>,
    record: Seq<Rendering>,
    calls: Seq<Call<E>>,
) -> bool {
    &&& plan.len() > 0
    &&& record.len() - listed.len() == plan.len()
    &&& record.last().ok
    &&& 0 <= record.last().asked_after < calls.len()
    &&& calls[record.last().asked_after].result is Ok
}

/// The state of a selection.
pub struct SelectState {
    /// The hovered index. Any number: one at or beyond the length hovers nothing.
    pub at: int,
    /// The first index that can be hovered.
    pub first_selectable: int,
    /// The last index that can be hovered.
    pub last_selectable: int,
    /// The first index of the window.
    pub page_start: int,
    /// The last index of the window, or `usize::MAX` while there is no window.
    /// Where it is less than `page_start`, the window runs from `page_start` to
    /// the end of the list and on from its beginning to `page_end`.
    pub page_end: int,
    /// The lines shown of the item at `page_start`.
    pub page_start_height: int,
    /// The lines shown of the item at `page_end`.
    pub page_end_height: int,
    /// The sum of the measured heights.
    pub height: int,
    /// The measured heights, once measured.
    pub cache: Option<HeightCache>,
}

/// One end of a window being built: an index and the lines shown of its item.
pub struct Bound {
    pub index: int,
    pub height: int,
}

/// The state of a selection just built on a list.
pub open spec fn initial_state(list: ListView) -> SelectState {
    SelectState {
        at: next_from(list.selectable, 0),
        first_selectable: next_from(list.selectable, 0),
        last_selectable: prev_from(list.selectable, list.len() - 1),
        page_start: 0,
        page_end: usize::MAX as int,
        page_start_height: u16::MAX as int,
        page_end_height: u16::MAX as int,
        height: u16::MAX as int,
        cache: None,
    }
}

/// The index `delta` steps from `at` in a list of `len` items: past an end it
/// goes on from the other end where the list loops, and there is none where it
/// does not.
pub open spec fn index_at_delta(at: int, len: int, looping: bool, delta: int) -> Option<int> {
    if delta > 0 {
        if at + delta < len {
            Some(at + delta)
        } else if looping {
            Some(at + delta - len)
        } else {
            None
        }
    } else if looping {
        Some((at + len + delta) % len)
    } else if at + delta >= 0 {
        Some(at + delta)
    } else {
        None
    }
}

impl SelectState {
    /// What holds of the state of every selection on `list`: the list
    /// supports a selection; the first and the last index that can be hovered
    /// are known, and the first is not after the last; the window, once there
    /// is one, lies within the list; and the measured heights are those that
    /// the list reports.
    pub open spec fn wf(self, list: ListView) -> bool {
        &&& list.supports_selection()
        &&& 0 <= self.at
        &&& self.first_selectable == next_from(list.selectable, 0)
        &&& self.last_selectable == prev_from(list.selectable, list.len() - 1)
        &&& self.first_selectable <= self.last_selectable
        &&& list.is_selectable(self.first_selectable)
        &&& list.is_selectable(self.last_selectable)
        &&& 0 <= self.page_start < list.len()
        &&& (self.page_end == usize::MAX || 0 <= self.page_end < list.len())
        &&& 0 <= self.page_start_height <= u16::MAX
        &&& 0 <= self.page_end_height <= u16::MAX
        &&& (self.cache matches Some(c) ==> c.heights == list.heights(c.layout) && self.height
            == total_height(c.heights))
    }

    /// Whether the first and the last index that can be hovered are known:
    /// the part of [`wf`](SelectState::wf) that the moves of the hovered item
    /// rest on.
    pub open spec fn knows_ends(self, list: ListView) -> bool {
        &&& list.supports_selection()
        &&& 0 <= self.at
        &&& self.first_selectable == next_from(list.selectable, 0)
        &&& self.last_selectable == prev_from(list.selectable, list.len() - 1)
    }

    /// Whether a window has been computed.
    pub open spec fn has_window(self) -> bool {
        self.page_end != usize::MAX
    }

    /// The measured heights. Meaningful once they have been measured.
    pub open spec fn heights(self) -> Seq<u16> {
        self.cache->Some_0.heights
    }

    /// Whether the items take more lines than the page has.
    pub open spec fn is_paginating(self, list: ListView) -> bool {
        self.height > list.page_size
    }

    /// Whether the hovered index is at or beyond an end of the window, so that
    /// the window has to be computed anew.
    pub open spec fn at_outside_page(self) -> bool {
        if self.page_start < self.page_end {
            self.at <= self.page_start || self.at >= self.page_end
        } else {
            self.at <= self.page_start && self.at >= self.page_end
        }
    }

    /// Whether a window can be built around the hovered item: the heights are
    /// measured and take more lines than the page has, and the hovered index
    /// is within the list.
    pub open spec fn can_turn_page(self, list: ListView) -> bool {
        self.cache is Some && self.at < list.len() && self.is_paginating(list)
    }

    /// The index `delta` steps from the hovered one.
    pub open spec fn index_at(self, list: ListView, delta: int) -> Option<int> {
        index_at_delta(self.at, list.len(), list.should_loop, delta)
    }

    /// The next index that can be hovered: past the last one it is the first
    /// where the list loops, and the last where it does not.
    pub open spec fn next_selectable(self, list: ListView) -> int {
        if self.at >= self.last_selectable {
            if list.should_loop {
                self.first_selectable
            } else {
                self.last_selectable
            }
        } else {
            next_from(list.selectable, self.at + 1)
        }
    }

    /// The previous index that can be hovered: before the first one it is the
    /// last where the list loops, and the first where it does not.
    pub open spec fn prev_selectable(self, list: ListView) -> int {
        if self.at <= self.first_selectable {
            if list.should_loop {
                self.last_selectable
            } else {
                self.first_selectable
            }
        } else if self.at <= list.len() {
            prev_from(list.selectable, self.at - 1)
        } else {
            prev_from(list.selectable, list.len() - 1)
        }
    }

    /// Whether the heights are those measured for `layout`, so that none has
    /// to be asked for.
    pub open spec fn is_measured_for(self, layout: Layout) -> bool {
        self.cache matches Some(c) && c.layout == layout
    }

    /// The number of heights that the list is asked for when the heights are
    /// to be those for `layout`: none where they are already, and one for
    /// each item where they are not.
    pub open spec fn heights_to_ask(self, list: ListView, layout: Layout) -> nat {
        if self.is_measured_for(layout) {
            0
        } else {
            list.selectable.len()
        }
    }

    /// The state once the heights have been measured for `layout`.
    pub open spec fn measured(self, list: ListView, layout: Layout) -> SelectState {
        SelectState {
            height: total_height(list.heights(layout)),
            cache: Some(HeightCache { heights: list.heights(layout), layout }),
            ..self
        }
    }

    /// The lines that the item at `i` gets on screen: the two ends of the
    /// window get what the window gives them, every other item its height.
    pub open spec fn rows_of(self, i: int) -> int {
        if i == self.page_start {
            self.page_start_height
        } else if i == self.page_end {
            self.page_end_height
        } else {
            self.heights()[i] as int
        }
    }

    /// The lines that the items from `lo` up to, not including, `hi` get.
    pub open spec fn rows_between(self, lo: int, hi: int) -> int
        decreases hi - lo,
    {
        if hi <= lo {
            0
        } else {
            self.rows_between(lo, hi - 1) + self.rows_of(hi - 1)
        }
    }

    /// The lines that the window takes: its items run from `page_start` to
    /// `page_end`, around the end of the list where `page_end` comes first.
    pub open spec fn window_rows(self, list: ListView) -> int {
        if self.page_end < self.page_start {
            self.rows_between(self.page_start, list.len()) + self.rows_between(
                0,
                self.page_end + 1,
            )
        } else {
            self.rows_between(self.page_start, self.page_end + 1)
        }
    }

    /// Whether the item at `i` is in the window.
    pub open spec fn in_window(self, i: int) -> bool {
        if self.page_end < self.page_start {
            i >= self.page_start || i <= self.page_end
        } else {
            self.page_start <= i <= self.page_end
        }
    }
}

/// The window's end as found by walking on from index `i` with `acc` lines
/// taken so far: every item reached before the lines are used up becomes the
/// end, with as many lines as are left for it.
pub open spec fn scan_page_end(hs: Seq<u16>, budget: int, i: int, acc: int, end: Bound) -> Bound
    decreases hs.len() - i,
{
    if i < 0 || i >= hs.len() || acc >= budget {
        end
    } else {
        scan_page_end(
            hs,
            budget,
            i + 1,
            acc + hs[i],
            Bound {
                index: i,
                height: if hs[i] < budget - acc {
                    hs[i] as int
                } else {
                    budget - acc
                },
            },
        )
    }
}

impl SelectState {
    /// The state with the window at the top of the list. Where the items take
    /// more lines than the page has, the window starts with the whole first
    /// item and ends where the lines are used up; where the first item alone
    /// uses them up, the end stays as it was. Otherwise the window is the
    /// whole list.
    pub open spec fn with_first_page(self, list: ListView) -> SelectState {
        let hs = self.heights();
        if self.is_paginating(list) {
            let end = scan_page_end(
                hs,
                list.budget(),
                1,
                hs[0] as int,
                Bound { index: self.page_end, height: self.page_end_height },
            );
            SelectState {
                page_start: 0,
                page_start_height: hs[0] as int,
                page_end: end.index,
                page_end_height: end.height,
                ..self
            }
        } else {
            SelectState {
                page_start: 0,
                page_start_height: hs[0] as int,
                page_end: list.len() - 1,
                page_end_height: hs[list.len() - 1] as int,
                ..self
            }
        }
    }
}

/// A window being built around the hovered item: the end on the side the
/// selection came from, the end on the other side, and the lines taken.
pub struct Growth {
    /// The end on the side the selection came from.
    pub near: Bound,
    /// The end on the other side.
    pub far: Bound,
    /// The lines taken so far.
    pub rows: int,
}

impl Growth {
    /// Takes the item at `index`, where there is one and lines are left, as
    /// the new end on the side the selection came from, with its height or
    /// with the lines that are left, whichever is less.
    pub open spec fn take_near(self, hs: Seq<u16>, budget: int, index: Option<int>) -> Growth {
        match index {
            Some(i) if self.rows < budget => {
                let height = if hs[i] < budget - self.rows {
                    hs[i] as int
                } else {
                    budget - self.rows
                };
                Growth { near: Bound { index: i, height }, rows: self.rows + height, ..self }
            },
            _ => self,
        }
    }

    /// Takes the item at `index`, where there is one and lines are left, as
    /// the end on the other side, with one line whatever its height.
    pub open spec fn take_far(self, budget: int, index: Option<int>) -> Growth {
        match index {
            Some(i) if self.rows < budget => Growth {
                far: Bound { index: i, height: 1 },
                rows: self.rows + 1,
                ..self
            },
            _ => self,
        }
    }
}

/// The direction the selection came from: the opposite of where it moved.
pub open spec fn came_from(moved: Movement) -> int {
    if moved == Movement::Down {
        -1
    } else {
        1
    }
}

impl SelectState {
    /// Takes the neighbours `step`, `step + 1`, .. up to, not including,
    /// `limit` steps away on the side the selection came from.
    pub open spec fn grow_near(
        self,
        list: ListView,
        dir: int,
        step: int,
        limit: int,
        growth: Growth,
    ) -> Growth
        decreases limit - step,
    {
        if step >= limit {
            growth
        } else {
            self.grow_near(
                list,
                dir,
                step + 1,
                limit,
                growth.take_near(self.heights(), list.budget(), self.index_at(list, dir * step)),
            )
        }
    }

    /// The window built around the hovered item after a move: first the
    /// neighbour on the side the selection came from, then the neighbour on
    /// the other side, then further neighbours on the first side, each as
    /// long as lines are left.
    pub open spec fn grown(self, list: ListView, moved: Movement) -> Growth {
        let hs = self.heights();
        let dir = came_from(moved);
        let own = Bound { index: self.at, height: hs[self.at] as int };
        let start = Growth { near: own, far: own, rows: hs[self.at] as int };
        let first = start.take_near(hs, list.budget(), self.index_at(list, dir));
        let second = first.take_far(list.budget(), self.index_at(list, -dir));
        self.grow_near(list, dir, 2, list.budget(), second)
    }

    /// The state with the window built anew around the hovered item after a
    /// move up or down. After a move down the window starts on the side the
    /// selection came from; after a move up it ends there.
    pub open spec fn with_page_around(self, list: ListView, moved: Movement) -> SelectState {
        let g = self.grown(list, moved);
        if moved == Movement::Down {
            SelectState {
                page_start: g.near.index,
                page_start_height: g.near.height,
                page_end: g.far.index,
                page_end_height: g.far.height,
                ..self
            }
        } else {
            SelectState {
                page_start: g.far.index,
                page_start_height: g.far.height,
                page_end: g.near.index,
                page_end_height: g.near.height,
                ..self
            }
        }
    }

    /// The state with the window built anew where the hovered item is at or
    /// beyond an end of it, and unchanged where it is not.
    pub open spec fn with_page_kept(self, list: ListView, moved: Movement) -> SelectState {
        if self.at_outside_page() {
            self.with_page_around(list, moved)
        } else {
            self
        }
    }
}

impl SelectState {
    /// Whether the list scrolls and its items share a page evenly: the
    /// heights are measured and take more lines than the page has; every
    /// item is less high than the lines left beside the footer; and in a list
    /// of three or more items that loops, the items without any one of them
    /// take, with one line for that one, at least those lines.
    pub open spec fn pages_evenly(self, list: ListView) -> bool {
        let hs = self.heights();
        &&& self.cache is Some
        &&& self.is_paginating(list)
        &&& forall|i: int| 0 <= i < list.len() ==> #[trigger] hs[i] < list.budget()
        &&& (list.should_loop && list.len() >= 3 ==> forall|j: int|
            0 <= j < list.len() ==> total_height(hs) - #[trigger] hs[j] + 1 >= list.budget())
    }

    /// Whether a window built around the hovered item fits: the heights are
    /// measured and take more lines than the page has; the hovered index is
    /// within the list, and its item is less high than the lines left beside
    /// the footer; and in a list of three or more items that loops, the items
    /// without any one of them take, with one line for that one, at least
    /// those lines.
    pub open spec fn hover_fits(self, list: ListView) -> bool {
        let hs = self.heights();
        &&& self.cache is Some
        &&& self.is_paginating(list)
        &&& 0 <= self.at < list.len()
        &&& hs[self.at] < list.budget()
        &&& (list.should_loop && list.len() >= 3 ==> forall|j: int|
            0 <= j < list.len() ==> total_height(hs) - #[trigger] hs[j] + 1 >= list.budget())
    }

    /// Whether there is a window of two or more items that takes no more
    /// lines than are left beside the footer.
    pub open spec fn window_fits(self, list: ListView) -> bool {
        &&& self.has_window()
        &&& self.page_start != self.page_end
        &&& self.window_rows(list) <= list.budget()
    }

    /// Whether the hovered item is in the window.
    pub open spec fn hover_is_shown(self) -> bool {
        self.in_window(self.at)
    }
}

impl SelectState {
    /// The state that hovers `at` and is otherwise the same.
    pub open spec fn at_index(self, at: int) -> SelectState {
        SelectState { at, ..self }
    }

    /// The index that a page movement turns the window around: the
    /// neighbour `delta` steps away, or the hovered index itself where there
    /// is no such neighbour.
    pub open spec fn page_anchor(self, list: ListView, delta: int) -> int {
        match self.index_at(list, delta) {
            Some(i) => i,
            None => self.at,
        }
    }

    /// Whether a page movement can scroll from here: the heights are measured
    /// and the index that the window is turned around is within the list.
    pub open spec fn can_page(self, list: ListView, delta: int) -> bool {
        self.cache is Some && self.page_anchor(list, delta) < list.len()
    }

    /// Whether a page up is a plain move to the first item that can be
    /// hovered: it is where the list does not scroll, and where the window
    /// starts at the top of a list that does not loop.
    pub open spec fn page_up_is_home(self, list: ListView) -> bool {
        !self.is_paginating(list) || (!list.should_loop && self.page_start == 0)
    }

    /// Whether a page down is a plain move to the last item that can be
    /// hovered: it is where the list does not scroll, and where the window
    /// ends at the bottom of a list that does not loop.
    pub open spec fn page_down_is_end(self, list: ListView) -> bool {
        !self.is_paginating(list) || (!list.should_loop && self.page_end + 1 == list.len())
    }

    /// The state after a page up that scrolls. The window is built so that
    /// the hovered item comes last in it. Where that window starts at the top
    /// of a list that does not loop, the first item that can be hovered is
    /// hovered and the window is put at the top; otherwise the item hovered is
    /// the next one after the window's start that can be hovered.
    pub open spec fn page_up(self, list: ListView) -> SelectState {
        let turned = self.at_index(self.page_anchor(list, -1)).with_page_around(
            list,
            Movement::Down,
        );
        if turned.page_start == 0 && !list.should_loop {
            turned.at_index(self.first_selectable).with_first_page(list)
        } else {
            turned.at_index(turned.at_index(turned.page_start).next_selectable(list))
        }
    }

    /// The state after a page down that scrolls. The window is built so that
    /// the hovered item comes first in it. Where that window ends at the
    /// bottom of the list, the window is built anew to end there and the last
    /// item that can be hovered is hovered; otherwise the item hovered is the
    /// last one before the window's end that can be hovered.
    pub open spec fn page_down(self, list: ListView) -> SelectState {
        let turned = self.at_index(self.page_anchor(list, 1)).with_page_around(
            list,
            Movement::Up,
        );
        if turned.page_end + 1 == list.len() {
            turned.at_index(turned.page_end).with_page_around(list, Movement::Down).at_index(
                self.last_selectable,
            )
        } else {
            turned.at_index(turned.at_index(turned.page_end).prev_selectable(list))
        }
    }

    /// The state after a movement and the direction moved in, before the
    /// window follows; or nothing where the movement is not made.
    pub open spec fn moved_by(self, list: ListView, movement: Movement) -> Option<
        (SelectState, Movement),
    > {
        match movement {
            Movement::Up => if list.should_loop || self.at > self.first_selectable {
                Some((self.at_index(self.prev_selectable(list)), Movement::Up))
            } else {
                None
            },
            Movement::Down => if list.should_loop || self.at < self.last_selectable {
                Some((self.at_index(self.next_selectable(list)), Movement::Down))
            } else {
                None
            },
            Movement::PageUp => if self.page_up_is_home(list) {
                if self.at <= self.first_selectable {
                    None
                } else {
                    Some((self.at_index(self.first_selectable), Movement::Up))
                }
            } else {
                Some((self.page_up(list), Movement::Up))
            },
            Movement::PageDown => if self.page_down_is_end(list) {
                if self.at >= self.last_selectable {
                    None
                } else {
                    Some((self.at_index(self.last_selectable), Movement::Down))
                }
            } else {
                Some((self.page_down(list), Movement::Down))
            },
            Movement::Home => if self.at != self.first_selectable {
                Some((self.at_index(self.first_selectable), Movement::Up))
            } else {
                None
            },
            Movement::End => if self.at != self.last_selectable {
                Some((self.at_index(self.last_selectable), Movement::Down))
            } else {
                None
            },
        }
    }

    /// The state after a key that is made use of, or nothing where the key is
    /// not: a key that stands for no movement, and a movement that is not
    /// made. Where the list scrolls, the window follows the move.
    pub open spec fn after_key(self, list: ListView, key: KeyEvent) -> Option<SelectState> {
        match Movement::of_key(key) {
            Some(movement) => match self.moved_by(list, movement) {
                Some((moved, direction)) => Some(
                    if moved.is_paginating(list) {
                        moved.with_page_kept(list, direction)
                    } else {
                        moved
                    },
                ),
                None => None,
            },
            None => None,
        }
    }

    /// Whether every window that `key` leads to building fits: each is built
    /// around an item for which [`hover_fits`](SelectState::hover_fits)
    /// holds, and one put at the top of the list starts with an item less
    /// high than the lines left beside the footer. A page movement that
    /// scrolls builds a window around the neighbour of the hovered item, and
    /// where that window ends at the bottom of the list, another around its
    /// last item; where it starts at the top of a list that does not loop,
    /// the window is put at the top. Any movement builds a window around the
    /// newly hovered item, where that item is at or beyond an end of the
    /// window.
    pub open spec fn rebuilds_fit(self, list: ListView, key: KeyEvent) -> bool {
        match Movement::of_key(key) {
            Some(movement) => match self.moved_by(list, movement) {
                Some((moved, _)) => {
                    &&& (movement == Movement::PageUp && !self.page_up_is_home(list) ==> {
                        let anchored = self.at_index(self.page_anchor(list, -1));
                        let turned = anchored.with_page_around(list, Movement::Down);
                        &&& anchored.hover_fits(list)
                        &&& (turned.page_start == 0 && !list.should_loop ==> turned.heights()[0]
                            < list.budget())
                    })
                    &&& (movement == Movement::PageDown && !self.page_down_is_end(list) ==> {
                        let anchored = self.at_index(self.page_anchor(list, 1));
                        let turned = anchored.with_page_around(list, Movement::Up);
                        &&& anchored.hover_fits(list)
                        &&& (turned.page_end + 1 == list.len() ==> turned.at_index(
                            turned.page_end,
                        ).hover_fits(list))
                    })
                    &&& (moved.at_outside_page() ==> moved.hover_fits(list))
                },
                None => true,
            },
            None => true,
        }
    }

    /// Whether a page down from here hovers an item further on: there is an
    /// item that can be hovered after the hovered one and before the end of
    /// the window that the page down builds; or the page down leads to the
    /// last item that can be hovered, as it does where the window ends at
    /// the bottom of the list.
    pub open spec fn page_down_finds_item(self, list: ListView) -> bool {
        let turned = self.at_index(self.page_anchor(list, 1)).with_page_around(
            list,
            Movement::Up,
        );
        self.page_down_is_end(list) || turned.page_end + 1 == list.len() || exists|j: int|
            self.at < j < turned.page_end && #[trigger] list.is_selectable(j)
    }

    /// The state after a key has been pressed `presses` times; a key that is
    /// not made use of leaves the state as it is.
    pub open spec fn after_presses(self, list: ListView, key: KeyEvent, presses: nat)
        -> SelectState
        decreases presses,
    {
        if presses == 0 {
            self
        } else {
            let once = match self.after_key(list, key) {
                Some(after) => after,
                None => self,
            };
            once.after_presses(list, key, (presses - 1) as nat)
        }
    }

    /// Whether a key can be taken in this state. A window is only built from
    /// measured heights and around an index within the list: so a page
    /// movement that scrolls needs both, and any other movement needs the
    /// heights where the window has to follow it.
    pub open spec fn takes_key(self, list: ListView, key: KeyEvent) -> bool {
        match Movement::of_key(key) {
            Some(Movement::PageUp) if !self.page_up_is_home(list) => self.can_page(list, -1),
            Some(Movement::PageDown) if !self.page_down_is_end(list) => self.can_page(list, 1),
            Some(movement) => match self.moved_by(list, movement) {
                Some((moved, _)) => moved.is_paginating(list) && moved.at_outside_page()
                    ==> moved.cache is Some,
                None => true,
            },
            None => true,
        }
    }

    /// The state after the hovered index has been set to `at`: where the list
    /// scrolls, the window is put at the top if `at` is beyond the list, and
    /// follows the move if it is not.
    pub open spec fn hovering(self, list: ListView, at: int) -> SelectState {
        let moved = if self.at >= list.len() || self.at < at {
            Movement::Down
        } else {
            Movement::Up
        };
        let set = self.at_index(at);
        if set.is_paginating(list) {
            if at >= list.len() {
                set.with_first_page(list)
            } else {
                set.with_page_kept(list, moved)
            }
        } else {
            set
        }
    }

    /// Whether the hovered index can be set to `at` in this state: the
    /// heights must have been measured where the window has to change.
    pub open spec fn can_hover(self, list: ListView, at: int) -> bool {
        let set = self.at_index(at);
        set.is_paginating(list) && (at >= list.len() || set.at_outside_page())
            ==> self.cache is Some
    }

    /// The state in which the list is rendered for `layout`: the heights are
    /// measured for it, and the window is put at the top if there was none.
    pub open spec fn shown(self, list: ListView, layout: Layout) -> SelectState {
        let measured = self.measured(list, layout);
        if measured.has_window() {
            measured
        } else {
            measured.with_first_page(list)
        }
    }

    /// The lines that the rendered list takes below the row where it starts:
    /// one to leave a line that is begun, those of the window, and one for
    /// the footer where the list scrolls.
    pub open spec fn rendered_rows(self, list: ListView, layout: Layout) -> int {
        (if layout.line_offset != 0 {
            1int
        } else {
            0int
        }) + self.window_rows(list) + (if self.is_paginating(list) {
            1int
        } else {
            0int
        })
    }

    /// The lines that the list reports for itself: one to leave a line that
    /// is begun, and then all its lines, or a page of them where it scrolls,
    /// but never less than the hovered item takes, with the footer where the
    /// list scrolls.
    pub open spec fn reported_rows(self, list: ListView, layout: Layout) -> int {
        let own = if 0 <= self.at < list.len() {
            self.heights()[self.at] as int
        } else {
            0
        };
        let least = own + (if self.is_paginating(list) {
            1int
        } else {
            0int
        });
        let most = if self.height < list.page_size {
            self.height
        } else {
            list.page_size as int
        };
        (if layout.line_offset != 0 {
            1int
        } else {
            0int
        }) + (if most < least {
            least
        } else {
            most
        })
    }

    /// Whether list and terminal were asked to render the list in this state
    /// for `layout`, up to the first call that failed: first to move the
    /// cursor to the next line where a line is begun; then to render the
    /// items of the window in order, each followed by a move of the cursor
    /// below it, as [`drew`] says; and where the list scrolls, to write the
    /// footer and to move the cursor below it. `r` is `Ok` only if all of it
    /// was asked for and succeeded; else it is the failure of the last call
    /// on the terminal's record, or the list failed on the last item on its
    /// record, and nothing was asked after that.
    pub open spec fn drew_page<E>(
        self,
        list: ListView,
        layout: Layout,
        listed: Seq<Rendering>,
        record: Seq<Rendering>,
        asked_before: Seq<Call<E>>,
        asked_after: Seq<Call<E>>,
        r: Result<(), E>,
    ) -> bool {
        let plan = self.drawn_page(list, layout);
        let begun = layout.line_offset != 0;
        let first = asked_before.len() + if begun {
            1int
        } else {
            0int
        };
        let below = if self.is_paginating(list) {
            footer_ops(layout.offset_x, (layout.offset_y + self.rendered_rows(list, layout)) as u16)
        } else {
            Seq::empty()
        };
        &&& asked_before.len() <= asked_after.len()
        &&& asked_after.take(asked_before.len() as int) == asked_before
        &&& record.take(listed.len() as int) == listed
        &&& (begun ==> first <= asked_after.len() && asked_after[first - 1].op
            == Op::MoveCursorTo(layout.offset_x, (layout.offset_y + 1) as u16))
        &&& if begun && asked_after[first - 1].result is Err {
            r == asked_after[first - 1].result && asked_after.len() == first && record == listed
        } else if drew_all(plan, listed, record, asked_after) {
            let end = record.last().asked_after + 1;
            &&& drew(plan, listed, record, asked_after.take(first), asked_after.take(end), Ok(()))
            &&& asked(
                CallLog { calls: asked_after.take(end) },
                CallLog { calls: asked_after },
                below,
                r,
            )
        } else {
            r is Err && drew(plan, listed, record, asked_after.take(first), asked_after, r)
        }
    }

    /// The layout that rendering starts with: where a line is begun, it
    /// starts on the next one.
    pub open spec fn first_line(layout: Layout) -> Layout {
        if layout.line_offset != 0 {
            Layout { line_offset: 0, offset_y: (layout.offset_y + 1) as u16, ..layout }
        } else {
            layout
        }
    }

    /// The layout below the item at `i`, `carried` being the layout of the
    /// item before it.
    pub open spec fn layout_below(self, i: int, carried: Layout) -> Layout {
        let given = self.item_layout(i, carried);
        Layout { offset_y: (given.offset_y + given.max_height) as u16, ..given }
    }

    /// The layout below the items from `from` up to, not including, `to`,
    /// rendered one below the other from `carried` on.
    pub open spec fn layout_after(self, from: int, to: int, carried: Layout) -> Layout
        decreases to - from,
    {
        if to <= from {
            carried
        } else {
            self.layout_below(to - 1, self.layout_after(from, to - 1, carried))
        }
    }

    /// The items from `from` up to, not including, `to`, as they are handed
    /// to the list when they are rendered one below the other from `carried`
    /// on.
    pub open spec fn drawn_between(self, from: int, to: int, carried: Layout) -> Seq<Drawn>
        decreases to - from,
    {
        if to <= from {
            Seq::empty()
        } else {
            self.drawn_between(from, to - 1, carried).push(
                Drawn {
                    index: to - 1,
                    hovered: to - 1 == self.at,
                    layout: self.item_layout(to - 1, self.layout_after(from, to - 1, carried)),
                },
            )
        }
    }

    /// The items of the window as they are handed to the list when they are
    /// rendered one below the other from `start` on: from `page_start` to
    /// `page_end`, around the end of the list where `page_end` comes first.
    pub open spec fn drawn_window(self, list: ListView, start: Layout) -> Seq<Drawn> {
        if self.page_end < self.page_start {
            self.drawn_between(self.page_start, list.len(), start) + self.drawn_between(
                0,
                self.page_end + 1,
                self.layout_after(self.page_start, list.len(), start),
            )
        } else {
            self.drawn_between(self.page_start, self.page_end + 1, start)
        }
    }

    /// The items of the window as they are handed to the list when the
    /// window is rendered for `layout`.
    pub open spec fn drawn_page(self, list: ListView, layout: Layout) -> Seq<Drawn> {
        self.drawn_window(list, SelectState::first_line(layout))
    }

    /// The layout that the item at `i` is rendered with, `carried` being the
    /// layout of the item before it: the first item of the window shows its
    /// last lines, the last item its first lines, and every other item all of
    /// its lines.
    pub open spec fn item_layout(self, i: int, carried: Layout) -> Layout {
        if i == self.page_start {
            Layout {
                max_height: self.page_start_height as u16,
                render_region: RenderRegion::Bottom,
                ..carried
            }
        } else if i == self.page_end {
            Layout {
                max_height: self.page_end_height as u16,
                render_region: RenderRegion::Top,
                ..carried
            }
        } else {
            Layout { max_height: self.heights()[i], ..carried }
        }
    }
}

} // verus!
