//! A list that scrolls: the selection keeps a window of items on screen and
//! moves the hovered item through the list.

pub mod laws;
pub mod lemmas;
pub mod model;
pub mod window;

use crate::backend::{
    all_done, asked, colored, lemma_asked_on, lemma_asked_one, write_colored, Backend, Color, Op,
};
use crate::events::{KeyEvent, Movement};
use crate::layout::{Layout, RenderRegion};
use crate::widget::Widget;
use lemmas::{
    arc_sum, lemma_arc_full, lemma_grow_near_full, lemma_next_from, lemma_prev_from,
    lemma_range_sum_grows, lemma_ring_index, lemma_rows_between_grows, lemma_step_back,
};
use model::{
    came_from, drew, footer, footer_ops, initial_state, next_from, prev_from, range_sum,
    scan_page_end, total_height, Bound, Growth,
};
pub use model::{Drawn, HeightCache, ListView, RenderLog, Rendering, SelectState};
use vstd::pervasive::unreached;
use vstd::prelude::*;

verus! {

/// A list of items that can be rendered one by one.
///
/// What a list reports must not change while a selection holds it: rendering
/// or measuring an item leaves [`view`](List::view) as it was. A list keeps
/// count of the items it is asked to render: each call is on record in
/// [`rendered`](List::rendered).
pub trait List {
    /// What the list reports.
    spec fn view(&self) -> ListView;

    /// What the list has been asked to render so far.
    spec fn rendered(&self) -> RenderLog;

    /// Renders the item at `index` within `layout.max_height` lines. Whatever
    /// it asks of the terminal comes after what is on the terminal's record.
    fn render_item<B: Backend>(
        &mut self,
        index: usize,
        hovered: bool,
        layout: Layout,
        backend: &mut B,
    ) -> (r: Result<(), B::Error>)
        requires
            index < old(self)@.len(),
        ensures
            final(self)@ == old(self)@,
            final(self).rendered().items == old(self).rendered().items.push(
                Rendering {
                    item: Drawn { index: index as int, hovered, layout },
                    asked_before: old(backend)@.calls.len() as int,
                    asked_after: final(backend)@.calls.len() as int,
                    ok: r is Ok,
                },
            ),
            final(self).rendered().measured == old(self).rendered().measured,
            old(backend)@.calls.len() <= final(backend)@.calls.len(),
            final(backend)@.calls.take(old(backend)@.calls.len() as int) == old(backend)@.calls,
    ;

    /// Whether the item at `index` can be hovered. Items that cannot are
    /// skipped by the navigation keys.
    fn is_selectable(&self, index: usize) -> (b: bool)
        requires
            index < self@.len(),
        ensures
            b == self@.selectable[index as int],
    ;

    /// The number of lines that the list may take. A list with more lines
    /// than this scrolls.
    fn page_size(&self) -> (n: usize)
        ensures
            n == self@.page_size,
    ;

    /// Whether moving past the last item leads to the first, and back.
    fn should_loop(&self) -> (b: bool)
        ensures
            b == self@.should_loop,
    ;

    /// The number of lines that the item at `index` takes under `layout`.
    fn height_at(&mut self, index: usize, layout: Layout) -> (h: u16)
        requires
            index < old(self)@.len(),
        ensures
            h == (old(self)@.height_at)(index as int, layout),
            final(self)@ == old(self)@,
            final(self).rendered() == (RenderLog {
                measured: old(self).rendered().measured + 1,
                ..old(self).rendered()
            }),
    ;

    /// The number of items.
    fn len(&self) -> (n: usize)
        ensures
            n == self@.len(),
    ;

    /// Whether the list has no items.
    fn is_empty(&self) -> (b: bool)
        ensures
            b == (self@.len() == 0),
    {
        self.len() == 0
    }
}

struct Heights {
    heights: Vec<u16>,
    prev_layout: Layout,
}

/// A widget to select a single item from a list. It can also be used to keep
/// track of movements within a list.
pub struct Select<L> {
    first_selectable: usize,
    last_selectable: usize,
    at: usize,
    page_start: usize,
    page_end: usize,
    page_start_height: u16,
    page_end_height: u16,
    height: u16,
    heights: Option<Heights>,
    /// The underlying list.
    pub list: L,
}

impl<L> Select<L> {
    /// The underlying list.
    pub closed spec fn items(&self) -> L {
        self.list
    }

    /// The state of the selection.
    pub closed spec fn view(&self) -> SelectState {
        SelectState {
            at: self.at as int,
            first_selectable: self.first_selectable as int,
            last_selectable: self.last_selectable as int,
            page_start: self.page_start as int,
            page_end: self.page_end as int,
            page_start_height: self.page_start_height as int,
            page_end_height: self.page_end_height as int,
            height: self.height as int,
            cache: match self.heights {
                Some(h) => Some(HeightCache { heights: h.heights@, layout: h.prev_layout }),
                None => None,
            },
        }
    }
}

impl<L: core::ops::Index<usize>> Select<L> {
    /// The item that is hovered.
    pub fn selected(&self) -> (item: &L::Output)
        requires
            vstd::std_specs::core::IndexSpec::index_req(&self.items(), &(self@.at as usize)),
        ensures
            call_ensures(
                <L as core::ops::Index<usize>>::index,
                (&self.items(), self@.at as usize),
                item,
            ),
    {
        core::ops::Index::index(&self.list, self.at)
    }
}

impl<L: core::ops::IndexMut<usize>> Select<L> {
    /// The item that is hovered, to be changed. Calls `IndexMut::index_mut` of
    /// the list with the hovered index, which is assumed to return wherever
    /// indexing is allowed. Nothing is known of the list afterwards; the
    /// rest of the selection is untouched.
    #[verifier::external_body]
    pub fn selected_mut(&mut self) -> (item: &mut L::Output)
        requires
            vstd::std_specs::core::IndexSpec::index_req(
                &old(self).items(),
                &(old(self)@.at as usize),
            ),
        ensures
            final(self)@ == old(self)@,
    {
        &mut self.list[self.at]
    }
}

impl<L: List> Select<L> {
    /// What the list reports.
    pub open spec fn reports(&self) -> ListView {
        self.items()@
    }

    /// What holds of every selection: [`SelectState::wf`] of its state and
    /// its list.
    pub open spec fn wf(&self) -> bool {
        self@.wf(self.reports())
    }

    /// Whether the items share a page evenly and the window fits: see
    /// [`SelectState::pages_evenly`] and [`SelectState::window_fits`].
    pub open spec fn keeps_page(&self) -> bool {
        self@.pages_evenly(self.reports()) && self@.window_fits(self.reports())
    }

    /// Creates a selection that hovers the first item that can be hovered.
    pub fn new(list: L) -> (select: Self)
        requires
            list@.supports_selection(),
        ensures
            select@ == initial_state(list@),
            select.items() == list,
            select.wf(),
    {
        let len = list.len();
        let ghost sel = list@.selectable;
        let ghost witness = choose|i: int| list@.is_selectable(i);
        proof {
            lemma_next_from(sel, 0);
            lemma_prev_from(sel, len - 1);
            assert(sel[witness]);
        }
        let mut first: usize = 0;
        while first < len && !list.is_selectable(first)
            invariant
                first <= len,
                len == sel.len(),
                sel == list@.selectable,
                next_from(sel, first as int) == next_from(sel, 0),
            decreases len - first,
        {
            first += 1;
        }
        proof {
            assert(first < len) by {
                if first == len {
                    assert(!sel[witness]);
                }
            }
            assert(sel[first as int]);
            assert(next_from(sel, first as int) == first);
        }
        let mut last: usize = len - 1;
        while last > 0 && !list.is_selectable(last)
            invariant
                last < len,
                len == sel.len(),
                sel == list@.selectable,
                prev_from(sel, last as int) == prev_from(sel, len - 1),
            decreases last,
        {
            last -= 1;
        }
        proof {
            assert(sel[last as int]) by {
                if !sel[last as int] {
                    assert(prev_from(sel, -1) == -1);
                    assert(prev_from(sel, 0) == -1);
                    assert(!sel[witness]);
                }
            }
            assert(prev_from(sel, last as int) == last);
        }
        Select {
            first_selectable: first,
            last_selectable: last,
            height: u16::MAX,
            page_start_height: u16::MAX,
            page_end_height: u16::MAX,
            heights: None,
            at: first,
            page_start: 0,
            page_end: usize::MAX,
            list,
        }
    }

    /// The index of the item that is hovered.
    pub fn get_at(&self) -> (at: usize)
        ensures
            at == self@.at,
    {
        self.at
    }

    /// Sets the index of the item that is hovered. `at` can be any number,
    /// even one beyond the list, which hovers nothing; the caller sees to it
    /// that the item there can be hovered.
    pub fn set_at(&mut self, at: usize)
        requires
            old(self).wf(),
            old(self)@.can_hover(old(self).reports(), at as int),
        ensures
            final(self).wf(),
            final(self)@ == old(self)@.hovering(old(self).reports(), at as int),
            final(self).items() == old(self).items(),
            old(self).keeps_page() ==> final(self).keeps_page(),
            old(self).keeps_page() && at < old(self).reports().len()
                ==> final(self)@.hover_is_shown(),
            old(self)@.is_paginating(old(self).reports()) && old(self)@.window_fits(
                old(self).reports(),
            ) && at < old(self).reports().len() && (old(self)@.at_index(
                at as int,
            ).at_outside_page() ==> old(self)@.at_index(at as int).hover_fits(old(self).reports()))
                ==> final(self)@.window_fits(old(self).reports()) && final(self)@.hover_is_shown(),
    {
        proof {
            if self.keeps_page() {
                laws::lemma_window_follows_hover(self@, self.list@, at as int);
            }
            if self@.is_paginating(self.list@) && self@.window_fits(self.list@) && at
                < self.list@.len() && (self@.at_index(at as int).at_outside_page()
                ==> self@.at_index(at as int).hover_fits(self.list@)) {
                laws::lemma_window_follows_hover_at_hand(self@, self.list@, at as int);
            }
        }
        let dir = if self.at >= self.list.len() || self.at < at {
            Movement::Down
        } else {
            Movement::Up
        };

        self.at = at;

        if self.is_paginating() {
            if at >= self.list.len() {
                self.init_page();
            } else {
                self.try_adjust_page(dir);
            }
        }
    }

    /// Gives the list back.
    pub fn finish(self) -> (list: L)
        ensures
            list == self.items(),
    {
        self.list
    }

    fn next_selectable(&self) -> (next: usize)
        requires
            self.wf(),
        ensures
            next == self@.next_selectable(self.reports()),
            self.reports().is_selectable(next as int),
    {
        let ghost sel = self.list@.selectable;
        proof {
            lemma_next_from(sel, 0);
            lemma_prev_from(sel, sel.len() - 1);
        }
        if self.at >= self.last_selectable {
            return if self.list.should_loop() {
                self.first_selectable
            } else {
                self.last_selectable
            };
        }
        let mut at = self.at + 1;
        while !self.list.is_selectable(at)
            invariant
                self.at < at <= self.last_selectable < sel.len(),
                sel == self.list@.selectable,
                sel[self.last_selectable as int],
                next_from(sel, at as int) == next_from(sel, self.at + 1),
            decreases self.last_selectable - at,
        {
            at += 1;
        }
        at
    }

    fn prev_selectable(&self) -> (prev: usize)
        requires
            self.wf(),
        ensures
            prev == self@.prev_selectable(self.reports()),
            self.reports().is_selectable(prev as int),
    {
        let ghost sel = self.list@.selectable;
        proof {
            lemma_next_from(sel, 0);
            lemma_prev_from(sel, sel.len() - 1);
        }
        if self.at <= self.first_selectable {
            return if self.list.should_loop() {
                self.last_selectable
            } else {
                self.first_selectable
            };
        }
        // `at` may lie beyond the list: the search starts below it, within
        // the list
        let len = self.list.len();
        let mut at = if self.at < len {
            self.at - 1
        } else {
            len - 1
        };
        while !self.list.is_selectable(at)
            invariant
                self.first_selectable <= at < sel.len(),
                sel == self.list@.selectable,
                sel[self.first_selectable as int],
                prev_from(sel, at as int) == self@.prev_selectable(self.list@),
            decreases at,
        {
            at -= 1;
        }
        at
    }

    fn page_size(&self) -> (n: u16)
        requires
            self.wf(),
        ensures
            n == self.reports().page_size,
    {
        self.list.page_size() as u16
    }

    fn is_paginating(&self) -> (b: bool)
        requires
            self.wf(),
        ensures
            b == self@.is_paginating(self.reports()),
    {
        self.height > self.page_size()
    }

    /// Whether the window has to be computed anew. It has to not only when the
    /// hovered item is off screen but also when it is the first or the last
    /// item on screen.
    fn at_outside_page(&self) -> (b: bool)
        ensures
            b == self@.at_outside_page(),
    {
        if self.page_start < self.page_end {
            // - a - - S - - - - - - E - a -
            //   ^------- outside -------^
            self.at <= self.page_start || self.at >= self.page_end
        } else {
            // - - - - E - - - a - - S - - -
            //       outside --^
            self.at <= self.page_start && self.at >= self.page_end
        }
    }

    /// The index `delta` steps from the hovered one, around the ends where the
    /// list loops. There `delta` must be within the length of the list, either
    /// way.
    fn try_get_index(&self, delta: isize) -> (index: Option<usize>)
        requires
            self.wf(),
            isize::MIN < delta,
            self.reports().should_loop ==> -self.reports().len() <= delta <= self.reports().len(),
        ensures
            match index {
                Some(i) => self@.index_at(self.reports(), delta as int) == Some(i as int),
                None => self@.index_at(self.reports(), delta as int) is None,
            },
    {
        let len = self.list.len();
        if delta > 0 {
            let forward = delta as usize;
            if forward < len && self.at < len - forward {
                Some(self.at + forward)
            } else if self.list.should_loop() {
                Some(self.at - (len - forward))
            } else {
                None
            }
        } else {
            let back = (-delta) as usize;
            if self.list.should_loop() {
                proof {
                    lemma_step_back(self.at as int, len as int, back as int);
                }
                let within = self.at % len;
                if within >= back {
                    Some(within - back)
                } else {
                    Some(within + (len - back))
                }
            } else if back <= self.at {
                Some(self.at - back)
            } else {
                None
            }
        }
    }

    /// Measures every item for `layout`, unless that was the layout of the
    /// last measurement.
    fn update_heights(&mut self, layout: Layout)
        requires
            old(self).wf(),
            total_height(old(self).reports().heights(layout)) <= u16::MAX,
        ensures
            final(self).wf(),
            final(self)@ == old(self)@.measured(old(self).reports(), layout),
            final(self).reports() == old(self).reports(),
            final(self).items().rendered() == (RenderLog {
                measured: old(self).items().rendered().measured + old(self)@.heights_to_ask(
                    old(self).reports(),
                    layout,
                ),
                ..old(self).items().rendered()
            }),
    {
        let fresh = match &self.heights {
            Some(heights) => heights.prev_layout == layout,
            None => false,
        };
        if fresh {
            return ;
        }
        let ghost list = self.list@;
        let ghost measured = list.heights(layout);
        let len = self.list.len();
        let mut heights: Vec<u16> = Vec::with_capacity(len);
        let mut item_layout = layout;
        item_layout.line_offset = 0;

        let mut total: u16 = 0;
        let mut i: usize = 0;
        while i < len
            invariant
                i <= len == list.len(),
                self.list@ == list,
                measured == list.heights(layout),
                item_layout == (Layout { line_offset: 0, ..layout }),
                heights@ == measured.subrange(0, i as int),
                total == range_sum(measured, 0, i as int),
                total_height(measured) <= u16::MAX,
                self@ == old(self)@,
                self.list.rendered() == (RenderLog {
                    measured: old(self).list.rendered().measured + i as nat,
                    ..old(self).list.rendered()
                }),
            decreases len - i,
        {
            let height = self.list.height_at(i, item_layout);
            proof {
                lemma_range_sum_grows(measured, 0, i + 1, len as int);
            }
            total += height;
            heights.push(height);
            i += 1;
            assert(heights@ == measured.subrange(0, i as int));
        }
        assert(heights@ == measured);
        self.height = total;
        self.heights = Some(Heights { heights, prev_layout: layout });
    }

    /// Puts the window at the top of the list.
    fn init_page(&mut self)
        requires
            old(self).wf(),
            old(self)@.cache is Some,
        ensures
            final(self).wf(),
            final(self)@ == old(self)@.with_first_page(old(self).reports()),
            final(self).items() == old(self).items(),
    {
        let len = self.list.len();
        let paginating = self.is_paginating();
        // one line is kept for the message at the end
        let max_height = self.page_size() - 1;
        let heights = &self.heights.as_ref().unwrap().heights;
        let ghost hs = heights@;
        let ghost kept = Bound { index: self.page_end as int, height: self.page_end_height as int };

        self.page_start = 0;
        self.page_start_height = heights[0];

        if paginating {
            let mut height = heights[0];
            let mut i: usize = 1;
            assert(range_sum(hs, 0, 1) == hs[0]) by {
                assert(range_sum(hs, 0, 0) == 0);
            }
            while i < len && height < max_height
                invariant
                    1 <= i <= len == hs.len(),
                    hs == heights@,
                    height == range_sum(hs, 0, i as int),
                    total_height(hs) <= u16::MAX,
                    self.page_end == usize::MAX || self.page_end < len,
                    self.list == old(self).list,
                    self@ == (SelectState {
                        page_start: 0,
                        page_start_height: hs[0] as int,
                        page_end: self.page_end as int,
                        page_end_height: self.page_end_height as int,
                        ..old(self)@
                    }),
                    scan_page_end(
                        hs,
                        max_height as int,
                        i as int,
                        height as int,
                        Bound {
                            index: self.page_end as int,
                            height: self.page_end_height as int,
                        },
                    ) == scan_page_end(hs, max_height as int, 1, hs[0] as int, kept),
                decreases len - i,
            {
                proof {
                    lemma_range_sum_grows(hs, 0, i + 1, len as int);
                }
                self.page_end = i;
                self.page_end_height = if heights[i] < max_height - height {
                    heights[i]
                } else {
                    max_height - height
                };
                height += heights[i];
                i += 1;
            }
        } else {
            self.page_end = len - 1;
            self.page_end_height = heights[len - 1];
        }
    }

    /// Builds the window anew around the hovered item, after a move up or
    /// down.
    fn adjust_page(&mut self, moved: Movement)
        requires
            old(self).wf(),
            old(self)@.can_turn_page(old(self).reports()),
            moved == Movement::Up || moved == Movement::Down,
        ensures
            final(self).wf(),
            final(self)@ == old(self)@.with_page_around(old(self).reports(), moved),
            final(self).items() == old(self).items(),
            old(self)@.hover_fits(old(self).reports()) ==> final(self)@.window_fits(
                old(self).reports(),
            ) && final(self)@.hover_is_shown() && final(self)@.window_rows(old(self).reports())
                <= old(self).reports().page_size - 1,
    {
        proof {
            if self@.hover_fits(self.list@) {
                window::lemma_page_around_fits(self@, self.list@, moved);
            }
        }
        // the direction here is the one we moved from, the opposite of `moved`
        let direction: isize = match moved {
            Movement::Down => -1,
            _ => 1,
        };
        let len = self.list.len();
        let looping = self.list.should_loop();
        // one line is kept for the message at the end
        let max_height = self.page_size() - 1;
        let heights = &self.heights.as_ref().unwrap().heights;

        let ghost s = self@;
        let ghost list = self.list@;
        let ghost hs = heights@;
        let ghost dir = came_from(moved);
        proof {
            lemma_arc_full(hs, self.at as int, dir);
            assert(s.height == total_height(hs));
            assert(arc_sum(hs, self.at as int, dir, 0) == hs[self.at as int]);
        }

        // This first takes an item from the direction we have moved from, then
        // one from the opposite, and the rest again from the direction we have
        // moved from.
        //
        // For example, take that we have moved downwards, from 2 to 3:
        // .-----.
        // |  0  | <-- fourth
        // .-----.
        // |  1  | <-- third
        // .-----.
        // |  2  | <-- first: we came from there, so it gives continuity
        // .-----.
        // |  3  | <-- hovered
        // .-----.
        // |  4  | <-- second: one line of it, to pad the end of the page
        // '-----'
        //
        // These two hold the index and the height of either end of the page;
        // which of them is the start depends on the direction.
        let mut bound_a = (self.at, heights[self.at]);
        let mut bound_b = (self.at, heights[self.at]);
        let mut height = heights[self.at];

        if height < max_height {
            proof {
                lemma_ring_index(self.at as int, len as int, dir, 1);
                if looping {
                    // all the items together take more lines than are left
                    assert(len >= 2);
                    let first = s.index_at(list, dir)->Some_0;
                    assert(arc_sum(hs, self.at as int, dir, 1) == hs[self.at as int] + hs[first]);
                }
            }
            if let Some(index) = self.try_get_index(direction) {
                let shown = if heights[index] < max_height - height {
                    heights[index]
                } else {
                    max_height - height
                };
                bound_a = (index, shown);
                height += shown;
            }
        }
        if height < max_height {
            proof {
                lemma_ring_index(self.at as int, len as int, -dir, 1);
            }
            if let Some(index) = self.try_get_index(-direction) {
                // Only one line of the item in the opposite direction is shown,
                // whatever its height: the hovered item then stays where it was
                // when its neighbour is taller than the one shown before.
                bound_b = (index, 1);
                height += 1;
            }
        }
        let mut step: u16 = 2;
        while step < max_height && height < max_height
            invariant
                2 <= step <= max_height == list.budget(),
                self@ == s,
                self.list@ == list,
                self.wf(),
                s.cache is Some,
                s.heights() == hs,
                s.height == total_height(hs),
                hs == heights@,
                hs.len() == len,
                looping == list.should_loop,
                self.at < len,
                dir == came_from(moved),
                direction == dir,
                s.is_paginating(list),
                arc_sum(hs, self.at as int, dir, len - 1) == total_height(hs),
                bound_a.0 < len,
                bound_b.0 < len,
                looping && height < max_height ==> step <= len && arc_sum(
                    hs,
                    self.at as int,
                    dir,
                    step - 1,
                ) <= height,
                s.grow_near(
                    list,
                    dir,
                    step as int,
                    list.budget(),
                    Growth {
                        near: Bound { index: bound_a.0 as int, height: bound_a.1 as int },
                        far: Bound { index: bound_b.0 as int, height: bound_b.1 as int },
                        rows: height as int,
                    },
                ) == s.grown(list, moved),
            decreases max_height - step,
        {
            let ghost before = Growth {
                near: Bound { index: bound_a.0 as int, height: bound_a.1 as int },
                far: Bound { index: bound_b.0 as int, height: bound_b.1 as int },
                rows: height as int,
            };
            proof {
                assert(dir * step == if moved == Movement::Down {
                    -(step as int)
                } else {
                    step as int
                });
                if looping {
                    // all the items together take more lines than are left
                    assert(step < len);
                    lemma_ring_index(self.at as int, len as int, dir, step as int);
                }
                assert(s.grow_near(list, dir, step as int, list.budget(), before) == s.grow_near(
                    list,
                    dir,
                    step + 1,
                    list.budget(),
                    before.take_near(hs, list.budget(), s.index_at(list, dir * step)),
                ));
            }
            let neighbour = if looping || step as usize <= len {
                self.try_get_index(direction * (step as isize))
            } else {
                None
            };
            if let Some(index) = neighbour {
                let shown = if heights[index] < max_height - height {
                    heights[index]
                } else {
                    max_height - height
                };
                bound_a = (index, shown);
                height += shown;
            }
            step += 1;
        }
        proof {
            if height >= max_height {
                lemma_grow_near_full(
                    s,
                    list,
                    dir,
                    step as int,
                    list.budget(),
                    Growth {
                        near: Bound { index: bound_a.0 as int, height: bound_a.1 as int },
                        far: Bound { index: bound_b.0 as int, height: bound_b.1 as int },
                        rows: height as int,
                    },
                );
            }
        }

        if let Movement::Down = moved {
            // After a move down the item after the hovered one is the one in
            // the opposite direction, so it ends the page
            self.page_start = bound_a.0;
            self.page_start_height = bound_a.1;
            self.page_end = bound_b.0;
            self.page_end_height = bound_b.1;
        } else {
            // After a move up the item before the hovered one is the one in
            // the opposite direction, so it starts the page
            self.page_start = bound_b.0;
            self.page_start_height = bound_b.1;
            self.page_end = bound_a.0;
            self.page_end_height = bound_a.1;
        }
    }

    /// Builds the window anew if the hovered item is not between its second
    /// and its last but one item.
    fn try_adjust_page(&mut self, moved: Movement)
        requires
            old(self).wf(),
            old(self)@.at_outside_page() ==> old(self)@.can_turn_page(old(self).reports()),
            moved == Movement::Up || moved == Movement::Down,
        ensures
            final(self).wf(),
            final(self)@ == old(self)@.with_page_kept(old(self).reports(), moved),
            final(self).items() == old(self).items(),
    {
        if self.at_outside_page() {
            self.adjust_page(moved)
        }
    }
}

impl<L: List> Select<L> {
    /// A page up where the list scrolls on.
    fn page_up(&mut self)
        requires
            old(self).wf(),
            old(self)@.is_paginating(old(self).reports()),
            old(self)@.can_page(old(self).reports(), -1),
        ensures
            final(self).wf(),
            final(self)@ == old(self)@.page_up(old(self).reports()),
            final(self).items() == old(self).items(),
            final(self)@.cache is Some,
            final(self)@.at < final(self).reports().len(),
    {
        proof {
            lemma_next_from(self.list@.selectable, 0);
        }
        // The hovered item should stay visible, and if possible be the last
        // one visible.
        //
        // `adjust_page` puts the hovered item last but one, so with the item
        // before it hovered, the one that was hovered comes last
        self.at = match self.try_get_index(-1) {
            Some(index) => index,
            None => self.at,
        };
        self.adjust_page(Movement::Down);

        if self.page_start == 0 && !self.list.should_loop() {
            // We have reached the top: with the bounds given above the end of
            // the page may not be right, so it is computed anew
            self.at = self.first_selectable;
            self.init_page();
        } else {
            // Now that the page is known, some item that can be hovered and is
            // not the first one visible gets hovered: start at the first one
            // visible...
            self.at = self.page_start;
            // ...and go forward at least one item
            self.at = self.next_selectable();
        }
    }

    /// A page down where the list scrolls on.
    fn page_down(&mut self)
        requires
            old(self).wf(),
            old(self)@.is_paginating(old(self).reports()),
            old(self)@.can_page(old(self).reports(), 1),
        ensures
            final(self).wf(),
            final(self)@ == old(self)@.page_down(old(self).reports()),
            final(self).items() == old(self).items(),
            final(self)@.cache is Some,
            final(self)@.at < final(self).reports().len(),
    {
        proof {
            lemma_prev_from(self.list@.selectable, self.list@.selectable.len() - 1);
        }
        // The hovered item should stay visible, and if possible be the first
        // one visible.
        //
        // `adjust_page` puts the hovered item second, so with the item after
        // it hovered, the one that was hovered comes first
        self.at = match self.try_get_index(1) {
            Some(index) => index,
            None => self.at,
        };
        self.adjust_page(Movement::Up);

        if self.page_end == self.list.len() - 1 {
            // We have reached the bottom: with the bounds given above the
            // start of the page may not be right, so it is computed anew
            self.at = self.page_end;
            self.adjust_page(Movement::Down);
            self.at = self.last_selectable;
        } else {
            // Now that the page is known, some item that can be hovered and is
            // not the last one visible gets hovered: start at the last one
            // visible...
            self.at = self.page_end;
            // ...and go back at least one item
            self.at = self.prev_selectable();
        }
    }

    /// The layout that the item at `index` is rendered with, `carried` being
    /// the layout of the item before it.
    fn layout_for(&self, index: usize, carried: Layout) -> (layout: Layout)
        requires
            self@.cache is Some,
            index < self@.heights().len(),
        ensures
            layout == self@.item_layout(index as int, carried),
    {
        let heights = &self.heights.as_ref().unwrap().heights;
        let mut layout = carried;
        if index == self.page_start {
            layout.max_height = self.page_start_height;
            layout.render_region = RenderRegion::Bottom;
        } else if index == self.page_end {
            layout.max_height = self.page_end_height;
            layout.render_region = RenderRegion::Top;
        } else {
            layout.max_height = heights[index];
        }
        layout
    }

    /// Renders the items from `from` up to, not including, `to`, one below
    /// the other, and leaves in `layout` the place below the last of them.
    /// Stops at the first failure of the list or of the terminal, and hands
    /// it on.
    fn render_in<B: Backend>(
        &mut self,
        from: usize,
        to: usize,
        layout: &mut Layout,
        backend: &mut B,
    ) -> (r: Result<(), B::Error>)
        requires
            old(self).wf(),
            old(self)@.cache is Some,
            from <= to <= old(self).reports().len(),
            old(layout).offset_y + old(self)@.rows_between(from as int, to as int) <= u16::MAX,
        ensures
            final(self).wf(),
            final(self)@ == old(self)@,
            final(self).reports() == old(self).reports(),
            final(self).items().rendered().measured == old(self).items().rendered().measured,
            drew(
                old(self)@.drawn_between(from as int, to as int, *old(layout)),
                old(self).items().rendered().items,
                final(self).items().rendered().items,
                old(backend)@.calls,
                final(backend)@.calls,
                r,
            ),
            r is Ok ==> *final(layout) == old(self)@.layout_after(
                from as int,
                to as int,
                *old(layout),
            ),
            final(layout).line_offset == old(layout).line_offset,
            final(layout).offset_x == old(layout).offset_x,
            final(layout).width == old(layout).width,
            final(layout).height == old(layout).height,
    {
        let ghost s = self@;
        let ghost list = self.list@;
        let ghost start = *layout;
        let ghost listed = self.list.rendered().items;
        let ghost asked_before = backend@.calls;
        let ghost plan = s.drawn_between(from as int, to as int, start);
        let mut i = from;
        proof {
            window::lemma_drawn_between(s, from as int, from as int, to as int, start);
            assert(listed.take(listed.len() as int) == listed);
            assert(asked_before.take(asked_before.len() as int) == asked_before);
        }
        while i < to
            invariant
                from <= i <= to <= list.len(),
                self.wf(),
                self@ == s,
                s == old(self)@,
                start == *old(layout),
                s.wf(list),
                self.list@ == list,
                list == old(self).list@,
                s.cache is Some,
                listed == old(self).list.rendered().items,
                self.list.rendered().measured == old(self).list.rendered().measured,
                asked_before == old(backend)@.calls,
                plan == s.drawn_between(from as int, to as int, start),
                plan.len() == to - from,
                *layout == s.layout_after(from as int, i as int, start),
                start.offset_y + s.rows_between(from as int, to as int) <= u16::MAX,
                drew(
                    plan.take(i - from),
                    listed,
                    self.list.rendered().items,
                    asked_before,
                    backend@.calls,
                    Ok::<(), B::Error>(()),
                ),
            decreases to - i,
        {
            let ghost done = plan.take(i - from);
            let ghost rest = plan.skip(i + 1 - from);
            let ghost record = self.list.rendered().items;
            let ghost calls = backend@.calls;
            proof {
                lemma_rows_between_grows(s, from as int, i + 1, to as int);
                window::lemma_layout_after(s, from as int, i as int, start);
                window::lemma_layout_after(s, from as int, i + 1, start);
                window::lemma_drawn_between(s, from as int, i + 1, to as int, start);
            }
            *layout = self.layout_for(i, *layout);
            let ghost item = Drawn { index: i as int, hovered: i == self.at, layout: *layout };
            let rendered = self.list.render_item(i, i == self.at, *layout, backend);
            let ghost calls_item = backend@.calls;
            let moved = if rendered.is_ok() {
                layout.offset_y += layout.max_height;

                backend.move_cursor_to(layout.offset_x, layout.offset_y)
            } else {
                rendered
            };
            proof {
                let next = s.drawn_between(from as int, i + 1, start);
                window::lemma_drawn_between(s, from as int, i as int, i + 1, start);
                assert(next[i - from] == item);
                assert(plan[i - from] == item) by {
                    assert(plan.take(i + 1 - from)[i - from] == plan[i - from]);
                }
                assert(done.push(item) == plan.take(i + 1 - from));
                assert(plan.take(i + 1 - from) + rest == plan);
                window::lemma_drew_one(
                    done,
                    item,
                    listed,
                    record,
                    asked_before,
                    calls,
                    calls_item,
                    rendered,
                    moved,
                );
                if moved is Err {
                    window::lemma_drew_stops(
                        plan.take(i + 1 - from),
                        rest,
                        listed,
                        self.list.rendered().items,
                        asked_before,
                        backend@.calls,
                        moved,
                    );
                } else {
                    assert(moved->Ok_0 == ());
                    assert(moved == Ok::<(), B::Error>(moved->Ok_0));
                }
            }
            if moved.is_err() {
                return moved;
            }
            i += 1;
        }
        proof {
            window::lemma_layout_after(s, from as int, to as int, start);
            assert(plan.take(to - from) == plan);
        }
        Ok(())
    }

    /// Renders the items of the window one below the other, and leaves in
    /// `layout` the place below the last of them. Stops at the first failure
    /// of the list or of the terminal, and hands it on.
    fn render_page<B: Backend>(&mut self, layout: &mut Layout, backend: &mut B) -> (r: Result<
        (),
        B::Error,
    >)
        requires
            old(self).wf(),
            old(self)@.cache is Some,
            old(self)@.has_window(),
            old(layout).offset_y + old(self)@.window_rows(old(self).reports()) <= u16::MAX,
        ensures
            final(self).wf(),
            final(self)@ == old(self)@,
            final(self).reports() == old(self).reports(),
            final(self).items().rendered().measured == old(self).items().rendered().measured,
            drew(
                old(self)@.drawn_window(old(self).reports(), *old(layout)),
                old(self).items().rendered().items,
                final(self).items().rendered().items,
                old(backend)@.calls,
                final(backend)@.calls,
                r,
            ),
            r is Ok ==> final(layout).offset_y == old(layout).offset_y + old(self)@.window_rows(
                old(self).reports(),
            ),
            final(layout).line_offset == old(layout).line_offset,
            final(layout).offset_x == old(layout).offset_x,
            final(layout).width == old(layout).width,
            final(layout).height == old(layout).height,
    {
        let ghost shown = self@;
        let ghost list = self.list@;
        let ghost start = *layout;
        let ghost listed = self.list.rendered().items;
        let ghost asked_before = backend@.calls;
        let len = self.list.len();
        let page_start = self.page_start;
        let page_end = self.page_end;
        proof {
            window::lemma_window_rows_not_negative(shown, list);
        }
        if page_end < page_start {
            let ghost first = shown.drawn_between(page_start as int, len as int, start);
            let ghost below = shown.layout_after(page_start as int, len as int, start);
            let ghost second = shown.drawn_between(0, page_end + 1, below);
            let rendered = self.render_in(page_start, len, layout, backend);
            proof {
                window::lemma_drawn_between(
                    shown,
                    page_start as int,
                    len as int,
                    len as int,
                    start,
                );
                if rendered is Err {
                    window::lemma_drew_stops(
                        first,
                        second,
                        listed,
                        self.list.rendered().items,
                        asked_before,
                        backend@.calls,
                        rendered,
                    );
                }
            }
            if rendered.is_err() {
                return rendered;
            }
            let ghost done = rendered;
            let ghost between = self.list.rendered().items;
            let ghost asked_between = backend@.calls;
            proof {
                window::lemma_layout_after(shown, page_start as int, len as int, start);
            }
            let rendered = self.render_in(0, page_end + 1, layout, backend);
            proof {
                window::lemma_drew_then(
                    first,
                    second,
                    listed,
                    between,
                    self.list.rendered().items,
                    asked_before,
                    asked_between,
                    backend@.calls,
                    done,
                    rendered,
                );
                window::lemma_layout_after(shown, 0, page_end + 1, below);
            }
            rendered
        } else {
            let rendered = self.render_in(page_start, page_end + 1, layout, backend);
            proof {
                window::lemma_layout_after(shown, page_start as int, page_end + 1, start);
            }
            rendered
        }
    }

    /// Puts the window back as it was kept.
    fn put_window_back(&mut self, kept: (usize, usize, u16, u16))
        ensures
            final(self)@ == (SelectState {
                page_start: kept.0 as int,
                page_end: kept.1 as int,
                page_start_height: kept.2 as int,
                page_end_height: kept.3 as int,
                ..old(self)@
            }),
            final(self).items() == old(self).items(),
    {
        self.page_start = kept.0;
        self.page_end = kept.1;
        self.page_start_height = kept.2;
        self.page_end_height = kept.3;
    }

    /// Writes the footer of a list that scrolls, and moves the cursor below
    /// it. Stops at the first failure of the terminal and hands it on.
    fn render_footer<B: Backend>(&self, layout: &mut Layout, backend: &mut B) -> (r: Result<
        (),
        B::Error,
    >)
        requires
            old(layout).offset_y < u16::MAX,
        ensures
            asked(
                old(backend)@,
                final(backend)@,
                footer_ops(old(layout).offset_x, (old(layout).offset_y + 1) as u16),
                r,
            ),
            r is Ok ==> *final(layout) == (Layout {
                offset_y: (old(layout).offset_y + 1) as u16,
                ..*old(layout)
            }),
    {
        let ghost start = backend@;
        let ghost text = colored(footer(), Color::DarkGrey);
        let ghost below = seq![Op::MoveCursorTo(layout.offset_x, (layout.offset_y + 1) as u16)];
        assert(start.calls == start.calls + all_done::<B::Error>(seq![]));
        // this is the message at the end that a line is kept for
        let written = write_colored(
            backend,
            "(Move up and down to reveal more choices)",
            Color::DarkGrey,
        );
        proof {
            lemma_asked_on(start, start, backend@, seq![], text, below, written);
            assert(seq![] + text + below == text + below);
        }
        if written.is_err() {
            return written;
        }
        layout.offset_y += 1;

        let ghost mid = backend@;
        let moved = backend.move_cursor_to(layout.offset_x, layout.offset_y);
        proof {
            lemma_asked_one(mid, backend@, below[0], moved);
            lemma_asked_on(start, mid, backend@, seq![] + text, below, seq![], moved);
            assert(seq![] + text + below == text + below);
            assert(seq![] + text + below + seq![] == text + below);
        }
        moved
    }

    /// Makes a movement, and says in which direction the hovered item was
    /// left behind; the window does not follow yet.
    fn move_by(&mut self, movement: Movement) -> (moved: Option<Movement>)
        requires
            old(self).wf(),
            movement == Movement::PageUp && !old(self)@.page_up_is_home(old(self).reports())
                ==> old(self)@.can_page(old(self).reports(), -1),
            movement == Movement::PageDown && !old(self)@.page_down_is_end(old(self).reports())
                ==> old(self)@.can_page(old(self).reports(), 1),
        ensures
            final(self).wf(),
            final(self).items() == old(self).items(),
            match old(self)@.moved_by(old(self).reports(), movement) {
                Some((state, direction)) => moved == Some(direction) && final(self)@ == state
                    && state.at < old(self).reports().len(),
                None => moved is None && final(self)@ == old(self)@,
            },
            moved matches Some(direction) ==> direction == Movement::Up || direction
                == Movement::Down,
    {
        proof {
            lemma_next_from(self.list@.selectable, 0);
            lemma_prev_from(self.list@.selectable, self.list@.selectable.len() - 1);
        }
        match movement {
            Movement::Up => {
                if self.list.should_loop() || self.at > self.first_selectable {
                    self.at = self.prev_selectable();
                    Some(Movement::Up)
                } else {
                    None
                }
            },
            Movement::Down => {
                if self.list.should_loop() || self.at < self.last_selectable {
                    self.at = self.next_selectable();
                    Some(Movement::Down)
                } else {
                    None
                }
            },
            Movement::PageUp => {
                // Without pagination, and where the first item is shown in a
                // list that does not loop, this is the same as home
                if !self.is_paginating() || (!self.list.should_loop() && self.page_start == 0) {
                    if self.at <= self.first_selectable {
                        return None;
                    }
                    self.at = self.first_selectable;
                } else {
                    self.page_up();
                }
                Some(Movement::Up)
            },
            Movement::PageDown => {
                // Without pagination, and where the last item is shown in a
                // list that does not loop, this is the same as end
                if !self.is_paginating() || (!self.list.should_loop() && self.page_end
                    == self.list.len() - 1) {
                    if self.at >= self.last_selectable {
                        return None;
                    }
                    self.at = self.last_selectable;
                } else {
                    self.page_down();
                }
                Some(Movement::Down)
            },
            Movement::Home => {
                if self.at != self.first_selectable {
                    self.at = self.first_selectable;
                    Some(Movement::Up)
                } else {
                    None
                }
            },
            Movement::End => {
                if self.at != self.last_selectable {
                    self.at = self.last_selectable;
                    Some(Movement::Down)
                } else {
                    None
                }
            },
        }
    }
}

impl<L: List> Widget for Select<L> {
    /// The heights of all items together fit a height, the list has a window
    /// once it is measured, and the rows below the layout's are enough for
    /// what is rendered.
    open spec fn can_render(&self, layout: Layout) -> bool {
        let list = self.reports();
        let shown = self@.shown(list, layout);
        &&& self.wf()
        &&& total_height(list.heights(layout)) <= u16::MAX
        &&& shown.has_window()
        &&& layout.offset_y + shown.rendered_rows(list, layout) <= u16::MAX
    }

    /// The heights of all items together fit a height, and the rows below
    /// the layout's are enough for what is reported.
    open spec fn can_measure(&self, layout: Layout) -> bool {
        let list = self.reports();
        &&& self.wf()
        &&& total_height(list.heights(layout)) <= u16::MAX
        &&& layout.offset_y + self@.measured(list, layout).reported_rows(list, layout)
            <= u16::MAX
    }

    /// A list has no cursor.
    open spec fn has_cursor(&self, layout: Layout) -> bool {
        false
    }

    open spec fn can_handle(&self, key: KeyEvent) -> bool {
        self.wf() && self@.takes_key(self.reports(), key)
    }

    /// Renders the items of the window one below the other, and a footer
    /// where the list scrolls. The heights are measured for `layout` first, and
    /// the window is put at the top if there was none. Stops at the first
    /// failure of the list or of the terminal and hands it on; the window is
    /// then as it was before.
    fn render<B: Backend>(&mut self, layout: &mut Layout, backend: &mut B) -> (r: Result<
        (),
        B::Error,
    >)
        ensures
            final(self).wf(),
            final(self).reports() == old(self).reports(),
            r is Ok ==> final(self)@ == old(self)@.shown(old(self).reports(), *old(layout)),
            r is Err ==> final(self)@ == old(self)@.measured(old(self).reports(), *old(layout)),
            final(self).items().rendered().measured == old(self).items().rendered().measured
                + old(self)@.heights_to_ask(old(self).reports(), *old(layout)),
            old(self)@.shown(old(self).reports(), *old(layout)).drew_page(
                old(self).reports(),
                *old(layout),
                old(self).items().rendered().items,
                final(self).items().rendered().items,
                old(backend)@.calls,
                final(backend)@.calls,
                r,
            ),
            r is Ok ==> final(layout).offset_y == old(layout).offset_y + old(self)@.shown(
                old(self).reports(),
                *old(layout),
            ).rendered_rows(old(self).reports(), *old(layout)),
            r is Ok ==> *final(layout) == (Layout {
                line_offset: 0,
                offset_y: final(layout).offset_y,
                ..*old(layout)
            }),
            old(self)@.measured(old(self).reports(), *old(layout)).pages_evenly(
                old(self).reports(),
            ) && (old(self)@.has_window() ==> old(self)@.window_fits(old(self).reports())
                && old(self)@.cache is Some && old(self)@.cache->Some_0.layout == *old(layout))
                && (r is Ok || old(self)@.has_window()) ==> final(self).keeps_page(),
    {
        let ghost before = self@;
        let ghost list = self.list@;
        let ghost given = *layout;
        let ghost listed = self.list.rendered().items;
        let ghost asked_before = backend@.calls;
        self.update_heights(*layout);

        // The window is put back if rendering fails
        let kept = (self.page_start, self.page_end, self.page_start_height, self.page_end_height);
        // this is the first render, so the page has to be set
        if self.page_end == usize::MAX {
            self.init_page();
        }
        let ghost shown = self@;
        proof {
            window::lemma_window_rows_not_negative(shown, list);
            window::lemma_page_not_empty(shown, list, given);
            if before.measured(list, given).pages_evenly(list) && (before.has_window()
                ==> before.window_fits(list) && before.cache is Some && before.cache->Some_0.layout
                == given) {
                laws::lemma_shown_window_fits(before, list, given);
            }
        }

        if layout.line_offset != 0 {
            layout.line_offset = 0;
            layout.offset_y += 1;
            let moved = backend.move_cursor_to(layout.offset_x, layout.offset_y);
            proof {
                let calls = backend@.calls;
                assert(calls.take(asked_before.len() as int) == asked_before);
                assert(calls[asked_before.len() as int].result == moved);
                if moved is Ok {
                    assert(moved->Ok_0 == ());
                    assert(moved == Ok::<(), B::Error>(moved->Ok_0));
                }
            }
            if moved.is_err() {
                proof {
                    assert(listed.take(listed.len() as int) == listed);
                }
                self.put_window_back(kept);
                return moved;
            }
        }
        let ghost asked_first = backend@.calls;
        assert(window::line_left(given, asked_before, asked_first));
        // The items are rendered with a layout of their own: what they are
        // given as height and region is not handed on

        let mut item_layout = *layout;
        assert(item_layout == SelectState::first_line(given));
        let rendered = self.render_page(&mut item_layout, backend);
        if rendered.is_err() {
            proof {
                window::lemma_drew_page_stops(
                    shown,
                    list,
                    given,
                    listed,
                    self.list.rendered().items,
                    asked_before,
                    asked_first,
                    backend@.calls,
                    rendered,
                );
            }
            self.put_window_back(kept);
            return rendered;
        }
        layout.offset_y = item_layout.offset_y;
        let ghost asked_items = backend@.calls;

        let below = if self.is_paginating() {
            self.render_footer(layout, backend)
        } else {
            Ok(())
        };
        proof {
            window::lemma_drew_page_below(
                shown,
                list,
                given,
                listed,
                self.list.rendered().items,
                asked_before,
                asked_first,
                asked_items,
                backend@.calls,
                rendered,
                below,
            );
        }
        if below.is_err() {
            self.put_window_back(kept);
        }
        below
    }

    /// The number of lines that the list takes. The heights are measured for
    /// `layout` first.
    fn height(&mut self, layout: &mut Layout) -> (h: u16)
        ensures
            final(self).wf(),
            final(self)@ == old(self)@.measured(old(self).reports(), *old(layout)),
            final(self).reports() == old(self).reports(),
            h == final(self)@.reported_rows(old(self).reports(), *old(layout)),
            final(layout).offset_y == old(layout).offset_y + h,
            *final(layout) == (Layout {
                line_offset: 0,
                offset_y: final(layout).offset_y,
                ..*old(layout)
            }),
            final(self)@.heights().len() == old(self).reports().len(),
            final(self).items().rendered() == (RenderLog {
                measured: old(self).items().rendered().measured + old(self)@.heights_to_ask(
                    old(self).reports(),
                    *old(layout),
                ),
                ..old(self).items().rendered()
            }),
    {
        self.update_heights(*layout);

        let paginating = self.is_paginating();
        let page_size = self.page_size();
        let heights = &self.heights.as_ref().unwrap().heights;
        // not less than the hovered item, with the message at the end where
        // there is one
        let own = if self.at < heights.len() {
            heights[self.at]
        } else {
            0
        };
        let least = if paginating {
            own + 1
        } else {
            own
        };
        // everything where it fits, else what a page holds
        let most = if self.height < page_size {
            self.height
        } else {
            page_size
        };
        let body = if most < least {
            least
        } else {
            most
        };
        // one more to go to the next line
        let height = if layout.line_offset != 0 {
            body + 1
        } else {
            body
        };

        layout.line_offset = 0;
        layout.offset_y += height;

        height
    }

    /// A list has no cursor, so this is never called.
    fn cursor_pos(&mut self, layout: Layout) -> (pos: (u16, u16)) {
        unreached()
    }

    /// Takes the keys that stand for a movement: up, down, page up, page
    /// down, home and end.
    fn handle_key(&mut self, key: KeyEvent) -> (handled: bool)
        ensures
            final(self).wf(),
            final(self).items() == old(self).items(),
            match old(self)@.after_key(old(self).reports(), key) {
                Some(state) => handled && final(self)@ == state,
                None => !handled && final(self)@ == old(self)@,
            },
            handled ==> final(self).reports().is_selectable(final(self)@.at),
            handled && old(self).keeps_page() ==> final(self).keeps_page()
                && final(self)@.hover_is_shown(),
            handled && old(self)@.cache is Some && old(self)@.is_paginating(old(self).reports())
                && old(self)@.window_fits(old(self).reports()) && old(self)@.rebuilds_fit(
                old(self).reports(),
                key,
            ) ==> final(self)@.window_fits(old(self).reports()) && final(self)@.hover_is_shown()
                && final(self)@.window_rows(old(self).reports()) <= old(self).reports().page_size
                - 1,
    {
        proof {
            laws::lemma_key_hovers_selectable(self@, self.list@, key);
            if self.keeps_page() {
                laws::lemma_window_follows_key(self@, self.list@, key);
            }
            if self@.cache is Some && self@.is_paginating(self.list@) && self@.window_fits(
                self.list@,
            ) && self@.rebuilds_fit(self.list@, key) {
                laws::lemma_window_follows_key_at_hand(self@, self.list@, key);
            }
        }
        let movement = match Movement::try_from_key(key) {
            Some(movement) => movement,
            None => return false,
        };

        let moved = match self.move_by(movement) {
            Some(moved) => moved,
            None => return false,
        };

        if self.is_paginating() {
            self.try_adjust_page(moved)
        }
        true
    }
}

} // verus!
