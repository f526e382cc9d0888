//! What holds of every selection, proved of the model.

use super::lemmas::{
    lemma_index_not_negative, lemma_next_from, lemma_next_selectable,
    lemma_page_around_not_negative, lemma_prev_from, lemma_prev_selectable,
};
use super::window::{
    lemma_first_page_fits, lemma_first_page_fits_evenly, lemma_hover_fits_evenly,
    lemma_page_around_fits, lemma_page_around_fits_evenly, lemma_pages_evenly_by_heights,
    lemma_window_fits_by_window,
};
use super::model::{next_from, prev_from, ListView, SelectState};
use crate::events::{KeyCode, KeyEvent, Movement};
use crate::layout::Layout;
use vstd::prelude::*;

verus! {

/// In a list that supports a selection, the first index that can be hovered
/// is not after the last, both can be hovered, and every index that can be
/// hovered lies between them.
pub proof fn lemma_ends_selectable(list: ListView)
    requires
        list.supports_selection(),
    ensures
        next_from(list.selectable, 0) <= prev_from(list.selectable, list.len() - 1),
        list.is_selectable(next_from(list.selectable, 0)),
        list.is_selectable(prev_from(list.selectable, list.len() - 1)),
        forall|i: int| #[trigger]
            list.is_selectable(i) ==> next_from(list.selectable, 0) <= i <= prev_from(
                list.selectable,
                list.len() - 1,
            ),
{
    let sel = list.selectable;
    let witness = choose|i: int| list.is_selectable(i);
    lemma_next_from(sel, 0);
    lemma_prev_from(sel, sel.len() - 1);
    assert(sel[witness]);
}

/// Going to the next item that can be hovered and then to the previous one
/// leads back to where it started, and so does going to the previous one and
/// then to the next, in a list that loops and from an item that can be
/// hovered.
pub proof fn lemma_next_prev_round_trip(s: SelectState, list: ListView)
    requires
        s.wf(list),
        list.should_loop,
        list.is_selectable(s.at),
    ensures
        s.at_index(s.next_selectable(list)).prev_selectable(list) == s.at,
        s.at_index(s.prev_selectable(list)).next_selectable(list) == s.at,
{
    let sel = list.selectable;
    lemma_ends_selectable(list);
    if s.at < s.last_selectable {
        let next = next_from(sel, s.at + 1);
        lemma_next_from(sel, s.at + 1);
        assert(sel[s.last_selectable]);
        lemma_prev_from(sel, next - 1);
        assert(sel[s.at]);
    }
    if s.at > s.first_selectable {
        let prev = prev_from(sel, s.at - 1);
        lemma_prev_from(sel, s.at - 1);
        assert(sel[s.first_selectable]);
        lemma_next_from(sel, prev + 1);
        assert(sel[s.at]);
    }
}

/// Whatever movement is made, the item hovered after it is one that can be
/// hovered.
pub proof fn lemma_move_hovers_selectable(s: SelectState, list: ListView, movement: Movement)
    requires
        s.wf(list),
    ensures
        s.moved_by(list, movement) matches Some((moved, _)) ==> list.is_selectable(moved.at),
{
    lemma_next_selectable(s, list);
    lemma_prev_selectable(s, list);
    match movement {
        Movement::PageUp => {
            if !s.page_up_is_home(list) {
                let anchored = s.at_index(s.page_anchor(list, -1));
                lemma_index_not_negative(s.at, list.len(), list.should_loop, -1);
                lemma_page_around_not_negative(anchored, list, Movement::Down);
                let turned = anchored.with_page_around(list, Movement::Down);
                lemma_next_selectable(turned.at_index(turned.page_start), list);
            }
        },
        Movement::PageDown => {
            if !s.page_down_is_end(list) {
                let anchored = s.at_index(s.page_anchor(list, 1));
                lemma_index_not_negative(s.at, list.len(), list.should_loop, 1);
                lemma_page_around_not_negative(anchored, list, Movement::Up);
                let turned = anchored.with_page_around(list, Movement::Up);
                lemma_prev_selectable(turned.at_index(turned.page_end), list);
            }
        },
        _ => {},
    }
}

/// Whatever key is made use of, the item hovered after it is one that can
/// be hovered; and a key that is not made use of leaves the state alone, as
/// it gives no other.
pub proof fn lemma_key_hovers_selectable(s: SelectState, list: ListView, key: KeyEvent)
    requires
        s.wf(list),
    ensures
        s.after_key(list, key) matches Some(after) ==> list.is_selectable(after.at),
{
    match Movement::of_key(key) {
        Some(movement) => {
            lemma_move_hovers_selectable(s, list, movement);
        },
        None => {},
    }
}

/// Where the window fits, it fits after it has followed a move, and the
/// hovered item is in it: either the hovered item is within the window, which
/// then stays; or the window is built anew around it, and fits if the item
/// is less high than the lines left beside the footer.
pub proof fn lemma_window_follows_move(s: SelectState, list: ListView, moved: Movement)
    requires
        s.wf(list),
        s.window_fits(list),
        s.at_outside_page() ==> s.hover_fits(list),
        moved == Movement::Up || moved == Movement::Down,
    ensures
        s.with_page_kept(list, moved).wf(list),
        s.with_page_kept(list, moved).window_fits(list),
        s.with_page_kept(list, moved).hover_is_shown(),
        s.with_page_kept(list, moved).window_rows(list) <= list.page_size - 1,
{
    if s.at_outside_page() {
        lemma_page_around_fits(s, list, moved);
    }
}

/// Where the items share a page evenly and the window fits, the window fits
/// after a movement, before it has followed.
pub proof fn lemma_window_fits_after_move(s: SelectState, list: ListView, movement: Movement)
    requires
        s.wf(list),
        s.pages_evenly(list),
        s.window_fits(list),
        movement == Movement::PageUp && !s.page_up_is_home(list) ==> s.can_page(list, -1),
        movement == Movement::PageDown && !s.page_down_is_end(list) ==> s.can_page(list, 1),
    ensures
        s.moved_by(list, movement) matches Some((moved, direction)) ==> moved.wf(list)
            && moved.pages_evenly(list) && moved.window_fits(list) && 0 <= moved.at < list.len()
            && (direction == Movement::Up || direction == Movement::Down),
{
    lemma_move_hovers_selectable(s, list, movement);
    match s.moved_by(list, movement) {
        Some((moved, _)) => {
            match movement {
                Movement::PageUp => {
                    if !s.page_up_is_home(list) {
                        let anchored = s.at_index(s.page_anchor(list, -1));
                        lemma_index_not_negative(s.at, list.len(), list.should_loop, -1);
                        lemma_pages_evenly_by_heights(s, anchored, list);
                        lemma_page_around_fits_evenly(anchored, list, Movement::Down);
                        let turned = anchored.with_page_around(list, Movement::Down);
                        if turned.page_start == 0 && !list.should_loop {
                            let top = turned.at_index(s.first_selectable);
                            lemma_pages_evenly_by_heights(turned, top, list);
                            lemma_first_page_fits_evenly(top, list);
                        } else {
                            lemma_pages_evenly_by_heights(turned, moved, list);
                            lemma_window_fits_by_window(turned, moved, list);
                        }
                    } else {
                        lemma_pages_evenly_by_heights(s, moved, list);
                        lemma_window_fits_by_window(s, moved, list);
                    }
                },
                Movement::PageDown => {
                    if !s.page_down_is_end(list) {
                        let anchored = s.at_index(s.page_anchor(list, 1));
                        lemma_index_not_negative(s.at, list.len(), list.should_loop, 1);
                        lemma_pages_evenly_by_heights(s, anchored, list);
                        lemma_page_around_fits_evenly(anchored, list, Movement::Up);
                        let turned = anchored.with_page_around(list, Movement::Up);
                        if turned.page_end + 1 == list.len() {
                            let bottom = turned.at_index(turned.page_end);
                            lemma_pages_evenly_by_heights(turned, bottom, list);
                            lemma_page_around_fits_evenly(bottom, list, Movement::Down);
                            let around = bottom.with_page_around(list, Movement::Down);
                            lemma_pages_evenly_by_heights(around, moved, list);
                            lemma_window_fits_by_window(around, moved, list);
                        } else {
                            lemma_pages_evenly_by_heights(turned, moved, list);
                            lemma_window_fits_by_window(turned, moved, list);
                        }
                    } else {
                        lemma_pages_evenly_by_heights(s, moved, list);
                        lemma_window_fits_by_window(s, moved, list);
                    }
                },
                _ => {
                    lemma_pages_evenly_by_heights(s, moved, list);
                    lemma_window_fits_by_window(s, moved, list);
                },
            }
        },
        None => {},
    }
}

/// The window stays within the page: where the items share a page evenly and
/// the window fits, then after any key that is made use of the window fits,
/// so that it takes no more lines than the page has beside the footer, and
/// the hovered item is in it.
pub proof fn lemma_window_follows_key(s: SelectState, list: ListView, key: KeyEvent)
    requires
        s.wf(list),
        s.pages_evenly(list),
        s.window_fits(list),
        s.takes_key(list, key),
    ensures
        s.after_key(list, key) matches Some(after) ==> after.wf(list) && after.pages_evenly(list)
            && after.window_fits(list) && after.hover_is_shown() && after.window_rows(list)
            <= list.page_size - 1,
{
    match Movement::of_key(key) {
        Some(movement) => {
            lemma_window_fits_after_move(s, list, movement);
            match s.moved_by(list, movement) {
                Some((moved, direction)) => {
                    lemma_hover_fits_evenly(moved, list);
                    lemma_window_follows_move(moved, list, direction);
                },
                None => {},
            }
        },
        None => {},
    }
}

/// The window follows the hovered item: where the list scrolls and the
/// window fits, then after any key that is made use of the window fits, so
/// that it takes no more lines than the page has beside the footer, and the
/// hovered item is in it, if only every item that a window is built around on
/// the way is less high than those lines. Nothing is asked of the other
/// items.
pub proof fn lemma_window_follows_key_at_hand(s: SelectState, list: ListView, key: KeyEvent)
    requires
        s.wf(list),
        s.cache is Some,
        s.is_paginating(list),
        s.window_fits(list),
        s.rebuilds_fit(list, key),
    ensures
        s.after_key(list, key) matches Some(after) ==> after.wf(list) && after.window_fits(list)
            && after.hover_is_shown() && after.window_rows(list) <= list.page_size - 1,
{
    match Movement::of_key(key) {
        Some(movement) => {
            lemma_move_hovers_selectable(s, list, movement);
            match s.moved_by(list, movement) {
                Some((moved, direction)) => {
                    if movement == Movement::PageUp && !s.page_up_is_home(list) {
                        let anchored = s.at_index(s.page_anchor(list, -1));
                        lemma_page_around_fits(anchored, list, Movement::Down);
                        let turned = anchored.with_page_around(list, Movement::Down);
                        if turned.page_start == 0 && !list.should_loop {
                            lemma_first_page_fits(turned.at_index(s.first_selectable), list);
                        } else {
                            lemma_window_fits_by_window(turned, moved, list);
                        }
                    } else if movement == Movement::PageDown && !s.page_down_is_end(list) {
                        let anchored = s.at_index(s.page_anchor(list, 1));
                        lemma_page_around_fits(anchored, list, Movement::Up);
                        let turned = anchored.with_page_around(list, Movement::Up);
                        if turned.page_end + 1 == list.len() {
                            let bottom = turned.at_index(turned.page_end);
                            lemma_page_around_fits(bottom, list, Movement::Down);
                            let around = bottom.with_page_around(list, Movement::Down);
                            lemma_window_fits_by_window(around, moved, list);
                        } else {
                            lemma_window_fits_by_window(turned, moved, list);
                        }
                    } else {
                        lemma_window_fits_by_window(s, moved, list);
                    }
                    lemma_window_follows_move(moved, list, direction);
                },
                None => {},
            }
        },
        None => {},
    }
}

/// Where the items share a page evenly and the window fits, the window fits
/// after the hovered index has been set, and the hovered item is in it if the
/// index is within the list.
pub proof fn lemma_window_follows_hover(s: SelectState, list: ListView, at: int)
    requires
        s.wf(list),
        s.pages_evenly(list),
        s.window_fits(list),
        0 <= at,
    ensures
        s.hovering(list, at).wf(list),
        s.hovering(list, at).pages_evenly(list),
        s.hovering(list, at).window_fits(list),
        at < list.len() ==> s.hovering(list, at).hover_is_shown(),
{
    let set = s.at_index(at);
    lemma_pages_evenly_by_heights(s, set, list);
    lemma_window_fits_by_window(s, set, list);
    if at >= list.len() {
        lemma_first_page_fits_evenly(set, list);
    } else if set.at_outside_page() {
        lemma_page_around_fits_evenly(set, list, Movement::Up);
        lemma_page_around_fits_evenly(set, list, Movement::Down);
    }
}

/// Where the list scrolls and the window fits, the window fits after the
/// hovered index has been set to one within the list, and the hovered item
/// is in it, if only the item is less high than the lines left beside the
/// footer where the window is built anew around it.
pub proof fn lemma_window_follows_hover_at_hand(s: SelectState, list: ListView, at: int)
    requires
        s.wf(list),
        s.is_paginating(list),
        s.window_fits(list),
        0 <= at < list.len(),
        s.at_index(at).at_outside_page() ==> s.at_index(at).hover_fits(list),
    ensures
        s.hovering(list, at).wf(list),
        s.hovering(list, at).window_fits(list),
        s.hovering(list, at).hover_is_shown(),
        s.hovering(list, at).window_rows(list) <= list.page_size - 1,
{
    let set = s.at_index(at);
    lemma_window_fits_by_window(s, set, list);
    lemma_window_follows_move(set, list, Movement::Up);
    lemma_window_follows_move(set, list, Movement::Down);
}

/// The list is first shown with a window that fits, where its items share a
/// page evenly under the layout; and a list that had such a window, and is
/// shown again for the layout it was measured for, keeps it.
pub proof fn lemma_shown_window_fits(s: SelectState, list: ListView, layout: Layout)
    requires
        s.wf(list),
        s.measured(list, layout).pages_evenly(list),
        s.has_window() ==> s.window_fits(list) && s.cache is Some && s.cache->Some_0.layout
            == layout,
    ensures
        s.shown(list, layout).wf(list),
        s.shown(list, layout).pages_evenly(list),
        s.shown(list, layout).window_fits(list),
{
    let measured = s.measured(list, layout);
    if s.has_window() {
        assert(measured == s);
    } else {
        lemma_first_page_fits_evenly(measured, list);
    }
}

/// Page down moves on: in a list that does not loop, the key page down on
/// an item before the last that can be hovered hovers an item further on, if
/// only an item that can be hovered lies between the hovered one and the end
/// of the window that the page down builds.
pub proof fn lemma_page_down_moves_on(s: SelectState, list: ListView, key: KeyEvent)
    requires
        s.knows_ends(list),
        !list.should_loop,
        key.code == KeyCode::PageDown,
        s.at < s.last_selectable,
        s.page_down_finds_item(list),
    ensures
        s.after_key(list, key) matches Some(after) && s.at < after.at <= s.last_selectable
            && after.knows_ends(list) && after.last_selectable == s.last_selectable,
{
    let sel = list.selectable;
    lemma_ends_selectable(list);
    if !s.page_down_is_end(list) {
        let anchored = s.at_index(s.page_anchor(list, 1));
        let turned = anchored.with_page_around(list, Movement::Up);
        if turned.page_end + 1 != list.len() {
            let seated = turned.at_index(turned.page_end);
            let between = choose|j: int|
                s.at < j < turned.page_end && #[trigger] list.is_selectable(j);
            assert(sel[between]);
            lemma_prev_selectable(seated, list);
            if seated.at <= list.len() {
                lemma_prev_from(sel, seated.at - 1);
            }
        }
    }
}

/// Page down reaches the end: in a list that does not loop, pressing page
/// down often enough, and no more often than there are items, hovers the
/// last item that can be hovered, if only at each press an item that can be
/// hovered lies between the hovered one and the end of the window that the
/// page down builds. Returns how often.
pub proof fn lemma_page_down_reaches_the_end(
    s: SelectState,
    list: ListView,
    key: KeyEvent,
) -> (presses: nat)
    requires
        s.knows_ends(list),
        !list.should_loop,
        key.code == KeyCode::PageDown,
        s.at <= s.last_selectable,
        forall|n: nat| #[trigger]
            s.after_presses(list, key, n).at < s.last_selectable ==> s.after_presses(
                list,
                key,
                n,
            ).page_down_finds_item(list),
    ensures
        presses <= s.last_selectable - s.at,
        presses <= list.len(),
        s.after_presses(list, key, presses).at == s.last_selectable,
    decreases s.last_selectable - s.at,
{
    lemma_ends_selectable(list);
    if s.at == s.last_selectable {
        0
    } else {
        assert(s.after_presses(list, key, 0) == s);
        lemma_page_down_moves_on(s, list, key);
        let after = s.after_key(list, key)->Some_0;
        assert forall|n: nat| #[trigger]
            after.after_presses(list, key, n).at < after.last_selectable implies after
            .after_presses(list, key, n).page_down_finds_item(list) by {
            assert(s.after_presses(list, key, n + 1) == after.after_presses(list, key, n));
        }
        let more = lemma_page_down_reaches_the_end(after, list, key);
        assert(s.after_presses(list, key, more + 1) == after.after_presses(list, key, more));
        more + 1
    }
}

/// In a list that does not loop, the key up on the first item that can be
/// hovered and the key down on the last one are not made use of.
pub proof fn lemma_no_move_past_the_ends(s: SelectState, list: ListView, key: KeyEvent)
    requires
        !list.should_loop,
        (key.code == KeyCode::Up && s.at == s.first_selectable) || (key.code == KeyCode::Down
            && s.at == s.last_selectable),
    ensures
        s.after_key(list, key) is None,
{
}

/// Measuring twice for one layout is measuring once: the state is the same,
/// so is the height reported, there is one measured height for each item,
/// and the second time the list is asked for no height.
pub proof fn lemma_measuring_is_idempotent(s: SelectState, list: ListView, layout: Layout)
    ensures
        s.measured(list, layout).measured(list, layout) == s.measured(list, layout),
        s.measured(list, layout).measured(list, layout).reported_rows(list, layout) == s.measured(
            list,
            layout,
        ).reported_rows(list, layout),
        s.measured(list, layout).heights().len() == list.len(),
        s.measured(list, layout).heights_to_ask(list, layout) == 0,
{
}

} // verus!
