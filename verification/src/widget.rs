//! What every element that can be drawn on the terminal offers.

use crate::backend::Backend;
use crate::events::KeyEvent;
use crate::layout::Layout;
use vstd::prelude::*;

verus! {

/// An element that can be drawn on the terminal.
///
/// Each operation has a condition of its own kind that the widget names: a
/// widget says what it asks of a layout before it is rendered or measured, of
/// a layout before it places the cursor, and of its state before it takes a
/// key.
pub trait Widget {
    /// What [`render`](Widget::render) asks of the widget and the layout.
    spec fn can_render(&self, layout: Layout) -> bool;

    /// What [`height`](Widget::height) asks of the widget and the layout.
    spec fn can_measure(&self, layout: Layout) -> bool;

    /// Whether the widget can say where the cursor goes under `layout`.
    spec fn has_cursor(&self, layout: Layout) -> bool;

    /// What [`handle_key`](Widget::handle_key) asks of the widget and the key.
    spec fn can_handle(&self, key: KeyEvent) -> bool;

    /// Draws the widget in the place that `layout` describes, and leaves in
    /// `layout` the place where the next widget starts.
    fn render<B: Backend>(&mut self, layout: &mut Layout, backend: &mut B) -> (r: Result<
        (),
        B::Error,
    >)
        requires
            old(self).can_render(*old(layout)),
    ;

    /// The number of lines that the widget takes in the place that `layout`
    /// describes. Leaves in `layout` the place where the next widget starts.
    fn height(&mut self, layout: &mut Layout) -> (h: u16)
        requires
            old(self).can_measure(*old(layout)),
    ;

    /// The column and the row of the cursor, if the widget were rendered in
    /// the place that `layout` describes.
    fn cursor_pos(&mut self, layout: Layout) -> (pos: (u16, u16))
        requires
            old(self).has_cursor(layout),
    ;

    /// Takes a key. Returns whether the widget made use of it.
    fn handle_key(&mut self, key: KeyEvent) -> (handled: bool)
        requires
            old(self).can_handle(key),
    ;
}

/// The character filter that lets every character through.
pub fn no_filter(c: char) -> (kept: Option<char>)
    ensures
        kept == Some(c),
{
    Some(c)
}

/// What a prompt answers when it is asked whether it is done.
pub enum Validation {
    /// The prompt is ready to finish.
    Finish,
    /// The state is valid, but the prompt goes on: it has taken `Enter` and is
    /// not complete.
    Continue,
}

} // verus!
