//! The decisions of the loop that runs a prompt on the terminal: what an
//! event leads to, and where the prompt stands on the screen. Reading events
//! and drawing is left to the caller.

use crate::backend::{all_done, asked, lemma_asked_on, lemma_asked_one, Backend, Op, Size};
use crate::events::{KeyCode, KeyEvent};
use crate::layout::{Layout, RenderRegion};
use crate::widget::{Validation, Widget};
use vstd::prelude::*;

verus! {

/// A widget that asks for one answer. It is what the loop runs.
pub trait Prompt: Widget {
    /// What `validate` reports when the answer is not valid. It is shown on
    /// one line.
    type ValidateErr;

    /// The answer.
    type Output;

    /// Whether there is an answer to give when the user leaves the prompt
    /// with the escape key.
    spec fn spec_has_default(&self) -> bool;

    /// The main text of the prompt. It is shown in bold.
    fn prompt(&self) -> &str;

    /// The hint, shown in dark grey where there is one. A prompt has none
    /// unless it says otherwise.
    fn hint(&self) -> (hint: Option<&str>)
        default_ensures
            hint is None,
    {
        None
    }

    /// Whether the prompt can give its answer. Called whenever the user
    /// presses the enter key. A prompt is done unless it says otherwise.
    fn validate(&mut self) -> (r: Result<Validation, Self::ValidateErr>)
        default_ensures
            r matches Ok(v) && v is Finish,
    {
        Ok(Validation::Finish)
    }

    /// The answer. Called once `validate` has answered
    /// [`Validation::Finish`].
    fn finish(self) -> Self::Output;

    /// Whether there is an answer to give when the user leaves the prompt
    /// with the escape key.
    fn has_default(&self) -> (b: bool)
        ensures
            b == self.spec_has_default(),
    ;

    /// The answer to give when the user leaves the prompt with the escape
    /// key.
    fn finish_default(self) -> Self::Output
        requires
            self.spec_has_default(),
    ;
}

/// An event of the terminal.
#[derive(Debug, Clone, Copy, PartialEq, Eq, Structural, Hash)]
pub enum Event {
    /// The terminal has a new size.
    Resize(Size),
    /// A key was pressed.
    Key(KeyEvent),
    /// Anything else.
    Other,
}

/// Why a prompt is left without an answer.
#[derive(Debug, Clone, Copy, PartialEq, Eq, Structural, Hash)]
pub enum Abort {
    /// The user pressed `c` with the control key.
    Interrupted,
    /// The input has ended.
    Eof,
}

/// What the loop does after an event.
pub enum Action<E> {
    /// Nothing: it waits for the next event.
    Wait,
    /// It renders the prompt anew.
    Render,
    /// It leaves the prompt without an answer.
    Abort(Abort),
    /// It takes the answer: that of the prompt if the user pressed the enter
    /// key, else the default.
    Finish { pressed_enter: bool },
    /// It shows the error below the prompt, and waits for the next event.
    Invalid(E),
}

/// What a key leads to before the prompt sees it.
#[derive(Debug, Clone, Copy, PartialEq, Eq, Structural, Hash)]
pub enum KeyKind {
    /// `c` with the control key: the prompt is left.
    Interrupt,
    /// The null key, which stands for the end of the input: the prompt is
    /// left.
    Eof,
    /// The escape key: the default is taken, where there is one.
    Escape,
    /// The enter key: the prompt is asked whether it is done.
    Enter,
    /// Any other key: it is handed to the prompt.
    Other,
}

/// What a key leads to before the prompt sees it.
pub open spec fn kind_of_key(key: KeyEvent) -> KeyKind {
    if key.spec_is_interrupt() {
        KeyKind::Interrupt
    } else if key.code == KeyCode::Null {
        KeyKind::Eof
    } else if key.code == KeyCode::Esc {
        KeyKind::Escape
    } else if key.code == KeyCode::Enter {
        KeyKind::Enter
    } else {
        KeyKind::Other
    }
}

/// What a key leads to before the prompt sees it.
pub fn classify_key(key: KeyEvent) -> (kind: KeyKind)
    ensures
        kind == kind_of_key(key),
{
    if key.is_interrupt() {
        return KeyKind::Interrupt;
    }
    match key.code {
        KeyCode::Null => KeyKind::Eof,
        KeyCode::Esc => KeyKind::Escape,
        KeyCode::Enter => KeyKind::Enter,
        _ => KeyKind::Other,
    }
}

/// What the loop does once the prompt has said whether it is done: with
/// `Finish` it takes the answer, with `Continue` it renders the prompt anew,
/// and with an error it shows the error.
pub fn after_validation<E>(validation: Result<Validation, E>) -> (action: Action<E>)
    ensures
        match validation {
            Ok(Validation::Finish) => action == (Action::<E>::Finish { pressed_enter: true }),
            Ok(Validation::Continue) => action == Action::<E>::Render,
            Err(e) => action == Action::Invalid(e),
        },
{
    match validation {
        Ok(Validation::Finish) => Action::Finish { pressed_enter: true },
        Ok(Validation::Continue) => Action::Render,
        Err(e) => Action::Invalid(e),
    }
}

/// What the loop does once the prompt has seen a key: it renders the prompt
/// anew if the prompt made use of the key, and waits if not.
pub fn after_key<E>(handled: bool) -> (action: Action<E>)
    ensures
        action == if handled {
            Action::<E>::Render
        } else {
            Action::<E>::Wait
        },
{
    if handled {
        Action::Render
    } else {
        Action::Wait
    }
}

/// The first row of a prompt of `height` rows that stood at `base_row`, once
/// the screen of `terminal_h` rows has been scrolled up so far that a row
/// stays free below the prompt.
pub open spec fn scrolled_row(base_row: int, terminal_h: int, height: int) -> int {
    if base_row >= terminal_h - height {
        terminal_h - height - 1
    } else {
        base_row
    }
}

/// Where a prompt stands on the screen, and how it is run.
pub struct InputView {
    pub terminal_h: u16,
    pub terminal_w: u16,
    pub base_row: u16,
    pub base_col: u16,
    pub hide_cursor: bool,
}

/// Runs a prompt on the terminal: it knows where the prompt stands on the
/// screen and decides what each event leads to.
pub struct Input<P> {
    prompt: P,
    terminal_h: u16,
    terminal_w: u16,
    base_row: u16,
    base_col: u16,
    hide_cursor: bool,
}

impl<P> Input<P> {
    /// The prompt.
    pub closed spec fn spec_prompt(&self) -> P {
        self.prompt
    }

    /// Where the prompt stands.
    pub closed spec fn view(&self) -> InputView {
        InputView {
            terminal_h: self.terminal_h,
            terminal_w: self.terminal_w,
            base_row: self.base_row,
            base_col: self.base_col,
            hide_cursor: self.hide_cursor,
        }
    }

    /// An input for `prompt`, at the top left of a terminal whose size is not
    /// known yet, with the cursor shown.
    pub fn new(prompt: P) -> (input: Self)
        ensures
            input.spec_prompt() == prompt,
            input@ == (InputView {
                terminal_h: 0,
                terminal_w: 0,
                base_row: 0,
                base_col: 0,
                hide_cursor: false,
            }),
    {
        Input { prompt, base_row: 0, base_col: 0, terminal_h: 0, terminal_w: 0, hide_cursor: false }
    }

    /// The input with the cursor hidden while it runs.
    pub fn hide_cursor(self) -> (input: Self)
        ensures
            input.spec_prompt() == self.spec_prompt(),
            input@ == (InputView { hide_cursor: true, ..self@ }),
    {
        let mut input = self;
        input.hide_cursor = true;
        input
    }

    /// Whether the cursor is hidden while the input runs.
    pub fn hides_cursor(&self) -> (b: bool)
        ensures
            b == self@.hide_cursor,
    {
        self.hide_cursor
    }

    /// The prompt.
    pub fn prompt(&self) -> (prompt: &P)
        ensures
            *prompt == self.spec_prompt(),
    {
        &self.prompt
    }

    /// The prompt, to be rendered or measured.
    pub fn prompt_mut(&mut self) -> (prompt: &mut P)
        ensures
            *prompt == old(self).spec_prompt(),
            final(self).spec_prompt() == *final(prompt),
            final(self)@ == old(self)@,
    {
        &mut self.prompt
    }

    /// The size of the terminal, as last taken note of.
    pub fn size(&self) -> (size: Size)
        ensures
            size == (Size { width: self@.terminal_w, height: self@.terminal_h }),
    {
        Size { width: self.terminal_w, height: self.terminal_h }
    }

    /// The column and the row where the prompt starts.
    pub fn base(&self) -> (base: (u16, u16))
        ensures
            base == (self@.base_col, self@.base_row),
    {
        (self.base_col, self.base_row)
    }

    /// The layout that the prompt is measured and rendered with: it starts at
    /// the column and in the row taken note of, in a terminal of the size
    /// taken note of, and may take the whole height.
    pub fn layout(&self) -> (layout: Layout)
        ensures
            layout == (Layout {
                line_offset: self@.base_col,
                offset_x: 0,
                offset_y: self@.base_row,
                width: self@.terminal_w,
                height: self@.terminal_h,
                max_height: self@.terminal_h,
                render_region: RenderRegion::Middle,
            }),
    {
        Layout::new(self.base_col, self.size()).with_offset(0, self.base_row)
    }

    /// The row that is `height` rows below the one where the prompt starts.
    pub fn row_below(&self, height: u16) -> (row: u16)
        requires
            self@.base_row + height <= u16::MAX,
        ensures
            row == self@.base_row + height,
    {
        self.base_row + height
    }

    /// Takes note of the size of the terminal.
    pub fn set_size(&mut self, size: Size)
        ensures
            final(self).spec_prompt() == old(self).spec_prompt(),
            final(self)@ == (InputView {
                terminal_w: size.width,
                terminal_h: size.height,
                ..old(self)@
            }),
    {
        self.terminal_w = size.width;
        self.terminal_h = size.height;
    }

    /// Takes note of the place where the prompt starts.
    pub fn set_base(&mut self, base_col: u16, base_row: u16)
        ensures
            final(self).spec_prompt() == old(self).spec_prompt(),
            final(self)@ == (InputView { base_col, base_row, ..old(self)@ }),
    {
        self.base_col = base_col;
        self.base_row = base_row;
    }

    /// The row where a prompt of `height` rows starts once the screen has
    /// been scrolled up to make room for it, and the number of rows to scroll
    /// up by. The prompt must be less high than the terminal.
    pub fn adjust_scrollback(&self, height: usize) -> (scroll: (u16, u16))
        requires
            height < self@.terminal_h,
        ensures
            scroll.0 == scrolled_row(self@.base_row as int, self@.terminal_h as int, height as int),
            scroll.1 == self@.base_row - scroll.0,
    {
        let th = self.terminal_h as usize;

        let mut base_row = self.base_row;
        let mut dist: u16 = 0;

        if self.base_row as usize >= th - height {
            dist = (self.base_row as usize + height - th + 1) as u16;
            base_row -= dist;
        }
        (base_row, dist)
    }

    /// Whether there are rows below the one where the prompt starts, to be
    /// cleared before the prompt is drawn.
    pub fn has_rows_below(&self) -> (b: bool)
        ensures
            b == (self@.base_row + 1 < self@.terminal_h),
    {
        self.base_row < u16::MAX && self.base_row + 1 < self.terminal_h
    }
}

/// The column where the answer starts, after a mark of two columns, a message
/// of `message_chars` characters, a space and, where there is a hint, a hint
/// of so many characters and a space; or nothing where that is no column of a
/// terminal.
pub open spec fn answer_column(message_chars: int, hint_chars: Option<int>) -> Option<int> {
    let hint = match hint_chars {
        Some(chars) => chars + 1,
        None => 0,
    };
    if message_chars + 3 <= u16::MAX && hint <= u16::MAX && message_chars + 3 + hint
        <= u16::MAX {
        Some(message_chars + 3 + hint)
    } else {
        None
    }
}

/// The column where the answer starts.
pub fn base_column(message_chars: usize, hint_chars: Option<usize>) -> (column: Option<u16>)
    ensures
        match column {
            Some(c) => answer_column(
                message_chars as int,
                match hint_chars {
                    Some(h) => Some(h as int),
                    None => None,
                },
            ) == Some(c as int),
            None => answer_column(
                message_chars as int,
                match hint_chars {
                    Some(h) => Some(h as int),
                    None => None,
                },
            ) is None,
        },
{
    let limit = u16::MAX as usize;
    if message_chars > limit - 3 {
        return None;
    }
    let prompt_len = message_chars + 3;
    let hint_len = match hint_chars {
        Some(chars) => {
            if chars > limit - 1 {
                return None;
            }
            chars + 1
        },
        None => 0,
    };
    if hint_len > limit - prompt_len {
        return None;
    }
    Some((prompt_len + hint_len) as u16)
}

impl<P: Prompt> Input<P> {
    /// What the loop does after `event`. A new size is taken note of. `c`
    /// with the control key and the null key lead out of the prompt. The
    /// escape key takes the default where there is one. The enter key asks
    /// the prompt whether it is done, and what follows is what
    /// [`after_validation`] gives for its answer. Any other key, and the
    /// escape key without a default, is handed to the prompt, and what follows
    /// is what [`after_key`] gives for its answer.
    pub fn handle_event(&mut self, event: Event) -> (action: Action<P::ValidateErr>)
        requires
            event matches Event::Key(key) ==> old(self).spec_prompt().can_handle(key),
        ensures
            final(self)@ == match event {
                Event::Resize(size) => InputView {
                    terminal_w: size.width,
                    terminal_h: size.height,
                    ..old(self)@
                },
                _ => old(self)@,
            },
            match event {
                Event::Resize(_) | Event::Other => action == Action::<P::ValidateErr>::Wait
                    && final(self).spec_prompt() == old(self).spec_prompt(),
                Event::Key(key) => match kind_of_key(key) {
                    KeyKind::Interrupt => action == Action::<P::ValidateErr>::Abort(
                        Abort::Interrupted,
                    ) && final(self).spec_prompt() == old(self).spec_prompt(),
                    KeyKind::Eof => action == Action::<P::ValidateErr>::Abort(Abort::Eof)
                        && final(self).spec_prompt() == old(self).spec_prompt(),
                    KeyKind::Escape if old(self).spec_prompt().spec_has_default() => action == (
                    Action::<P::ValidateErr>::Finish { pressed_enter: false })
                        && final(self).spec_prompt() == old(self).spec_prompt(),
                    // the prompt is asked whether it is done, and the action is
                    // what follows from its answer
                    KeyKind::Enter => exists|q: &mut P, v: Result<Validation, P::ValidateErr>|
                        *q == old(self).spec_prompt() && *final(q) == final(self).spec_prompt()
                            && #[trigger] call_ensures(<P as Prompt>::validate, (q,), v)
                            && (match v {
                            Ok(Validation::Finish) => action == (Action::<
                                P::ValidateErr,
                            >::Finish { pressed_enter: true }),
                            Ok(Validation::Continue) => action == Action::<P::ValidateErr>::Render,
                            Err(e) => action == Action::Invalid(e),
                        }),
                    // the prompt is handed the key, and is rendered anew if it
                    // made use of it
                    _ => exists|q: &mut P, handled: bool|
                        *q == old(self).spec_prompt() && *final(q) == final(self).spec_prompt()
                            && #[trigger] call_ensures(
                            <P as Widget>::handle_key,
                            (q, key),
                            handled,
                        ) && action == (if handled {
                            Action::<P::ValidateErr>::Render
                        } else {
                            Action::<P::ValidateErr>::Wait
                        }),
                },
            },
            action matches Action::Finish { pressed_enter } ==> pressed_enter
                || final(self).spec_prompt().spec_has_default(),
    {
        match event {
            Event::Resize(size) => {
                self.set_size(size);
                Action::Wait
            },
            Event::Key(key) => match classify_key(key) {
                KeyKind::Interrupt => Action::Abort(Abort::Interrupted),
                KeyKind::Eof => Action::Abort(Abort::Eof),
                KeyKind::Enter => after_validation(self.prompt.validate()),
                kind => {
                    if kind == KeyKind::Escape && self.prompt.has_default() {
                        Action::Finish { pressed_enter: false }
                    } else {
                        after_key(self.prompt.handle_key(key))
                    }
                },
            },
            Event::Other => Action::Wait,
        }
    }

    /// The answer: that of the prompt if the user pressed the enter key, else
    /// the default, which there must be.
    pub fn finish(self, pressed_enter: bool) -> (answer: P::Output)
        requires
            !pressed_enter ==> self.spec_prompt().spec_has_default(),
        ensures
            pressed_enter ==> call_ensures(P::finish, (self.spec_prompt(),), answer),
            !pressed_enter ==> call_ensures(P::finish_default, (self.spec_prompt(),), answer),
    {
        if pressed_enter {
            self.prompt.finish()
        } else {
            self.prompt.finish_default()
        }
    }
}

/// A terminal with the cursor and the raw mode as a prompt needs them while
/// it runs.
pub struct TerminalState<B> {
    backend: B,
    hide_cursor: bool,
    enabled: bool,
}

impl<B: Backend> TerminalState<B> {
    /// The terminal.
    pub closed spec fn spec_backend(&self) -> B {
        self.backend
    }

    /// Whether the terminal has been set up and not been put back.
    pub closed spec fn is_enabled(&self) -> bool {
        self.enabled
    }

    /// Whether the cursor is hidden while the terminal is set up.
    pub closed spec fn hides_cursor(&self) -> bool {
        self.hide_cursor
    }

    /// A terminal that has not been set up.
    pub fn new(backend: B, hide_cursor: bool) -> (state: Self)
        ensures
            state.spec_backend() == backend,
            !state.is_enabled(),
            state.hides_cursor() == hide_cursor,
    {
        TerminalState { backend, enabled: false, hide_cursor }
    }

    /// What is asked of the terminal to set it up: to hide the cursor where
    /// that is asked for, and to enable the raw mode.
    pub open spec fn setting_up(&self) -> Seq<Op> {
        if self.hides_cursor() {
            seq![Op::HideCursor, Op::EnableRawMode]
        } else {
            seq![Op::EnableRawMode]
        }
    }

    /// What is asked of the terminal to put it back: to show the cursor where
    /// it was hidden, and to disable the raw mode.
    pub open spec fn putting_back(&self) -> Seq<Op> {
        if self.hides_cursor() {
            seq![Op::ShowCursor, Op::DisableRawMode]
        } else {
            seq![Op::DisableRawMode]
        }
    }

    /// Sets the terminal up: hides the cursor where that is asked for, and
    /// enables the raw mode, stopping at the first failure and handing it on.
    /// Whether that succeeds or fails, the terminal counts as set up.
    pub fn init(&mut self) -> (r: Result<(), B::Error>)
        ensures
            final(self).is_enabled(),
            final(self).hides_cursor() == old(self).hides_cursor(),
            asked(
                old(self).spec_backend()@,
                final(self).spec_backend()@,
                old(self).setting_up(),
                r,
            ),
    {
        let ghost start = self.backend@;
        assert(start.calls == start.calls + all_done::<B::Error>(seq![]));
        self.enabled = true;
        if self.hide_cursor {
            let hidden = self.backend.hide_cursor();
            proof {
                lemma_asked_one(start, self.backend@, Op::HideCursor, hidden);
                lemma_asked_on(
                    start,
                    start,
                    self.backend@,
                    seq![],
                    seq![Op::HideCursor],
                    seq![Op::EnableRawMode],
                    hidden,
                );
                assert(seq![] + seq![Op::HideCursor] + seq![Op::EnableRawMode] == seq![
                    Op::HideCursor,
                    Op::EnableRawMode,
                ]);
            }
            if hidden.is_err() {
                return hidden;
            }
            let ghost mid = self.backend@;
            let raw = self.backend.enable_raw_mode();
            proof {
                lemma_asked_one(mid, self.backend@, Op::EnableRawMode, raw);
                lemma_asked_on(
                    start,
                    mid,
                    self.backend@,
                    seq![] + seq![Op::HideCursor],
                    seq![Op::EnableRawMode],
                    seq![],
                    raw,
                );
                assert(seq![] + seq![Op::HideCursor] + seq![Op::EnableRawMode] == seq![
                    Op::HideCursor,
                    Op::EnableRawMode,
                ]);
                assert(seq![] + seq![Op::HideCursor] + seq![Op::EnableRawMode] + seq![] == seq![
                    Op::HideCursor,
                    Op::EnableRawMode,
                ]);
            }
            raw
        } else {
            let raw = self.backend.enable_raw_mode();
            proof {
                lemma_asked_one(start, self.backend@, Op::EnableRawMode, raw);
            }
            raw
        }
    }

    /// Puts the terminal back: shows the cursor where it was hidden, and
    /// disables the raw mode, stopping at the first failure and handing it
    /// on. Whether that succeeds or fails, the terminal no longer counts as
    /// set up.
    pub fn reset(&mut self) -> (r: Result<(), B::Error>)
        ensures
            !final(self).is_enabled(),
            final(self).hides_cursor() == old(self).hides_cursor(),
            asked(
                old(self).spec_backend()@,
                final(self).spec_backend()@,
                old(self).putting_back(),
                r,
            ),
    {
        let ghost start = self.backend@;
        assert(start.calls == start.calls + all_done::<B::Error>(seq![]));
        self.enabled = false;
        if self.hide_cursor {
            let shown = self.backend.show_cursor();
            proof {
                lemma_asked_one(start, self.backend@, Op::ShowCursor, shown);
                lemma_asked_on(
                    start,
                    start,
                    self.backend@,
                    seq![],
                    seq![Op::ShowCursor],
                    seq![Op::DisableRawMode],
                    shown,
                );
                assert(seq![] + seq![Op::ShowCursor] + seq![Op::DisableRawMode] == seq![
                    Op::ShowCursor,
                    Op::DisableRawMode,
                ]);
            }
            if shown.is_err() {
                return shown;
            }
            let ghost mid = self.backend@;
            let raw = self.backend.disable_raw_mode();
            proof {
                lemma_asked_one(mid, self.backend@, Op::DisableRawMode, raw);
                lemma_asked_on(
                    start,
                    mid,
                    self.backend@,
                    seq![] + seq![Op::ShowCursor],
                    seq![Op::DisableRawMode],
                    seq![],
                    raw,
                );
                assert(seq![] + seq![Op::ShowCursor] + seq![Op::DisableRawMode] == seq![
                    Op::ShowCursor,
                    Op::DisableRawMode,
                ]);
                assert(seq![] + seq![Op::ShowCursor] + seq![Op::DisableRawMode] + seq![] == seq![
                    Op::ShowCursor,
                    Op::DisableRawMode,
                ]);
            }
            raw
        } else {
            let raw = self.backend.disable_raw_mode();
            proof {
                lemma_asked_one(start, self.backend@, Op::DisableRawMode, raw);
            }
            raw
        }
    }

    /// Whether the terminal has been set up and not been put back.
    pub fn enabled(&self) -> (b: bool)
        ensures
            b == self.is_enabled(),
    {
        self.enabled
    }

    /// The terminal.
    pub fn backend(&mut self) -> (backend: &mut B)
        ensures
            *backend == old(self).spec_backend(),
            final(self).spec_backend() == *final(backend),
            final(self).is_enabled() == old(self).is_enabled(),
            final(self).hides_cursor() == old(self).hides_cursor(),
    {
        &mut self.backend
    }
}

} // verus!
