//! The line that asks a question: a message, and a hint where there is one.

use crate::backend::{
    all_done, asked, bold, colored, lemma_asked_on, lemma_asked_one, write_bold, write_colored,
    Backend, Color, Op,
};
use crate::events::KeyEvent;
use crate::layout::Layout;
use crate::widget::Widget;
use vstd::prelude::*;
use vstd::std_specs::convert::FromSpecImpl;

verus! {

/// The pair of characters that a hint stands between.
#[derive(Debug, Clone, Copy, PartialEq, Eq, Structural, Hash)]
pub enum Delimiter {
    Parentheses,
    Braces,
    SquareBracket,
    AngleBracket,
    Other(char, char),
    /// No delimiter: the hint stands bare.
    Nothing,
}

impl From<Delimiter> for Option<(char, char)> {
    fn from(delim: Delimiter) -> (pair: Option<(char, char)>) {
        match delim {
            Delimiter::Parentheses => Some(('(', ')')),
            Delimiter::Braces => Some(('{', '}')),
            Delimiter::SquareBracket => Some(('[', ']')),
            Delimiter::AngleBracket => Some(('<', '>')),
            Delimiter::Other(start, end) => Some((start, end)),
            Delimiter::Nothing => None,
        }
    }
}

impl FromSpecImpl<Delimiter> for Option<(char, char)> {
    open spec fn obeys_from_spec() -> bool {
        true
    }

    open spec fn from_spec(delim: Delimiter) -> Option<(char, char)> {
        delim.spec_chars()
    }
}

impl Delimiter {
    /// The two characters that the hint stands between, where there are any.
    pub open spec fn spec_chars(self) -> Option<(char, char)> {
        match self {
            Delimiter::Parentheses => Some(('(', ')')),
            Delimiter::Braces => Some(('{', '}')),
            Delimiter::SquareBracket => Some(('[', ']')),
            Delimiter::AngleBracket => Some(('<', '>')),
            Delimiter::Other(start, end) => Some((start, end)),
            Delimiter::Nothing => None,
        }
    }
}

/// What is asked of the terminal to write the hint of a prompt: the hint
/// between its delimiters, the hint alone where it has none, and an arrow
/// where there is no hint.
pub open spec fn hint_ops(hint: Option<Seq<char>>, delim: Delimiter) -> Seq<Op> {
    match (hint, delim.spec_chars()) {
        (Some(hint), Some((start, end))) => seq![
            Op::WriteChar(start),
            Op::WriteStr(hint),
            Op::WriteChar(end),
        ],
        (Some(hint), None) => seq![Op::WriteStr(hint)],
        (None, _) => seq![Op::WriteChar('›')],
    }
}

/// What is asked of the terminal to write a prompt: a mark in light green,
/// the message in bold, a space, the hint in dark grey, and a space in the
/// default colour.
pub open spec fn prompt_ops(message: Seq<char>, hint: Option<Seq<char>>, delim: Delimiter) -> Seq<
    Op,
> {
    colored("? "@, Color::LightGreen) + bold(message) + seq![
        Op::WriteStr(" "@),
        Op::SetFg(Color::DarkGrey),
    ] + hint_ops(hint, delim) + seq![Op::SetFg(Color::Reset), Op::WriteStr(" "@)]
}

/// What is asked of the terminal to write the line that stands for a
/// question once it is answered: a tick in light green, the message in bold
/// and a dot in dark grey, each with a space after it.
pub open spec fn finished_ops(message: Seq<char>) -> Seq<Op> {
    colored("✔"@, Color::LightGreen) + seq![Op::WriteStr(" "@)] + bold(message) + seq![
        Op::WriteStr(" "@),
    ] + colored("·"@, Color::DarkGrey) + seq![Op::WriteStr(" "@)]
}

/// Text that a prompt can show.
pub trait Text {
    /// The characters of the text.
    spec fn spec_text(&self) -> Seq<char>;

    /// The text.
    fn text(&self) -> (s: &str)
        ensures
            s@ == self.spec_text(),
    ;
}

impl<'a> Text for &'a str {
    open spec fn spec_text(&self) -> Seq<char> {
        self@
    }

    fn text(&self) -> (s: &str) {
        self
    }
}

impl Text for String {
    open spec fn spec_text(&self) -> Seq<char> {
        self@
    }

    fn text(&self) -> (s: &str) {
        self.as_str()
    }
}

/// What the place of a prompt on screen depends on: the number of characters
/// of its message and of its hint, and the delimiter of the hint.
pub struct PromptView {
    pub message_len: nat,
    pub hint_len: Option<nat>,
    pub delim: Delimiter,
}

impl PromptView {
    /// The columns that the hint takes: none without a hint, else its
    /// characters, and two more where it stands between delimiters.
    pub open spec fn hint_width(self) -> int {
        match self.hint_len {
            Some(len) => if self.delim == Delimiter::Nothing {
                len as int
            } else {
                len as int + 2
            },
            None => 0,
        }
    }

    /// The columns that the prompt takes. With a hint: a mark of two columns,
    /// the message, a space, the hint and a space. Without: the mark, the
    /// message, a space, an arrow and a space.
    pub open spec fn width(self) -> int {
        if self.hint_len is Some {
            2 + self.message_len + 1 + self.hint_width() + 1
        } else {
            2 + self.message_len as int + 3
        }
    }

    /// The column and the row where the prompt ends when it starts in the
    /// place that `layout` describes: where it does not fit the rest of the
    /// first line, what is over goes on through lines of the whole width.
    pub open spec fn cursor(self, layout: Layout) -> (int, int) {
        if self.width() > layout.spec_line_width() {
            let rest = self.width() - layout.spec_line_width();
            (rest % (layout.width as int), 1 + rest / (layout.width as int))
        } else {
            (layout.line_offset + self.width(), 0)
        }
    }

    /// What is asked of a layout before the prompt is placed in it: the first
    /// line starts within the width, which is not zero, and the row where the
    /// prompt ends fits the type of a row.
    pub open spec fn fits(self, layout: Layout) -> bool {
        &&& self.width() <= u16::MAX
        &&& layout.starts_in_line()
        &&& layout.width > 0
        &&& self.cursor(layout).1 <= u16::MAX
    }
}

/// A message with a hint, as the first line of a question.
#[derive(Debug, Clone)]
pub struct Prompt<M, H = &'static str> {
    message: M,
    hint: Option<H>,
    delim: Delimiter,
    message_len: u16,
    hint_len: u16,
}

impl<M, H> Prompt<M, H> {
    /// The message.
    pub closed spec fn spec_message(&self) -> M {
        self.message
    }

    /// The hint.
    pub closed spec fn spec_hint(&self) -> Option<H> {
        self.hint
    }

    /// The lengths and the delimiter.
    pub closed spec fn view(&self) -> PromptView {
        PromptView {
            message_len: self.message_len as nat,
            hint_len: if self.hint is Some {
                Some(self.hint_len as nat)
            } else {
                None
            },
            delim: self.delim,
        }
    }
}

impl<M: Text, H: Text> Prompt<M, H> {
    /// A prompt without a hint. The message must have at most `u16::MAX`
    /// characters.
    pub fn new(message: M) -> (prompt: Self)
        requires
            message.spec_text().len() <= u16::MAX,
        ensures
            prompt@ == (PromptView {
                message_len: message.spec_text().len(),
                hint_len: None,
                delim: Delimiter::Parentheses,
            }),
            prompt.spec_message() == message,
            prompt.spec_hint() is None,
    {
        Prompt {
            message_len: message.text().unicode_len() as u16,
            message,
            hint: None,
            delim: Delimiter::Parentheses,
            hint_len: 0,
        }
    }

    /// The prompt with a hint. The hint must have at most `u16::MAX`
    /// characters.
    pub fn with_hint(self, hint: H) -> (prompt: Self)
        requires
            hint.spec_text().len() <= u16::MAX,
        ensures
            prompt@ == (PromptView { hint_len: Some(hint.spec_text().len()), ..self@ }),
            prompt.spec_message() == self.spec_message(),
            prompt.spec_hint() == Some(hint),
    {
        let mut prompt = self;
        prompt.hint_len = hint.text().unicode_len() as u16;
        prompt.hint = Some(hint);
        prompt
    }

    /// The prompt with a hint, where there is one.
    pub fn with_optional_hint(self, hint: Option<H>) -> (prompt: Self)
        requires
            hint matches Some(h) ==> h.spec_text().len() <= u16::MAX,
        ensures
            match hint {
                Some(h) => prompt@ == (PromptView { hint_len: Some(h.spec_text().len()), ..self@ })
                    && prompt.spec_hint() == hint,
                None => prompt@ == self@ && prompt.spec_hint() == self.spec_hint(),
            },
            prompt.spec_message() == self.spec_message(),
    {
        match hint {
            Some(hint) => self.with_hint(hint),
            None => self,
        }
    }

    /// The prompt with another delimiter.
    pub fn with_delim(self, delim: Delimiter) -> (prompt: Self)
        ensures
            prompt@ == (PromptView { delim, ..self@ }),
            prompt.spec_message() == self.spec_message(),
            prompt.spec_hint() == self.spec_hint(),
    {
        let mut prompt = self;
        prompt.delim = delim;
        prompt
    }

    pub fn message(&self) -> (message: &M)
        ensures
            *message == self.spec_message(),
    {
        &self.message
    }

    pub fn hint(&self) -> (hint: Option<&H>)
        ensures
            match hint {
                Some(h) => self.spec_hint() == Some(*h),
                None => self.spec_hint() is None,
            },
    {
        self.hint.as_ref()
    }

    pub fn delim(&self) -> (delim: Delimiter)
        ensures
            delim == self@.delim,
    {
        self.delim
    }

    pub fn into_message(self) -> (message: M)
        ensures
            message == self.spec_message(),
    {
        self.message
    }

    pub fn into_hint(self) -> (hint: Option<H>)
        ensures
            hint == self.spec_hint(),
    {
        self.hint
    }

    pub fn into_message_and_hint(self) -> (parts: (M, Option<H>))
        ensures
            parts == (self.spec_message(), self.spec_hint()),
    {
        (self.message, self.hint)
    }

    /// The number of characters of the message.
    pub fn message_len(&self) -> (len: u16)
        ensures
            len == self@.message_len,
    {
        self.message_len
    }

    /// The columns that the hint takes, with its delimiters.
    pub fn hint_len(&self) -> (len: u16)
        requires
            self@.hint_width() <= u16::MAX,
        ensures
            len == self@.hint_width(),
    {
        if self.hint.is_some() {
            match self.delim {
                Delimiter::Nothing => self.hint_len,
                _ => self.hint_len + 2,
            }
        } else {
            0
        }
    }

    /// The columns that the prompt takes.
    pub fn width(&self) -> (width: u16)
        requires
            self@.width() <= u16::MAX,
        ensures
            width == self@.width(),
    {
        if self.hint.is_some() {
            // `? <message> <hint> `
            2 + self.message_len + 1 + self.hint_len() + 1
        } else {
            // `? <message> › `
            2 + self.message_len + 3
        }
    }

    /// The column and the row where the prompt ends.
    pub fn cursor_pos_impl(&self, layout: Layout) -> (pos: (u16, u16))
        requires
            self@.fits(layout),
        ensures
            (pos.0 as int, pos.1 as int) == self@.cursor(layout),
    {
        let mut width = self.width();
        if width > layout.line_width() {
            width -= layout.line_width();
            proof {
                vstd::arithmetic::div_mod::lemma_mod_bound(width as int, layout.width as int);
            }

            (width % layout.width, 1 + width / layout.width)
        } else {
            (layout.line_offset + width, 0)
        }
    }

    /// The column where the prompt ends.
    pub fn line_offset(&self, layout: Layout) -> (column: u16)
        requires
            self@.fits(layout),
        ensures
            column == self@.cursor(layout).0,
    {
        self.cursor_pos_impl(layout).0
    }
}

impl<M: Text> Prompt<M, &'static str> {
    /// Writes the line that stands for a question once it is answered:
    /// `✔ <message> · `. Stops at the first failure of the terminal and hands
    /// it on.
    pub fn write_finished_message<B: Backend>(message: &M, backend: &mut B) -> (r: Result<
        (),
        B::Error,
    >)
        ensures
            asked(old(backend)@, final(backend)@, finished_ops(message.spec_text()), r),
    {
        let ghost start = backend@;
        let ghost text = message.spec_text();
        let ghost tick = colored("✔"@, Color::LightGreen);
        let ghost space = seq![Op::WriteStr(" "@)];
        let ghost name = bold(text);
        let ghost dot = colored("·"@, Color::DarkGrey);
        let ghost all = finished_ops(text);
        assert(start.calls == start.calls + all_done::<B::Error>(seq![]));

        let r = write_colored(backend, "✔", Color::LightGreen);
        proof {
            let rest = space + name + space + dot + space;
            lemma_asked_on(start, start, backend@, seq![], tick, rest, r);
            assert(seq![] + tick + rest == all);
        }
        if r.is_err() {
            return r;
        }
        let ghost mid = backend@;
        let r = backend.write_str(" ");
        proof {
            let done = seq![] + tick;
            let rest = name + space + dot + space;
            lemma_asked_one(mid, backend@, Op::WriteStr(" "@), r);
            lemma_asked_on(start, mid, backend@, done, space, rest, r);
            assert(done + space + rest == all);
        }
        if r.is_err() {
            return r;
        }
        let ghost mid = backend@;
        let r = write_bold(backend, message.text());
        proof {
            let done = seq![] + tick + space;
            let rest = space + dot + space;
            lemma_asked_on(start, mid, backend@, done, name, rest, r);
            assert(done + name + rest == all);
        }
        if r.is_err() {
            return r;
        }
        let ghost mid = backend@;
        let r = backend.write_str(" ");
        proof {
            let done = seq![] + tick + space + name;
            let rest = dot + space;
            lemma_asked_one(mid, backend@, Op::WriteStr(" "@), r);
            lemma_asked_on(start, mid, backend@, done, space, rest, r);
            assert(done + space + rest == all);
        }
        if r.is_err() {
            return r;
        }
        let ghost mid = backend@;
        let r = write_colored(backend, "·", Color::DarkGrey);
        proof {
            let done = seq![] + tick + space + name + space;
            lemma_asked_on(start, mid, backend@, done, dot, space, r);
            assert(done + dot + space == all);
        }
        if r.is_err() {
            return r;
        }
        let ghost mid = backend@;
        let r = backend.write_str(" ");
        proof {
            let done = seq![] + tick + space + name + space + dot;
            lemma_asked_one(mid, backend@, Op::WriteStr(" "@), r);
            lemma_asked_on(start, mid, backend@, done, space, seq![], r);
            assert(done + space == all);
            assert(done + space + seq![] == all);
        }
        r
    }
}

impl<M: Text, H: Text> Prompt<M, H> {
    /// What is asked of the terminal to write the prompt.
    pub open spec fn rendering(&self) -> Seq<Op> {
        prompt_ops(
            self.spec_message().spec_text(),
            match self.spec_hint() {
                Some(hint) => Some(hint.spec_text()),
                None => None,
            },
            self@.delim,
        )
    }

    /// Writes the hint between its delimiters, the hint alone where it has
    /// none, and an arrow where there is no hint.
    fn write_hint<B: Backend>(&self, backend: &mut B) -> (r: Result<(), B::Error>)
        ensures
            asked(
                old(backend)@,
                final(backend)@,
                hint_ops(
                    match self.spec_hint() {
                        Some(hint) => Some(hint.spec_text()),
                        None => None,
                    },
                    self@.delim,
                ),
                r,
            ),
    {
        let ghost start = backend@;
        assert(start.calls == start.calls + all_done::<B::Error>(seq![]));
        match (&self.hint, Option::<(char, char)>::from(self.delim)) {
            (Some(hint), Some((open, close))) => {
                let ghost first = Op::WriteChar(open);
                let ghost second = Op::WriteStr(hint.spec_text());
                let ghost third = Op::WriteChar(close);
                let r = backend.write_char(open);
                proof {
                    lemma_asked_one(start, backend@, first, r);
                    lemma_asked_on(
                        start,
                        start,
                        backend@,
                        seq![],
                        seq![first],
                        seq![second, third],
                        r,
                    );
                    assert(seq![] + seq![first] + seq![second, third] == seq![
                        first,
                        second,
                        third,
                    ]);
                }
                if r.is_err() {
                    return r;
                }
                let ghost mid = backend@;
                let r = backend.write_str(hint.text());
                proof {
                    lemma_asked_one(mid, backend@, second, r);
                    lemma_asked_on(
                        start,
                        mid,
                        backend@,
                        seq![] + seq![first],
                        seq![second],
                        seq![third],
                        r,
                    );
                    assert(seq![] + seq![first] + seq![second] + seq![third] == seq![
                        first,
                        second,
                        third,
                    ]);
                }
                if r.is_err() {
                    return r;
                }
                let ghost mid = backend@;
                let r = backend.write_char(close);
                proof {
                    lemma_asked_one(mid, backend@, third, r);
                    lemma_asked_on(
                        start,
                        mid,
                        backend@,
                        seq![] + seq![first] + seq![second],
                        seq![third],
                        seq![],
                        r,
                    );
                    assert(seq![] + seq![first] + seq![second] + seq![third] == seq![
                        first,
                        second,
                        third,
                    ]);
                    assert(seq![] + seq![first] + seq![second] + seq![third] + seq![] == seq![
                        first,
                        second,
                        third,
                    ]);
                }
                r
            },
            (Some(hint), None) => {
                let r = backend.write_str(hint.text());
                proof {
                    lemma_asked_one(start, backend@, Op::WriteStr(hint.spec_text()), r);
                }
                r
            },
            (None, _) => {
                let r = backend.write_char('›');
                proof {
                    lemma_asked_one(start, backend@, Op::WriteChar('›'), r);
                }
                r
            },
        }
    }
}

impl<M: Text, H: Text> Widget for Prompt<M, H> {
    open spec fn can_render(&self, layout: Layout) -> bool {
        self@.fits(layout)
    }

    /// The prompt must fit, and the row below its lines must fit the type of
    /// a row.
    open spec fn can_measure(&self, layout: Layout) -> bool {
        self@.fits(layout) && layout.offset_y + self@.cursor(layout).1 + 1 <= u16::MAX
    }

    open spec fn has_cursor(&self, layout: Layout) -> bool {
        self@.fits(layout)
    }

    open spec fn can_handle(&self, key: KeyEvent) -> bool {
        true
    }

    /// Writes the prompt, and leaves in `layout` the place where it ends.
    /// Stops at the first failure of the terminal and hands it on, with
    /// `layout` as it was.
    fn render<B: Backend>(&mut self, layout: &mut Layout, backend: &mut B) -> (r: Result<
        (),
        B::Error,
    >)
        ensures
            *final(self) == *old(self),
            asked(old(backend)@, final(backend)@, old(self).rendering(), r),
            r is Err ==> *final(layout) == *old(layout),
            r is Ok ==> (final(layout).line_offset as int, final(layout).offset_y as int) == old(
                self,
            )@.cursor(*old(layout)) && *final(layout) == (Layout {
                line_offset: final(layout).line_offset,
                offset_y: final(layout).offset_y,
                ..*old(layout)
            }),
    {
        let ghost start = backend@;
        let ghost mark = colored("? "@, Color::LightGreen);
        let ghost name = bold(self.spec_message().spec_text());
        let ghost space = seq![Op::WriteStr(" "@)];
        let ghost grey = seq![Op::SetFg(Color::DarkGrey)];
        let ghost hint = hint_ops(
            match self.spec_hint() {
                Some(hint) => Some(hint.spec_text()),
                None => None,
            },
            self@.delim,
        );
        let ghost reset = seq![Op::SetFg(Color::Reset)];
        let ghost all = self.rendering();
        assert(all == mark + name + space + grey + hint + reset + space);
        assert(hint.len() > 0);
        assert(start.calls == start.calls + all_done::<B::Error>(seq![]));

        let r = write_colored(backend, "? ", Color::LightGreen);
        proof {
            let rest = name + space + grey + hint + reset + space;
            lemma_asked_on(start, start, backend@, seq![], mark, rest, r);
            assert(seq![] + mark + rest == all);
        }
        if r.is_err() {
            return r;
        }
        let ghost mid = backend@;
        let r = write_bold(backend, self.message.text());
        proof {
            let done = seq![] + mark;
            let rest = space + grey + hint + reset + space;
            lemma_asked_on(start, mid, backend@, done, name, rest, r);
            assert(done + name + rest == all);
        }
        if r.is_err() {
            return r;
        }
        let ghost mid = backend@;
        let r = backend.write_str(" ");
        proof {
            let done = seq![] + mark + name;
            let rest = grey + hint + reset + space;
            lemma_asked_one(mid, backend@, Op::WriteStr(" "@), r);
            lemma_asked_on(start, mid, backend@, done, space, rest, r);
            assert(done + space + rest == all);
        }
        if r.is_err() {
            return r;
        }
        let ghost mid = backend@;
        let r = backend.set_fg(Color::DarkGrey);
        proof {
            let done = seq![] + mark + name + space;
            let rest = hint + reset + space;
            lemma_asked_one(mid, backend@, Op::SetFg(Color::DarkGrey), r);
            lemma_asked_on(start, mid, backend@, done, grey, rest, r);
            assert(done + grey + rest == all);
        }
        if r.is_err() {
            return r;
        }
        let ghost mid = backend@;
        let r = self.write_hint(backend);
        proof {
            let done = seq![] + mark + name + space + grey;
            let rest = reset + space;
            lemma_asked_on(start, mid, backend@, done, hint, rest, r);
            assert(done + hint + rest == all);
        }
        if r.is_err() {
            return r;
        }
        let ghost mid = backend@;
        let r = backend.set_fg(Color::Reset);
        proof {
            let done = seq![] + mark + name + space + grey + hint;
            lemma_asked_one(mid, backend@, Op::SetFg(Color::Reset), r);
            lemma_asked_on(start, mid, backend@, done, reset, space, r);
            assert(done + reset + space == all);
        }
        if r.is_err() {
            return r;
        }
        let ghost mid = backend@;
        let r = backend.write_str(" ");
        proof {
            let done = seq![] + mark + name + space + grey + hint + reset;
            lemma_asked_one(mid, backend@, Op::WriteStr(" "@), r);
            lemma_asked_on(start, mid, backend@, done, space, seq![], r);
            assert(done + space == all);
            assert(done + space + seq![] == all);
        }
        if r.is_err() {
            return r;
        }
        *layout = layout.with_cursor_pos(self.cursor_pos_impl(*layout));

        Ok(())
    }

    /// The number of lines that the prompt takes: those up to the row where it
    /// ends. Leaves in `layout` the beginning of the line below them.
    fn height(&mut self, layout: &mut Layout) -> (h: u16)
        ensures
            *final(self) == *old(self),
            h == old(self)@.cursor(*old(layout)).1 + 1,
            final(layout).offset_y == old(layout).offset_y + h,
            *final(layout) == (Layout {
                line_offset: 0,
                offset_y: final(layout).offset_y,
                ..*old(layout)
            }),
    {
        let cursor_pos = self.cursor_pos_impl(*layout);
        let height = cursor_pos.1 + 1;

        layout.line_offset = 0;
        layout.offset_y += height;

        height
    }

    fn cursor_pos(&mut self, layout: Layout) -> (pos: (u16, u16))
        ensures
            *final(self) == *old(self),
            (pos.0 as int, pos.1 as int) == old(self)@.cursor(layout),
    {
        self.cursor_pos_impl(layout)
    }

    /// A prompt takes no key.
    fn handle_key(&mut self, key: KeyEvent) -> (handled: bool)
        ensures
            *final(self) == *old(self),
            !handled,
    {
        false
    }
}

} // verus!
