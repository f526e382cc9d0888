//! What the widgets need from a terminal.

use vstd::prelude::*;
use vstd::std_specs::convert::FromSpecImpl;

verus! {

/// The dimensions of a terminal, in character cells.
#[derive(Debug, Clone, Copy, PartialEq, Eq, Structural, Hash, Default)]
pub struct Size {
    /// The number of columns.
    pub width: u16,
    /// The number of rows.
    pub height: u16,
}

impl From<(u16, u16)> for Size {
    fn from(dims: (u16, u16)) -> (size: Size) {
        Size { width: dims.0, height: dims.1 }
    }
}

impl FromSpecImpl<(u16, u16)> for Size {
    open spec fn obeys_from_spec() -> bool {
        true
    }

    open spec fn from_spec(dims: (u16, u16)) -> Size {
        Size { width: dims.0, height: dims.1 }
    }
}

/// A foreground colour.
#[derive(Debug, Clone, Copy, PartialEq, Eq, Structural, Hash)]
pub enum Color {
    Reset,
    Black,
    Red,
    Green,
    Yellow,
    Blue,
    Magenta,
    Cyan,
    Grey,
    DarkGrey,
    LightRed,
    LightGreen,
    LightYellow,
    LightBlue,
    LightMagenta,
    LightCyan,
    White,
}

/// What can be asked of a terminal.
pub enum Op {
    EnableRawMode,
    DisableRawMode,
    HideCursor,
    ShowCursor,
    /// Move the cursor to a column of a row.
    MoveCursorTo(u16, u16),
    /// Set the colour of the text written from now on.
    SetFg(Color),
    /// Switch bold text on or off.
    SetBold(bool),
    /// Write text at the cursor.
    WriteStr(Seq<char>),
    /// Write one character at the cursor.
    WriteChar(char),
}

/// What was asked of a terminal in one call, and what the terminal answered.
pub struct Call<E> {
    pub op: Op,
    pub result: Result<(), E>,
}

/// What has been asked of a terminal so far.
pub struct CallLog<E> {
    /// The calls, first to last.
    pub calls: Seq<Call<E>>,
}

/// The calls made when the first `made` of `ops` are asked for in order: all
/// but the last of them succeed, and the last is answered with `last`.
pub open spec fn attempts<E>(ops: Seq<Op>, made: int, last: Result<(), E>) -> Seq<Call<E>> {
    Seq::new(
        made as nat,
        |i: int|
            Call {
                op: ops[i],
                result: if i < made - 1 {
                    Ok(())
                } else {
                    last
                },
            },
    )
}

/// The calls made when all of `ops` are asked for in order and succeed.
pub open spec fn all_done<E>(ops: Seq<Op>) -> Seq<Call<E>> {
    attempts::<E>(ops, ops.len() as int, Ok(()))
}

/// Whether, between `before` and `after`, the terminal was asked for `ops` in
/// order, up to the first one that failed, and `r` is what came of it: the
/// answer to the last call made. So `r` is `Ok` only if all of `ops` were
/// asked for and succeeded, and it is the failure of the terminal otherwise.
pub open spec fn asked<E>(before: CallLog<E>, after: CallLog<E>, ops: Seq<Op>, r: Result<(), E>)
    -> bool {
    if ops.len() == 0 {
        r is Ok && after.calls == before.calls
    } else {
        exists|made: int|
            1 <= made <= ops.len() && (r is Ok ==> made == ops.len()) && after.calls
                == before.calls + #[trigger] attempts(ops, made, r)
    }
}

/// One call is what it takes to ask for one operation.
pub proof fn lemma_asked_one<E>(before: CallLog<E>, after: CallLog<E>, op: Op, r: Result<(), E>)
    requires
        after.calls == before.calls.push(Call { op, result: r }),
    ensures
        asked(before, after, seq![op], r),
{
    assert(attempts(seq![op], 1, r) == seq![Call { op, result: r }]);
    assert(after.calls == before.calls + attempts(seq![op], 1, r));
}

/// Asking for `more` once `done` has been asked for and has succeeded is
/// asking for both in order; and where that fails, it is asking for them and
/// for whatever was to follow.
pub proof fn lemma_asked_on<E>(
    start: CallLog<E>,
    mid: CallLog<E>,
    end: CallLog<E>,
    done: Seq<Op>,
    more: Seq<Op>,
    rest: Seq<Op>,
    r: Result<(), E>,
)
    requires
        mid.calls == start.calls + all_done::<E>(done),
        more.len() > 0,
        asked(mid, end, more, r),
    ensures
        r is Ok ==> end.calls == start.calls + all_done::<E>(done + more),
        r is Ok ==> asked(start, end, done + more, r),
        r is Err ==> asked(start, end, done + more + rest, r),
{
    let made = choose|made: int|
        1 <= made <= more.len() && (r is Ok ==> made == more.len()) && end.calls == mid.calls
            + #[trigger] attempts(more, made, r);
    let n = done.len() as int;
    assert(all_done::<E>(done) + attempts(more, made, r) == attempts(done + more, n + made, r));
    assert(attempts(done + more, n + made, r) == attempts(done + more + rest, n + made, r));
    assert(end.calls == start.calls + attempts(done + more, n + made, r)) by {
        assert(start.calls + all_done::<E>(done) + attempts(more, made, r) == start.calls + (
        all_done::<E>(done) + attempts(more, made, r)));
    }
    if r is Ok {
        assert(r->Ok_0 == ());
        assert(r == Ok::<(), E>(r->Ok_0));
    }
}

/// What the widgets ask of a terminal. Every operation may fail. A terminal
/// keeps count of what it is asked: each call is on record in
/// [`view`](Backend::view) with the answer it was given, and that is all that
/// the widgets assume of it.
pub trait Backend {
    /// The failure of the terminal, handed through unchanged by the widgets.
    type Error;

    /// What has been asked of the terminal so far.
    spec fn view(&self) -> CallLog<Self::Error>;

    fn enable_raw_mode(&mut self) -> (r: Result<(), Self::Error>)
        ensures
            final(self)@.calls == old(self)@.calls.push(Call { op: Op::EnableRawMode, result: r }),
    ;

    fn disable_raw_mode(&mut self) -> (r: Result<(), Self::Error>)
        ensures
            final(self)@.calls == old(self)@.calls.push(
                Call { op: Op::DisableRawMode, result: r },
            ),
    ;

    fn hide_cursor(&mut self) -> (r: Result<(), Self::Error>)
        ensures
            final(self)@.calls == old(self)@.calls.push(Call { op: Op::HideCursor, result: r }),
    ;

    fn show_cursor(&mut self) -> (r: Result<(), Self::Error>)
        ensures
            final(self)@.calls == old(self)@.calls.push(Call { op: Op::ShowCursor, result: r }),
    ;

    /// Moves the cursor to column `x` of row `y`.
    fn move_cursor_to(&mut self, x: u16, y: u16) -> (r: Result<(), Self::Error>)
        ensures
            final(self)@.calls == old(self)@.calls.push(
                Call { op: Op::MoveCursorTo(x, y), result: r },
            ),
    ;

    /// Sets the colour of the text written from now on.
    fn set_fg(&mut self, color: Color) -> (r: Result<(), Self::Error>)
        ensures
            final(self)@.calls == old(self)@.calls.push(Call { op: Op::SetFg(color), result: r }),
    ;

    /// Switches bold text on or off.
    fn set_bold(&mut self, bold: bool) -> (r: Result<(), Self::Error>)
        ensures
            final(self)@.calls == old(self)@.calls.push(Call { op: Op::SetBold(bold), result: r }),
    ;

    /// Writes `text` at the cursor.
    fn write_str(&mut self, text: &str) -> (r: Result<(), Self::Error>)
        ensures
            final(self)@.calls == old(self)@.calls.push(
                Call { op: Op::WriteStr(text@), result: r },
            ),
    ;

    /// Writes one character at the cursor.
    fn write_char(&mut self, c: char) -> (r: Result<(), Self::Error>)
        ensures
            final(self)@.calls == old(self)@.calls.push(Call { op: Op::WriteChar(c), result: r }),
    ;

    /// The dimensions of the terminal.
    fn size(&self) -> Result<Size, Self::Error>;
}

/// What is asked of the terminal to write `text` in `color`: the colour, the
/// text, and the default colour again.
pub open spec fn colored(text: Seq<char>, color: Color) -> Seq<Op> {
    seq![Op::SetFg(color), Op::WriteStr(text), Op::SetFg(Color::Reset)]
}

/// What is asked of the terminal to write `text` in bold: bold on, the text,
/// and bold off.
pub open spec fn bold(text: Seq<char>) -> Seq<Op> {
    seq![Op::SetBold(true), Op::WriteStr(text), Op::SetBold(false)]
}

/// Writes `text` in `color`, and then goes back to the default colour. Stops
/// at the first failure of the terminal and hands it on.
pub fn write_colored<B: Backend>(backend: &mut B, text: &str, color: Color) -> (r: Result<
    (),
    B::Error,
>)
    ensures
        asked(old(backend)@, final(backend)@, colored(text@, color), r),
{
    let ghost start = backend@;
    let ghost ops = colored(text@, color);
    assert(start.calls == start.calls + all_done::<B::Error>(seq![]));

    let set = backend.set_fg(color);
    proof {
        lemma_asked_one(start, backend@, ops[0], set);
        lemma_asked_on(start, start, backend@, seq![], seq![ops[0]], seq![ops[1], ops[2]], set);
        assert(seq![] + seq![ops[0]] + seq![ops[1], ops[2]] == ops);
    }
    if set.is_err() {
        return set;
    }
    let ghost first = backend@;
    let written = backend.write_str(text);
    proof {
        lemma_asked_one(first, backend@, ops[1], written);
        lemma_asked_on(
            start,
            first,
            backend@,
            seq![] + seq![ops[0]],
            seq![ops[1]],
            seq![ops[2]],
            written,
        );
        assert(seq![] + seq![ops[0]] + seq![ops[1]] + seq![ops[2]] == ops);
    }
    if written.is_err() {
        return written;
    }
    let ghost second = backend@;
    let reset = backend.set_fg(Color::Reset);
    proof {
        lemma_asked_one(second, backend@, ops[2], reset);
        lemma_asked_on(
            start,
            second,
            backend@,
            seq![] + seq![ops[0]] + seq![ops[1]],
            seq![ops[2]],
            seq![],
            reset,
        );
        assert(seq![] + seq![ops[0]] + seq![ops[1]] + seq![ops[2]] == ops);
        assert(seq![] + seq![ops[0]] + seq![ops[1]] + seq![ops[2]] + seq![] == ops);
    }
    reset
}

/// Writes `text` in bold, and then switches bold off. Stops at the first
/// failure of the terminal and hands it on.
pub fn write_bold<B: Backend>(backend: &mut B, text: &str) -> (r: Result<(), B::Error>)
    ensures
        asked(old(backend)@, final(backend)@, bold(text@), r),
{
    let ghost start = backend@;
    let ghost ops = bold(text@);
    assert(start.calls == start.calls + all_done::<B::Error>(seq![]));

    let set = backend.set_bold(true);
    proof {
        lemma_asked_one(start, backend@, ops[0], set);
        lemma_asked_on(start, start, backend@, seq![], seq![ops[0]], seq![ops[1], ops[2]], set);
        assert(seq![] + seq![ops[0]] + seq![ops[1], ops[2]] == ops);
    }
    if set.is_err() {
        return set;
    }
    let ghost first = backend@;
    let written = backend.write_str(text);
    proof {
        lemma_asked_one(first, backend@, ops[1], written);
        lemma_asked_on(
            start,
            first,
            backend@,
            seq![] + seq![ops[0]],
            seq![ops[1]],
            seq![ops[2]],
            written,
        );
        assert(seq![] + seq![ops[0]] + seq![ops[1]] + seq![ops[2]] == ops);
    }
    if written.is_err() {
        return written;
    }
    let ghost second = backend@;
    let reset = backend.set_bold(false);
    proof {
        lemma_asked_one(second, backend@, ops[2], reset);
        lemma_asked_on(
            start,
            second,
            backend@,
            seq![] + seq![ops[0]] + seq![ops[1]],
            seq![ops[2]],
            seq![],
            reset,
        );
        assert(seq![] + seq![ops[0]] + seq![ops[1]] + seq![ops[2]] == ops);
        assert(seq![] + seq![ops[0]] + seq![ops[1]] + seq![ops[2]] + seq![] == ops);
    }
    reset
}

} // verus!
