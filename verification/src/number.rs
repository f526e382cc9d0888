//! Whole numbers as answers: what the keys do to the number typed so far.

use crate::backend::{asked, colored, write_colored, Backend, Color};
use crate::events::KeyCode;
use vstd::prelude::*;

verus! {

/// The text of a whole number in decimal digits, with a minus sign before a
/// negative one, as `i64::to_string` gives it.
pub uninterp spec fn decimal_text(i: i64) -> Seq<char>;

/// The text of `i`. Calls `to_string` of std on it, whose result is a
/// function of the number alone and is given the name
/// [`decimal_text`]; nothing more is claimed of it.
#[verifier::external_body]
fn int_to_string(i: i64) -> (text: String)
    ensures
        text@ == decimal_text(i),
{
    i.to_string()
}

/// A question for a whole number.
#[derive(Debug, Clone, Copy, PartialEq, Eq, Structural, Hash)]
pub struct Int {
    /// The answer where none is typed.
    pub default: Option<i64>,
}

impl Int {
    /// A question without a default.
    pub fn new() -> (question: Int)
        ensures
            question.default is None,
    {
        Int { default: None }
    }

    /// Writes a whole number as an answer: its decimal text in cyan. Stops
    /// at the first failure of the terminal and hands it on.
    pub fn write<B: Backend>(i: i64, b: &mut B) -> (r: Result<(), B::Error>)
        ensures
            asked(old(b)@, final(b)@, colored(decimal_text(i), Color::Cyan), r),
    {
        let text = int_to_string(i);
        write_colored(b, text.as_str(), Color::Cyan)
    }

    /// `i` and `delta` added, around the ends of the range of `i64`.
    pub open spec fn spec_delta(i: i64, delta: i64) -> i64 {
        if i + delta > i64::MAX {
            (i + delta - 0x1_0000_0000_0000_0000) as i64
        } else if i + delta < i64::MIN {
            (i + delta + 0x1_0000_0000_0000_0000) as i64
        } else {
            (i + delta) as i64
        }
    }

    /// `i` and `delta` added, around the ends of the range of `i64`.
    pub fn delta(i: i64, delta: i64) -> (sum: i64)
        ensures
            sum == Int::spec_delta(i, delta),
    {
        i.wrapping_add(delta)
    }

    /// Lets a character through if it can stand in a whole number: a decimal
    /// digit or a sign.
    pub fn filter_map_char(c: char) -> (kept: Option<char>)
        ensures
            kept == if ('0' <= c && c <= '9') || c == '-' || c == '+' {
                Some(c)
            } else {
                None
            },
    {
        if (c >= '0' && c <= '9') || c == '-' || c == '+' {
            Some(c)
        } else {
            None
        }
    }

    /// What a key adds to the number: up and down one, page up and page down
    /// ten; no other key adds anything.
    pub open spec fn step_of(code: KeyCode) -> Option<i64> {
        match code {
            KeyCode::PageUp => Some(10i64),
            KeyCode::PageDown => Some(-10i64),
            KeyCode::Up => Some(1i64),
            KeyCode::Down => Some(-1i64),
            _ => None,
        }
    }

    /// The number after a key: `n` with the step of the key added, or nothing
    /// where the key adds nothing.
    pub fn after_key(n: i64, code: KeyCode) -> (next: Option<i64>)
        ensures
            next == match Int::step_of(code) {
                Some(step) => Some(Int::spec_delta(n, step)),
                None => None,
            },
    {
        match code {
            KeyCode::PageUp => Some(Int::delta(n, 10)),
            KeyCode::PageDown => Some(Int::delta(n, -10)),
            KeyCode::Up => Some(Int::delta(n, 1)),
            KeyCode::Down => Some(Int::delta(n, -1)),
            _ => None,
        }
    }
}

/// Lets a character through if it can stand in a number with a fraction: one
/// that can stand in a whole number, a decimal point, or the mark of an
/// exponent.
pub fn float_filter_map_char(c: char) -> (kept: Option<char>)
    ensures
        kept == if ('0' <= c && c <= '9') || c == '-' || c == '+' || c == '.' || c == 'e' || c
            == 'E' {
            Some(c)
        } else {
            None
        },
{
    if Int::filter_map_char(c).is_some() || c == '.' || c == 'e' || c == 'E' {
        Some(c)
    } else {
        None
    }
}

} // verus!
