use discourse_ui::backend::{Backend, CallLog, Color, Size};
use discourse_ui::events::{KeyCode, KeyEvent, KeyModifiers};
use discourse_ui::input::{
    after_key, after_validation, base_column, classify_key, Abort, Action, Event, Input, KeyKind,
    Prompt, TerminalState,
};
use discourse_ui::number::Int;
use discourse_ui::{Layout, Validation, Widget};

/// A prompt that counts the keys it takes: it makes use of the letters, is
/// done once it has taken three, and gives their number.
struct Counter {
    taken: usize,
    default: Option<usize>,
}

impl Widget for Counter {
    // only proofs speak of the four conditions: nothing calls them
    fn can_render(&self, _: Layout) -> bool {
        unreachable!()
    }

    fn can_measure(&self, _: Layout) -> bool {
        unreachable!()
    }

    fn has_cursor(&self, _: Layout) -> bool {
        unreachable!()
    }

    fn can_handle(&self, _: KeyEvent) -> bool {
        unreachable!()
    }

    fn render<B: Backend>(&mut self, layout: &mut Layout, backend: &mut B) -> Result<(), B::Error> {
        backend.write_str("counter")?;
        layout.line_offset += 7;
        Ok(())
    }

    fn height(&mut self, _: &mut Layout) -> u16 {
        1
    }

    fn cursor_pos(&mut self, layout: Layout) -> (u16, u16) {
        (layout.line_offset + 7, layout.offset_y)
    }

    fn handle_key(&mut self, key: KeyEvent) -> bool {
        match key.code {
            KeyCode::Char(_) => {
                self.taken += 1;
                true
            }
            _ => false,
        }
    }
}

impl Prompt for Counter {
    type ValidateErr = String;
    type Output = usize;

    fn spec_has_default(&self) -> bool {
        unreachable!()
    }

    fn prompt(&self) -> &str {
        "How many?"
    }

    fn validate(&mut self) -> Result<Validation, String> {
        match self.taken {
            0 => Err("nothing taken".to_string()),
            1 | 2 => Ok(Validation::Continue),
            _ => Ok(Validation::Finish),
        }
    }

    fn finish(self) -> usize {
        self.taken
    }

    fn has_default(&self) -> bool {
        self.default.is_some()
    }

    fn finish_default(self) -> usize {
        self.default.unwrap()
    }
}

/// A prompt that keeps to what the trait provides.
struct Plain;

impl Widget for Plain {
    fn can_render(&self, _: Layout) -> bool {
        unreachable!()
    }

    fn can_measure(&self, _: Layout) -> bool {
        unreachable!()
    }

    fn has_cursor(&self, _: Layout) -> bool {
        unreachable!()
    }

    fn can_handle(&self, _: KeyEvent) -> bool {
        unreachable!()
    }

    fn render<B: Backend>(&mut self, _: &mut Layout, _: &mut B) -> Result<(), B::Error> {
        Ok(())
    }

    fn height(&mut self, _: &mut Layout) -> u16 {
        1
    }

    fn cursor_pos(&mut self, _: Layout) -> (u16, u16) {
        (0, 0)
    }

    fn handle_key(&mut self, _: KeyEvent) -> bool {
        false
    }
}

impl Prompt for Plain {
    type ValidateErr = String;
    type Output = ();

    fn spec_has_default(&self) -> bool {
        unreachable!()
    }

    fn prompt(&self) -> &str {
        "Plain"
    }

    fn finish(self) {}

    fn has_default(&self) -> bool {
        false
    }

    fn finish_default(self) {
        unreachable!()
    }
}

fn key(code: KeyCode) -> Event {
    Event::Key(KeyEvent::new(code, KeyModifiers::empty()))
}

fn control(c: char) -> Event {
    Event::Key(KeyEvent::new(
        KeyCode::Char(c),
        KeyModifiers { shift: false, control: true, alt: false },
    ))
}

fn counter(default: Option<usize>) -> Input<Counter> {
    Input::new(Counter { taken: 0, default })
}

fn is_wait<E>(action: &Action<E>) -> bool {
    matches!(action, Action::Wait)
}

fn is_render<E>(action: &Action<E>) -> bool {
    matches!(action, Action::Render)
}

#[test]
fn new_input_knows_no_terminal() {
    let input = counter(None);
    assert_eq!(input.size(), Size { width: 0, height: 0 });
    assert_eq!(input.base(), (0, 0));
    assert!(!input.hides_cursor());
    assert!(input.hide_cursor().hides_cursor());
}

#[test]
fn input_keeps_what_it_is_told() {
    let mut input = counter(None).hide_cursor();
    input.set_size((80, 24).into());
    input.set_base(12, 3);
    assert_eq!(input.size(), Size { width: 80, height: 24 });
    assert_eq!(input.base(), (12, 3));
    assert!(input.hides_cursor());
    assert_eq!(input.prompt().taken, 0);
    input.prompt_mut().taken = 2;
    assert_eq!(input.prompt().taken, 2);
    assert_eq!(input.finish(true), 2);
}

#[test]
fn layout_starts_where_the_prompt_does() {
    let mut input = counter(None);
    input.set_size((80, 24).into());
    input.set_base(12, 3);
    assert_eq!(input.layout(), Layout::new(12, (80, 24).into()).with_offset(0, 3));
    assert_eq!(input.layout().max_height, 24);
    assert_eq!(input.row_below(0), 3);
    assert_eq!(input.row_below(5), 8);
    input.set_base(0, 65530);
    assert_eq!(input.row_below(5), 65535);
}

#[test]
fn resize_is_taken_note_of() {
    let mut input = counter(None);
    input.set_base(4, 5);
    let action = input.handle_event(Event::Resize((120, 40).into()));
    assert!(is_wait(&action));
    assert_eq!(input.size(), Size { width: 120, height: 40 });
    assert_eq!(input.base(), (4, 5));
    assert!(is_wait(&input.handle_event(Event::Other)));
    assert_eq!(input.size(), Size { width: 120, height: 40 });
}

#[test]
fn control_c_and_null_lead_out() {
    let mut input = counter(Some(7));
    assert!(matches!(input.handle_event(control('c')), Action::Abort(Abort::Interrupted)));
    assert!(matches!(input.handle_event(key(KeyCode::Null)), Action::Abort(Abort::Eof)));
    // the prompt has seen neither
    assert_eq!(input.prompt().taken, 0);
    // `c` alone is a key like any other
    assert!(is_render(&input.handle_event(key(KeyCode::Char('c')))));
    assert_eq!(input.prompt().taken, 1);
}

#[test]
fn escape_takes_the_default_where_there_is_one() {
    let mut input = counter(Some(7));
    let action = input.handle_event(key(KeyCode::Esc));
    assert!(matches!(action, Action::Finish { pressed_enter: false }));
    assert_eq!(input.finish(false), 7);

    // without a default it is a key like any other
    let mut input = counter(None);
    assert!(is_wait(&input.handle_event(key(KeyCode::Esc))));
}

#[test]
fn enter_asks_the_prompt() {
    let mut input = counter(None);
    match input.handle_event(key(KeyCode::Enter)) {
        Action::Invalid(e) => assert_eq!(e, "nothing taken"),
        _ => panic!("an error is to be shown"),
    }
    assert!(is_render(&input.handle_event(key(KeyCode::Char('a')))));
    assert!(is_render(&input.handle_event(key(KeyCode::Enter))));
    assert!(is_render(&input.handle_event(key(KeyCode::Char('b')))));
    assert!(is_render(&input.handle_event(key(KeyCode::Char('c')))));
    let action = input.handle_event(key(KeyCode::Enter));
    assert!(matches!(action, Action::Finish { pressed_enter: true }));
    assert_eq!(input.finish(true), 3);
}

#[test]
fn other_keys_go_to_the_prompt() {
    let mut input = counter(None);
    assert!(is_wait(&input.handle_event(key(KeyCode::Up))));
    assert!(is_wait(&input.handle_event(key(KeyCode::Tab))));
    assert_eq!(input.prompt().taken, 0);
    assert!(is_render(&input.handle_event(key(KeyCode::Char('x')))));
    assert!(is_render(&input.handle_event(control('d'))));
    assert_eq!(input.prompt().taken, 2);
}

#[test]
fn provided_methods_of_a_prompt() {
    let mut input = Input::new(Plain);
    assert_eq!(input.prompt().prompt(), "Plain");
    assert_eq!(input.prompt().hint(), None);
    // a prompt is done unless it says otherwise
    let action = input.handle_event(key(KeyCode::Enter));
    assert!(matches!(action, Action::Finish { pressed_enter: true }));
    assert!(is_wait(&input.handle_event(key(KeyCode::Esc))));
    input.finish(true);
}

#[test]
fn keys_are_classified() {
    let plain = KeyModifiers::empty();
    let held = KeyModifiers { shift: false, control: true, alt: false };
    assert_eq!(classify_key(KeyEvent::new(KeyCode::Char('c'), held)), KeyKind::Interrupt);
    assert_eq!(classify_key(KeyEvent::new(KeyCode::Char('c'), plain)), KeyKind::Other);
    assert_eq!(classify_key(KeyEvent::new(KeyCode::Null, plain)), KeyKind::Eof);
    assert_eq!(classify_key(KeyEvent::new(KeyCode::Null, held)), KeyKind::Eof);
    assert_eq!(classify_key(KeyEvent::new(KeyCode::Esc, plain)), KeyKind::Escape);
    assert_eq!(classify_key(KeyEvent::new(KeyCode::Enter, plain)), KeyKind::Enter);
    assert_eq!(classify_key(KeyEvent::new(KeyCode::Up, plain)), KeyKind::Other);
}

#[test]
fn actions_follow_what_the_prompt_answers() {
    assert!(matches!(
        after_validation::<String>(Ok(Validation::Finish)),
        Action::Finish { pressed_enter: true }
    ));
    assert!(is_render(&after_validation::<String>(Ok(Validation::Continue))));
    match after_validation(Err(5u8)) {
        Action::Invalid(e) => assert_eq!(e, 5),
        _ => panic!("an error is to be shown"),
    }
    assert!(is_render(&after_key::<String>(true)));
    assert!(is_wait(&after_key::<String>(false)));
}

#[test]
fn scrollback_makes_room_below_the_prompt() {
    let mut input = counter(None);
    input.set_size((80, 24).into());
    // there is room: nothing is scrolled
    input.set_base(0, 10);
    assert_eq!(input.adjust_scrollback(3), (10, 0));
    assert_eq!(input.adjust_scrollback(13), (10, 0));
    // the prompt would end on the last row: a row stays free below it
    assert_eq!(input.adjust_scrollback(14), (9, 1));
    // at the bottom of the screen
    input.set_base(0, 23);
    assert_eq!(input.adjust_scrollback(1), (22, 1));
    assert_eq!(input.adjust_scrollback(5), (18, 5));
    assert_eq!(input.adjust_scrollback(23), (0, 23));
    input.set_base(0, 0);
    assert_eq!(input.adjust_scrollback(23), (0, 0));
    assert_eq!(input.adjust_scrollback(0), (0, 0));
}

#[test]
fn rows_below_are_cleared_where_there_are_any() {
    let mut input = counter(None);
    input.set_size((80, 24).into());
    input.set_base(0, 10);
    assert!(input.has_rows_below());
    input.set_base(0, 22);
    assert!(input.has_rows_below());
    input.set_base(0, 23);
    assert!(!input.has_rows_below());
    input.set_base(0, u16::MAX);
    assert!(!input.has_rows_below());
}

#[test]
fn answer_starts_after_message_and_hint() {
    // the mark, the message and a space
    assert_eq!(base_column(5, None), Some(8));
    // and the hint with a space
    assert_eq!(base_column(5, Some(5)), Some(14));
    assert_eq!(base_column(0, Some(0)), Some(4));
    assert_eq!(base_column(65532, None), Some(65535));
    assert_eq!(base_column(65533, None), None);
    assert_eq!(base_column(10, Some(65521)), Some(65535));
    assert_eq!(base_column(10, Some(65522)), None);
    assert_eq!(base_column(usize::MAX, None), None);
    assert_eq!(base_column(0, Some(usize::MAX)), None);
}

/// A terminal that records what is asked of it, and fails where it is told to.
struct Switches {
    calls: Vec<&'static str>,
    fail: Option<&'static str>,
    written: Vec<String>,
}

fn switches(fail: Option<&'static str>) -> Switches {
    Switches { calls: Vec::new(), fail, written: Vec::new() }
}

impl Switches {
    fn call(&mut self, name: &'static str) -> Result<(), &'static str> {
        self.calls.push(name);
        if self.fail == Some(name) {
            Err(name)
        } else {
            Ok(())
        }
    }
}

impl Backend for Switches {
    type Error = &'static str;

    // only proofs speak of the record of calls: nothing calls it
    fn view(&self) -> CallLog<Self::Error> {
        unreachable!()
    }

    fn enable_raw_mode(&mut self) -> Result<(), Self::Error> {
        self.call("raw on")
    }

    fn disable_raw_mode(&mut self) -> Result<(), Self::Error> {
        self.call("raw off")
    }

    fn hide_cursor(&mut self) -> Result<(), Self::Error> {
        self.call("hide")
    }

    fn show_cursor(&mut self) -> Result<(), Self::Error> {
        self.call("show")
    }

    fn move_cursor_to(&mut self, _: u16, _: u16) -> Result<(), Self::Error> {
        self.call("move")
    }

    fn set_fg(&mut self, _: Color) -> Result<(), Self::Error> {
        self.call("fg")
    }

    fn set_bold(&mut self, _: bool) -> Result<(), Self::Error> {
        self.call("bold")
    }

    fn write_str(&mut self, text: &str) -> Result<(), Self::Error> {
        self.written.push(text.to_string());
        self.call("write")
    }

    fn write_char(&mut self, _: char) -> Result<(), Self::Error> {
        self.call("write")
    }

    fn size(&self) -> Result<Size, Self::Error> {
        Ok((80, 24).into())
    }
}

#[test]
fn whole_numbers_are_written_in_decimal() {
    for (number, text) in [
        (42i64, "42"),
        (0, "0"),
        (-7, "-7"),
        (i64::MAX, "9223372036854775807"),
        (i64::MIN, "-9223372036854775808"),
    ] {
        let mut backend = switches(None);
        assert_eq!(Int::write(number, &mut backend), Ok(()));
        assert_eq!(backend.calls, vec!["fg", "write", "fg"]);
        assert_eq!(backend.written, vec![text.to_string()]);
    }
    let mut backend = switches(Some("write"));
    assert_eq!(Int::write(5, &mut backend), Err("write"));
    assert_eq!(backend.calls, vec!["fg", "write"]);
}

#[test]
fn terminal_is_set_up_and_put_back() {
    let mut state = TerminalState::new(switches(None), true);
    assert!(!state.enabled());
    assert_eq!(state.init(), Ok(()));
    assert!(state.enabled());
    assert_eq!(state.reset(), Ok(()));
    assert!(!state.enabled());
    assert_eq!(state.backend().calls, vec!["hide", "raw on", "show", "raw off"]);

    let mut state = TerminalState::new(switches(None), false);
    assert_eq!(state.init(), Ok(()));
    assert_eq!(state.reset(), Ok(()));
    assert_eq!(state.backend().calls, vec!["raw on", "raw off"]);
}

#[test]
fn terminal_counts_as_set_up_even_where_that_fails() {
    let mut state = TerminalState::new(switches(Some("hide")), true);
    assert_eq!(state.init(), Err("hide"));
    assert!(state.enabled());
    assert_eq!(state.backend().calls, vec!["hide"]);
    state.backend().fail = Some("raw off");
    assert_eq!(state.reset(), Err("raw off"));
    assert!(!state.enabled());
}
