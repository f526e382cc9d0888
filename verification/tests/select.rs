use discourse_ui::backend::{Backend, CallLog, Color, Size};
use discourse_ui::events::{KeyCode, KeyEvent, KeyModifiers};
use discourse_ui::select::{List, ListView, RenderLog, Select};
use discourse_ui::{Layout, RenderRegion, Widget};

#[derive(Debug, Clone, PartialEq, Eq)]
enum Op {
    SetFg(Color),
    Write(String),
    MoveTo(u16, u16),
}

/// A terminal that records what is done to it, and fails from a given
/// operation on.
struct Recorder {
    ops: Vec<Op>,
    fail_from: Option<usize>,
}

impl Recorder {
    fn new() -> Self {
        Recorder { ops: Vec::new(), fail_from: None }
    }

    fn record(&mut self, op: Op) -> Result<(), &'static str> {
        if let Some(limit) = self.fail_from {
            if self.ops.len() >= limit {
                return Err("the terminal is gone");
            }
        }
        self.ops.push(op);
        Ok(())
    }
}

impl Backend for Recorder {
    type Error = &'static str;

    // only proofs speak of the record of calls: nothing calls it
    fn view(&self) -> CallLog<Self::Error> {
        unreachable!()
    }

    fn enable_raw_mode(&mut self) -> Result<(), Self::Error> {
        Ok(())
    }

    fn disable_raw_mode(&mut self) -> Result<(), Self::Error> {
        Ok(())
    }

    fn hide_cursor(&mut self) -> Result<(), Self::Error> {
        Ok(())
    }

    fn show_cursor(&mut self) -> Result<(), Self::Error> {
        Ok(())
    }

    fn move_cursor_to(&mut self, x: u16, y: u16) -> Result<(), Self::Error> {
        self.record(Op::MoveTo(x, y))
    }

    fn set_fg(&mut self, color: Color) -> Result<(), Self::Error> {
        self.record(Op::SetFg(color))
    }

    fn set_bold(&mut self, _: bool) -> Result<(), Self::Error> {
        Err("the terminal is gone")
    }

    fn write_str(&mut self, text: &str) -> Result<(), Self::Error> {
        self.record(Op::Write(text.to_string()))
    }

    fn write_char(&mut self, c: char) -> Result<(), Self::Error> {
        self.record(Op::Write(c.to_string()))
    }

    fn size(&self) -> Result<Size, Self::Error> {
        Ok((100, 100).into())
    }
}

/// One item of a list: whether it can be hovered, and its height.
#[derive(Debug, Clone, Copy, PartialEq, Eq)]
struct Item {
    selectable: bool,
    height: u16,
}

/// A list that records how its items are rendered and how often they are
/// measured.
struct Items {
    items: Vec<Item>,
    page_size: usize,
    should_loop: bool,
    rendered: Vec<(usize, bool, Layout)>,
    measured: usize,
    fail_at: Option<usize>,
}

impl Items {
    fn uniform(len: usize, page_size: usize, should_loop: bool) -> Self {
        Items::of_heights(&vec![1; len], page_size, should_loop)
    }

    fn of_heights(heights: &[u16], page_size: usize, should_loop: bool) -> Self {
        Items {
            items: heights.iter().map(|&height| Item { selectable: true, height }).collect(),
            page_size,
            should_loop,
            rendered: Vec::new(),
            measured: 0,
            fail_at: None,
        }
    }

    fn with_unselectable(mut self, indices: &[usize]) -> Self {
        for &i in indices {
            self.items[i].selectable = false;
        }
        self
    }

    fn rendered_indices(&self) -> Vec<usize> {
        self.rendered.iter().map(|r| r.0).collect()
    }

    fn rendered_heights(&self) -> Vec<u16> {
        self.rendered.iter().map(|r| r.2.max_height).collect()
    }
}

impl List for Items {
    // only proofs speak of the view and of the record: nothing calls them
    fn view(&self) -> ListView {
        unreachable!()
    }

    fn rendered(&self) -> RenderLog {
        unreachable!()
    }

    fn render_item<B: Backend>(
        &mut self,
        index: usize,
        hovered: bool,
        layout: Layout,
        backend: &mut B,
    ) -> Result<(), B::Error> {
        self.rendered.push((index, hovered, layout));
        if self.fail_at == Some(index) {
            // a failure of the list's own making: it asks the terminal for
            // something that the terminal refuses
            return backend.set_bold(true);
        }
        backend.write_str("item")
    }

    fn is_selectable(&self, index: usize) -> bool {
        self.items[index].selectable
    }

    fn page_size(&self) -> usize {
        self.page_size
    }

    fn should_loop(&self) -> bool {
        self.should_loop
    }

    fn height_at(&mut self, index: usize, layout: Layout) -> u16 {
        assert_eq!(layout.line_offset, 0);
        self.measured += 1;
        self.items[index].height
    }

    fn len(&self) -> usize {
        self.items.len()
    }
}

impl std::ops::Index<usize> for Items {
    type Output = Item;

    fn index(&self, index: usize) -> &Item {
        &self.items[index]
    }
}

impl std::ops::IndexMut<usize> for Items {
    fn index_mut(&mut self, index: usize) -> &mut Item {
        &mut self.items[index]
    }
}

fn key(code: KeyCode) -> KeyEvent {
    KeyEvent::new(code, KeyModifiers::empty())
}

fn layout() -> Layout {
    Layout::new(0, (100, 100).into())
}

/// Renders the selection and gives the indices rendered, in order.
fn render(select: &mut Select<Items>) -> Vec<usize> {
    select.list.rendered.clear();
    select.render(&mut layout(), &mut Recorder::new()).unwrap();
    select.list.rendered_indices()
}

#[test]
fn new_hovers_the_first_selectable_item() {
    let select = Select::new(Items::uniform(6, 5, false).with_unselectable(&[0, 1, 5]));
    assert_eq!(select.get_at(), 2);
    let select = Select::new(Items::uniform(6, 5, false));
    assert_eq!(select.get_at(), 0);
    let select = Select::new(Items::uniform(6, 5, false).with_unselectable(&[0, 1, 2, 3, 4]));
    assert_eq!(select.get_at(), 5);
}

#[test]
fn list_is_empty_without_items() {
    assert!(Items::uniform(0, 5, false).is_empty());
    assert!(!Items::uniform(1, 5, false).is_empty());
}

#[test]
fn first_page_of_twenty_items_shows_four() {
    let mut select = Select::new(Items::uniform(20, 5, false));
    let mut layout = layout().with_offset(0, 7);
    let mut backend = Recorder::new();
    select.render(&mut layout, &mut backend).unwrap();

    assert_eq!(select.list.rendered_indices(), vec![0, 1, 2, 3]);
    assert_eq!(select.list.rendered_heights(), vec![1, 1, 1, 1]);
    let hovered: Vec<bool> = select.list.rendered.iter().map(|r| r.1).collect();
    assert_eq!(hovered, vec![true, false, false, false]);
    // four items and the footer
    assert_eq!(layout, Layout::new(0, (100, 100).into()).with_offset(0, 12));
    assert_eq!(
        backend.ops,
        vec![
            Op::Write("item".into()),
            Op::MoveTo(0, 8),
            Op::Write("item".into()),
            Op::MoveTo(0, 9),
            Op::Write("item".into()),
            Op::MoveTo(0, 10),
            Op::Write("item".into()),
            Op::MoveTo(0, 11),
            Op::SetFg(Color::DarkGrey),
            Op::Write("(Move up and down to reveal more choices)".into()),
            Op::SetFg(Color::Reset),
            Op::MoveTo(0, 12),
        ]
    );
}

#[test]
fn items_are_rendered_with_their_share_of_the_page() {
    // heights 3, 2, 2: with a page of 5 there are 4 lines for items
    let mut select = Select::new(Items::of_heights(&[3, 2, 2, 1, 1], 5, false));
    let mut layout = layout();
    select.render(&mut layout, &mut Recorder::new()).unwrap();
    assert_eq!(select.list.rendered_indices(), vec![0, 1]);
    assert_eq!(select.list.rendered_heights(), vec![3, 1]);
    assert_eq!(select.list.rendered[0].2.render_region, RenderRegion::Bottom);
    assert_eq!(select.list.rendered[1].2.render_region, RenderRegion::Top);
    assert_eq!(select.list.rendered[1].2.offset_y, 3);
    assert_eq!(layout.offset_y, 5);
}

#[test]
fn a_list_that_fits_is_rendered_whole() {
    let mut select = Select::new(Items::of_heights(&[1, 2, 1], 5, false));
    let mut layout = layout().with_line_offset(4);
    let mut backend = Recorder::new();
    select.render(&mut layout, &mut backend).unwrap();
    assert_eq!(select.list.rendered_indices(), vec![0, 1, 2]);
    assert_eq!(select.list.rendered_heights(), vec![1, 2, 1]);
    // a line that is begun is left first; there is no footer
    assert_eq!(layout, Layout::new(0, (100, 100).into()).with_offset(0, 5));
    assert_eq!(backend.ops[0], Op::MoveTo(0, 1));
    assert_eq!(backend.ops.len(), 7);
    // the middle item keeps the region of the item before it
    assert_eq!(select.list.rendered[1].2.render_region, RenderRegion::Bottom);
}

#[test]
fn window_follows_the_hovered_item_down() {
    let mut select = Select::new(Items::uniform(20, 5, false));
    assert_eq!(render(&mut select), vec![0, 1, 2, 3]);

    assert!(select.handle_key(key(KeyCode::Down)));
    assert!(select.handle_key(key(KeyCode::Down)));
    assert_eq!(select.get_at(), 2);
    // the hovered item is still within the window
    assert_eq!(render(&mut select), vec![0, 1, 2, 3]);

    // at the last item of the window, the window moves: two items before
    // the hovered one, and one line of the item after it
    assert!(select.handle_key(key(KeyCode::Down)));
    assert_eq!(select.get_at(), 3);
    assert_eq!(render(&mut select), vec![1, 2, 3, 4]);
    let hovered: Vec<bool> = select.list.rendered.iter().map(|r| r.1).collect();
    assert_eq!(hovered, vec![false, false, true, false]);
}

#[test]
fn window_follows_the_hovered_item_up() {
    let mut select = Select::new(Items::uniform(20, 5, false));
    render(&mut select);
    select.set_at(10);
    assert_eq!(render(&mut select), vec![8, 9, 10, 11]);
    assert!(select.handle_key(key(KeyCode::Up)));
    assert_eq!(render(&mut select), vec![8, 9, 10, 11]);
    // at the first item of the window, the window moves: one line of the
    // item before the hovered one, and two items after it
    assert!(select.handle_key(key(KeyCode::Up)));
    assert_eq!(select.get_at(), 8);
    assert_eq!(render(&mut select), vec![7, 8, 9, 10]);
}

#[test]
fn neighbours_share_the_lines_that_are_left() {
    let mut select = Select::new(Items::of_heights(&[1, 1, 1, 3, 1, 1, 1, 1], 5, false));
    // the first page ends with one line of the item of three
    assert_eq!(render(&mut select), vec![0, 1, 2, 3]);
    assert_eq!(select.list.rendered_heights(), vec![1, 1, 1, 1]);

    select.set_at(1);
    assert!(select.handle_key(key(KeyCode::Down)));
    assert!(select.handle_key(key(KeyCode::Down)));
    assert_eq!(select.get_at(), 3);
    // the hovered item takes three lines; the one left goes to the item
    // the selection came from, and none to the item after
    assert_eq!(render(&mut select), vec![2, 3]);
    assert_eq!(select.list.rendered_heights(), vec![1, 3]);
}

#[test]
fn opposite_neighbour_gets_one_line() {
    let mut select = Select::new(Items::of_heights(&[1, 1, 1, 3, 1, 1, 1, 1], 5, false));
    render(&mut select);
    select.set_at(6);
    assert_eq!(render(&mut select), vec![4, 5, 6, 7]);
    assert!(select.handle_key(key(KeyCode::Up)));
    assert_eq!(render(&mut select), vec![4, 5, 6, 7]);
    // moving up onto item 4: the items after it come with their heights,
    // the item of three before it with one line, the last of its lines
    assert!(select.handle_key(key(KeyCode::Up)));
    assert_eq!(select.get_at(), 4);
    assert_eq!(render(&mut select), vec![3, 4, 5, 6]);
    assert_eq!(select.list.rendered_heights(), vec![1, 1, 1, 1]);
    assert_eq!(select.list.rendered[0].2.render_region, RenderRegion::Bottom);
    assert_eq!(select.list.rendered[3].2.render_region, RenderRegion::Top);
}

#[test]
fn window_goes_around_the_end_with_parts_of_items() {
    let mut select = Select::new(Items::of_heights(&[2, 1, 1, 1, 1, 1, 1, 3], 5, true));
    render(&mut select);
    select.set_at(7);
    // moving down onto the last item: one line is left for the item before
    // it, none for the first item of the list
    assert_eq!(render(&mut select), vec![6, 7]);
    assert_eq!(select.list.rendered_heights(), vec![1, 3]);
    // moving down onto the first item: the last item comes before it with
    // the two lines that are left, and none is left for the second item
    assert!(select.handle_key(key(KeyCode::Down)));
    assert_eq!(select.get_at(), 0);
    assert_eq!(render(&mut select), vec![7, 0]);
    assert_eq!(select.list.rendered_heights(), vec![2, 2]);
    let rows: Vec<u16> = select.list.rendered.iter().map(|r| r.2.offset_y).collect();
    assert_eq!(rows, vec![0, 2]);
    // moving on: the first item before the second, a line of the third
    // after it
    assert!(select.handle_key(key(KeyCode::Down)));
    assert_eq!(select.get_at(), 1);
    assert_eq!(render(&mut select), vec![0, 1, 2]);
    assert_eq!(select.list.rendered_heights(), vec![2, 1, 1]);
}

#[test]
fn an_item_as_high_as_the_page_holds_the_window() {
    // a page of 5 has 4 lines for items: the second item takes them all
    let mut select = Select::new(Items::of_heights(&[1, 4, 1, 1, 1], 5, false));
    assert_eq!(render(&mut select), vec![0, 1]);
    assert_eq!(select.list.rendered_heights(), vec![1, 3]);
    assert!(select.handle_key(key(KeyCode::Down)));
    assert_eq!(render(&mut select), vec![1]);
    assert_eq!(select.list.rendered_heights(), vec![4]);
    // a window of one item is only left when that item is hovered again
    assert!(select.handle_key(key(KeyCode::Down)));
    assert_eq!(select.get_at(), 2);
    assert_eq!(render(&mut select), vec![1]);
    // a page movement builds the window anew
    assert!(select.handle_key(key(KeyCode::PageDown)));
    assert_eq!(select.get_at(), 4);
    assert_eq!(render(&mut select), vec![1, 2, 3, 4]);
    assert_eq!(select.list.rendered_heights(), vec![1, 1, 1, 1]);
}

#[test]
fn a_short_list_that_loops_can_show_one_item_twice_over() {
    // three items, of which the second is higher than the page: going
    // around, the neighbours on either side of the hovered item meet in it
    let mut select = Select::new(Items::of_heights(&[1, 10, 1], 5, true));
    assert_eq!(render(&mut select), vec![0, 1]);
    assert_eq!(select.list.rendered_heights(), vec![1, 3]);
    assert!(select.handle_key(key(KeyCode::Up)));
    assert_eq!(select.get_at(), 2);
    assert_eq!(render(&mut select), vec![1]);
    assert_eq!(select.list.rendered_heights(), vec![1]);
}

#[test]
fn keys_skip_items_that_cannot_be_hovered() {
    let mut select = Select::new(Items::uniform(6, 10, false).with_unselectable(&[0, 2, 3, 5]));
    render(&mut select);
    assert_eq!(select.get_at(), 1);
    assert!(select.handle_key(key(KeyCode::Down)));
    assert_eq!(select.get_at(), 4);
    assert!(!select.handle_key(key(KeyCode::Down)));
    assert_eq!(select.get_at(), 4);
    assert!(select.handle_key(key(KeyCode::Up)));
    assert_eq!(select.get_at(), 1);
    assert!(!select.handle_key(key(KeyCode::Up)));
    assert_eq!(select.get_at(), 1);
}

#[test]
fn up_and_down_stop_at_the_ends_without_looping() {
    let mut select = Select::new(Items::uniform(20, 5, false));
    render(&mut select);
    assert!(!select.handle_key(key(KeyCode::Up)));
    assert_eq!(select.get_at(), 0);
    assert!(select.handle_key(key(KeyCode::End)));
    assert_eq!(select.get_at(), 19);
    assert!(!select.handle_key(key(KeyCode::Down)));
    assert_eq!(select.get_at(), 19);
    assert!(!select.handle_key(key(KeyCode::End)));
    assert!(select.handle_key(key(KeyCode::Home)));
    assert_eq!(select.get_at(), 0);
    assert!(!select.handle_key(key(KeyCode::Home)));
}

#[test]
fn up_and_down_go_around_with_looping() {
    let mut select = Select::new(Items::uniform(20, 5, true));
    render(&mut select);
    assert!(select.handle_key(key(KeyCode::Up)));
    assert_eq!(select.get_at(), 19);
    // the window goes around the end of the list
    assert_eq!(render(&mut select), vec![18, 19, 0, 1]);
    assert!(select.handle_key(key(KeyCode::Down)));
    assert_eq!(select.get_at(), 0);
    assert_eq!(render(&mut select), vec![18, 19, 0, 1]);
}

#[test]
fn next_then_previous_leads_back() {
    let mut select =
        Select::new(Items::uniform(9, 5, true).with_unselectable(&[0, 3, 4, 8]));
    render(&mut select);
    for start in [1usize, 2, 5, 6, 7] {
        select.set_at(start);
        assert!(select.handle_key(key(KeyCode::Down)));
        assert_ne!(select.get_at(), start);
        assert!(select.handle_key(key(KeyCode::Up)));
        assert_eq!(select.get_at(), start);
        assert!(select.handle_key(key(KeyCode::Up)));
        assert!(select.handle_key(key(KeyCode::Down)));
        assert_eq!(select.get_at(), start);
    }
}

#[test]
fn hovered_item_can_always_be_hovered() {
    let unselectable = [0usize, 1, 4, 9, 10, 11, 19];
    for looping in [false, true] {
        let mut select =
            Select::new(Items::uniform(20, 5, looping).with_unselectable(&unselectable));
        render(&mut select);
        let keys = [
            KeyCode::Down,
            KeyCode::PageDown,
            KeyCode::Up,
            KeyCode::PageDown,
            KeyCode::PageDown,
            KeyCode::End,
            KeyCode::Down,
            KeyCode::PageUp,
            KeyCode::PageUp,
            KeyCode::Up,
            KeyCode::Home,
            KeyCode::Up,
            KeyCode::PageUp,
            KeyCode::Char('x'),
            KeyCode::PageDown,
        ];
        for round in 0..4 {
            for (i, code) in keys.iter().enumerate() {
                let before = select.get_at();
                let handled = select.handle_key(key(*code));
                let at = select.get_at();
                assert!(at < 20, "round {} key {}", round, i);
                assert!(!unselectable.contains(&at), "round {} key {}", round, i);
                if !handled {
                    assert_eq!(at, before);
                }
                // the hovered item is among those rendered
                let rendered = render(&mut select);
                assert!(rendered.contains(&at), "round {} key {}", round, i);
                let lines: u16 = select.list.rendered_heights().iter().sum();
                assert!(lines <= 4, "round {} key {}", round, i);
            }
        }
    }
}

#[test]
fn a_tall_item_far_from_the_window_does_no_harm() {
    // the tenth item is higher than the page, and out of reach of the keys
    let heights = [1, 1, 2, 1, 1, 1, 2, 1, 1, 9, 1];
    let mut select =
        Select::new(Items::of_heights(&heights, 5, false).with_unselectable(&[8, 9, 10]));
    render(&mut select);
    let keys = [
        KeyCode::Down,
        KeyCode::Down,
        KeyCode::Down,
        KeyCode::Up,
        KeyCode::Down,
        KeyCode::Down,
        KeyCode::Home,
        KeyCode::Down,
        KeyCode::Up,
        KeyCode::Down,
        KeyCode::Down,
        KeyCode::Down,
        KeyCode::Up,
        KeyCode::Up,
    ];
    for (i, code) in keys.iter().enumerate() {
        select.handle_key(key(*code));
        let at = select.get_at();
        assert!(at < 6, "key {}", i);
        let rendered = render(&mut select);
        assert!(rendered.contains(&at), "key {}", i);
        let lines: u16 = select.list.rendered_heights().iter().sum();
        assert!(lines <= 4, "key {}", i);
    }
}

#[test]
fn page_down_passes_a_separator() {
    let mut select = Select::new(Items::uniform(12, 5, false).with_unselectable(&[5, 11]));
    render(&mut select);
    let mut seen = vec![select.get_at()];
    let mut presses = 0;
    while select.handle_key(key(KeyCode::PageDown)) {
        let at = select.get_at();
        assert!(at > *seen.last().unwrap());
        seen.push(at);
        presses += 1;
        assert!(presses <= 12);
    }
    // the last item that can be hovered is reached, and then nothing moves
    assert_eq!(select.get_at(), 10);
    assert!(!seen.contains(&5));
    assert!(!select.handle_key(key(KeyCode::PageDown)));
    assert_eq!(select.get_at(), 10);
}

#[test]
fn page_down_ends_at_the_last_item() {
    let mut select = Select::new(Items::uniform(20, 5, false));
    render(&mut select);
    let mut seen = vec![select.get_at()];
    let mut presses = 0;
    while select.handle_key(key(KeyCode::PageDown)) {
        seen.push(select.get_at());
        presses += 1;
        assert!(presses < 100);
    }
    assert_eq!(seen, vec![0, 2, 4, 6, 8, 10, 12, 14, 16, 19]);
    assert_eq!(select.get_at(), 19);
    assert_eq!(render(&mut select), vec![16, 17, 18, 19]);
    // further presses do nothing
    for _ in 0..3 {
        assert!(!select.handle_key(key(KeyCode::PageDown)));
        assert_eq!(select.get_at(), 19);
    }
}

#[test]
fn page_up_ends_at_the_first_item() {
    let mut select = Select::new(Items::uniform(20, 5, false));
    render(&mut select);
    assert!(select.handle_key(key(KeyCode::End)));
    let mut seen = vec![select.get_at()];
    let mut presses = 0;
    while select.handle_key(key(KeyCode::PageUp)) {
        seen.push(select.get_at());
        presses += 1;
        assert!(presses < 100);
    }
    assert_eq!(seen, vec![19, 17, 15, 13, 11, 9, 7, 5, 3, 0]);
    assert_eq!(render(&mut select), vec![0, 1, 2, 3]);
    assert!(!select.handle_key(key(KeyCode::PageUp)));
    assert_eq!(select.get_at(), 0);
}

#[test]
fn page_keys_are_home_and_end_where_the_list_fits() {
    let mut select = Select::new(Items::uniform(4, 5, true).with_unselectable(&[0, 3]));
    render(&mut select);
    assert_eq!(select.get_at(), 1);
    assert!(!select.handle_key(key(KeyCode::PageUp)));
    assert!(select.handle_key(key(KeyCode::PageDown)));
    assert_eq!(select.get_at(), 2);
    assert!(!select.handle_key(key(KeyCode::PageDown)));
    assert!(select.handle_key(key(KeyCode::PageUp)));
    assert_eq!(select.get_at(), 1);
    assert_eq!(render(&mut select), vec![0, 1, 2, 3]);
}

#[test]
fn other_keys_are_not_handled() {
    let mut select = Select::new(Items::uniform(20, 5, true));
    render(&mut select);
    for code in [
        KeyCode::Enter,
        KeyCode::Esc,
        KeyCode::Left,
        KeyCode::Right,
        KeyCode::Char('j'),
        KeyCode::Null,
        KeyCode::Tab,
        KeyCode::F(1),
    ] {
        assert!(!select.handle_key(key(code)));
        assert_eq!(select.get_at(), 0);
    }
    assert_eq!(render(&mut select), vec![0, 1, 2, 3]);
}

#[test]
fn height_is_a_page_where_the_list_scrolls() {
    let mut select = Select::new(Items::uniform(20, 5, false));
    let mut layout = layout().with_offset(2, 3);
    assert_eq!(select.height(&mut layout), 5);
    assert_eq!(layout, Layout::new(0, (100, 100).into()).with_offset(2, 8));

    // one more line where a line is begun
    let mut layout = Layout::new(7, (100, 100).into());
    assert_eq!(select.height(&mut layout), 6);
    assert_eq!(layout, Layout::new(0, (100, 100).into()).with_offset(0, 6));
}

#[test]
fn height_is_all_lines_where_the_list_fits() {
    let mut select = Select::new(Items::of_heights(&[1, 2, 1], 5, false));
    assert_eq!(select.height(&mut layout()), 4);
    let mut select = Select::new(Items::of_heights(&[1, 2, 2], 5, false));
    assert_eq!(select.height(&mut layout()), 5);
}

#[test]
fn height_is_never_less_than_the_hovered_item() {
    let mut select = Select::new(Items::of_heights(&[1, 10, 1], 5, false));
    assert_eq!(select.height(&mut layout()), 5);
    select.set_at(1);
    // the hovered item and the footer
    assert_eq!(select.height(&mut layout()), 11);
    // nothing is hovered beyond the list
    select.set_at(3);
    assert_eq!(select.height(&mut layout()), 5);
}

#[test]
fn height_twice_is_height_once() {
    let mut select = Select::new(Items::of_heights(&[2, 1, 3, 1, 1, 2], 6, false));
    let first = select.height(&mut layout());
    assert_eq!(first, 6);
    assert_eq!(select.list.measured, 6);
    let second = select.height(&mut layout());
    assert_eq!(second, first);
    // nothing is measured again for the same layout
    assert_eq!(select.list.measured, 6);
    // another layout measures every item once more
    let third = select.height(&mut layout().with_offset(0, 1));
    assert_eq!(third, first);
    assert_eq!(select.list.measured, 12);
}

#[test]
fn set_at_beyond_the_list_puts_the_window_at_the_top() {
    let mut select = Select::new(Items::uniform(20, 5, false));
    render(&mut select);
    select.set_at(10);
    assert_eq!(render(&mut select), vec![8, 9, 10, 11]);
    select.set_at(20);
    assert_eq!(select.get_at(), 20);
    assert_eq!(render(&mut select), vec![0, 1, 2, 3]);
    assert!(select.list.rendered.iter().all(|r| !r.1));
    // from nowhere, up leads to the last item and down is not taken
    assert!(!select.handle_key(key(KeyCode::Down)));
    assert!(select.handle_key(key(KeyCode::Up)));
    assert_eq!(select.get_at(), 19);
}

#[test]
fn set_at_before_the_first_render_keeps_the_window_unset() {
    let mut select = Select::new(Items::uniform(20, 5, false));
    select.set_at(7);
    assert_eq!(select.get_at(), 7);
    // the first render puts the window at the top
    assert_eq!(render(&mut select), vec![0, 1, 2, 3]);
    // the next move puts it around the hovered item
    assert!(select.handle_key(key(KeyCode::Down)));
    assert_eq!(render(&mut select), vec![6, 7, 8, 9]);
}

#[test]
fn render_hands_a_failure_of_the_terminal_on() {
    let mut select = Select::new(Items::uniform(20, 5, false));
    render(&mut select);
    select.set_at(5);
    let before = render(&mut select);

    let mut backend = Recorder::new();
    backend.fail_from = Some(3);
    let mut layout = layout();
    assert_eq!(select.render(&mut layout, &mut backend), Err("the terminal is gone"));
    assert_eq!(backend.ops.len(), 3);
    // the selection is as it was, and can be rendered again
    assert_eq!(select.get_at(), 5);
    assert_eq!(render(&mut select), before);
}

#[test]
fn a_failed_first_render_leaves_no_window() {
    let mut select = Select::new(Items::uniform(20, 5, false));
    select.set_at(7);
    for fail_from in [0usize, 1, 4, 8, 9, 11] {
        let mut backend = Recorder::new();
        backend.fail_from = Some(fail_from);
        select.list.rendered.clear();
        let mut layout = layout();
        assert_eq!(select.render(&mut layout, &mut backend), Err("the terminal is gone"));
        assert_eq!(backend.ops.len(), fail_from);
        assert_eq!(select.get_at(), 7);
        // nothing is asked of the list after the failure
        assert_eq!(select.list.rendered.len(), (fail_from / 2 + 1).min(4));
    }
    // there is still no window: a key leaves it unset, and the next render
    // puts it at the top
    assert!(select.handle_key(key(KeyCode::Down)));
    assert_eq!(select.get_at(), 8);
    assert_eq!(render(&mut select), vec![0, 1, 2, 3]);
}

#[test]
fn render_stops_where_the_list_fails() {
    let mut select = Select::new(Items::uniform(20, 5, false));
    select.list.fail_at = Some(2);
    let mut backend = Recorder::new();
    let mut layout = layout().with_line_offset(3);
    assert_eq!(select.render(&mut layout, &mut backend), Err("the terminal is gone"));
    assert_eq!(select.list.rendered_indices(), vec![0, 1, 2]);
    // the line begun is left, two items are written and the cursor moved
    // below each; nothing is asked after the item that failed
    assert_eq!(
        backend.ops,
        vec![
            Op::MoveTo(0, 1),
            Op::Write("item".into()),
            Op::MoveTo(0, 2),
            Op::Write("item".into()),
            Op::MoveTo(0, 3),
        ]
    );
    select.list.fail_at = None;
    assert_eq!(render(&mut select), vec![0, 1, 2, 3]);
}

#[test]
fn selected_gives_the_hovered_item() {
    let mut select = Select::new(Items::of_heights(&[1, 2, 3], 5, false));
    select.set_at(2);
    assert_eq!(*select.selected(), Item { selectable: true, height: 3 });
    select.selected_mut().height = 1;
    assert_eq!(*select.selected(), Item { selectable: true, height: 1 });
    assert_eq!(select.get_at(), 2);
    let list = select.finish();
    assert_eq!(list.items[2].height, 1);
    assert_eq!(list.items.len(), 3);
}
