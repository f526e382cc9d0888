use discourse_ui::backend::Size;
use discourse_ui::events::{KeyCode, KeyEvent, KeyModifiers, Movement};
use discourse_ui::number::{float_filter_map_char, Int};
use discourse_ui::{no_filter, Layout, RenderRegion};

fn size(width: u16, height: u16) -> Size {
    (width, height).into()
}

#[test]
fn size_comes_from_a_pair() {
    let size: Size = (80, 24).into();
    assert_eq!(size, Size { width: 80, height: 24 });
    assert_eq!(Size::from((1, 2)), Size { width: 1, height: 2 });
}

#[test]
fn new_layout_starts_at_the_top_left() {
    let layout = Layout::new(5, size(80, 24));
    assert_eq!(
        layout,
        Layout {
            line_offset: 5,
            offset_x: 0,
            offset_y: 0,
            width: 80,
            height: 24,
            max_height: 24,
            render_region: RenderRegion::Middle,
        }
    );
}

#[test]
fn default_region_is_the_middle() {
    assert_eq!(RenderRegion::default(), RenderRegion::Middle);
    assert_eq!(Layout::default().render_region, RenderRegion::Middle);
}

#[test]
fn builders_change_what_they_name() {
    let layout = Layout::new(5, size(80, 24));
    assert_eq!(layout.with_line_offset(9), Layout { line_offset: 9, ..layout });
    assert_eq!(layout.with_size(size(10, 20)), Layout { width: 10, height: 20, ..layout });
    assert_eq!(layout.with_offset(3, 4), Layout { offset_x: 3, offset_y: 4, ..layout });
    assert_eq!(
        layout.with_render_region(RenderRegion::Top),
        Layout { render_region: RenderRegion::Top, ..layout }
    );
    assert_eq!(layout.with_max_height(7), Layout { max_height: 7, ..layout });
    assert_eq!(
        layout.with_cursor_pos((11, 2)),
        Layout { line_offset: 11, offset_y: 2, ..layout }
    );
    let mut changed = layout;
    changed.set_size(size(100, 50));
    // the height that a widget may take is not that of the terminal
    assert_eq!(changed, Layout { width: 100, height: 50, max_height: 24, ..layout });
}

#[test]
fn line_width_is_what_is_left_of_the_first_line() {
    assert_eq!(Layout::new(5, size(80, 24)).line_width(), 75);
    assert_eq!(Layout::new(5, size(80, 24)).with_offset(10, 0).line_width(), 65);
    assert_eq!(Layout::new(0, size(80, 24)).line_width(), 80);
    assert_eq!(Layout::new(30, size(80, 24)).with_offset(50, 3).line_width(), 0);
}

#[test]
fn get_start_skips_what_does_not_fit() {
    let layout = Layout::new(0, size(80, 24)).with_max_height(4);
    // what fits is shown from its first line, whatever the region
    for region in [RenderRegion::Top, RenderRegion::Middle, RenderRegion::Bottom] {
        assert_eq!(layout.with_render_region(region).get_start(3), 0);
        assert_eq!(layout.with_render_region(region).get_start(4), 0);
        assert_eq!(layout.with_render_region(region).get_start(0), 0);
    }
    assert_eq!(layout.with_render_region(RenderRegion::Top).get_start(10), 0);
    assert_eq!(layout.with_render_region(RenderRegion::Bottom).get_start(10), 6);
    assert_eq!(layout.with_render_region(RenderRegion::Middle).get_start(10), 3);
    // the middle is rounded toward the top
    assert_eq!(layout.with_render_region(RenderRegion::Middle).get_start(11), 3);
    assert_eq!(layout.with_render_region(RenderRegion::Middle).get_start(5), 0);
    assert_eq!(
        layout.with_max_height(0).with_render_region(RenderRegion::Bottom).get_start(u16::MAX),
        u16::MAX
    );
}

#[test]
fn no_filter_lets_every_character_through() {
    for c in ['a', ' ', '\n', 'é', '\u{0}', '9'] {
        assert_eq!(no_filter(c), Some(c));
    }
}

#[test]
fn navigation_keys_stand_for_movements() {
    let plain = KeyModifiers::empty();
    assert_eq!(plain, KeyModifiers { shift: false, control: false, alt: false });
    let cases = [
        (KeyCode::Up, Some(Movement::Up)),
        (KeyCode::Down, Some(Movement::Down)),
        (KeyCode::PageUp, Some(Movement::PageUp)),
        (KeyCode::PageDown, Some(Movement::PageDown)),
        (KeyCode::Home, Some(Movement::Home)),
        (KeyCode::End, Some(Movement::End)),
        (KeyCode::Left, None),
        (KeyCode::Right, None),
        (KeyCode::Enter, None),
        (KeyCode::Esc, None),
        (KeyCode::Null, None),
        (KeyCode::Char('k'), None),
        (KeyCode::F(5), None),
        (KeyCode::Backspace, None),
    ];
    for (code, movement) in cases {
        assert_eq!(Movement::try_from_key(KeyEvent::new(code, plain)), movement);
        let held = KeyModifiers { shift: true, control: true, alt: false };
        assert_eq!(Movement::try_from_key(KeyEvent::new(code, held)), movement);
    }
}

#[test]
fn control_c_interrupts() {
    let control = KeyModifiers { shift: false, control: true, alt: false };
    assert!(KeyEvent::new(KeyCode::Char('c'), control).is_interrupt());
    assert!(!KeyEvent::new(KeyCode::Char('c'), KeyModifiers::empty()).is_interrupt());
    assert!(!KeyEvent::new(KeyCode::Char('d'), control).is_interrupt());
    assert!(!KeyEvent::new(KeyCode::Enter, control).is_interrupt());
    let all = KeyModifiers { shift: true, control: true, alt: true };
    assert!(KeyEvent::new(KeyCode::Char('c'), all).is_interrupt());
}

#[test]
fn int_delta_wraps_around() {
    assert_eq!(Int::delta(5, 10), 15);
    assert_eq!(Int::delta(5, -10), -5);
    assert_eq!(Int::delta(i64::MAX, 1), i64::MIN);
    assert_eq!(Int::delta(i64::MIN, -1), i64::MAX);
    assert_eq!(Int::delta(i64::MAX, 10), i64::MIN + 9);
    assert_eq!(Int::delta(i64::MIN, i64::MIN), 0);
    assert_eq!(Int::delta(0, 0), 0);
}

#[test]
fn int_takes_digits_and_signs() {
    for c in "0123456789+-".chars() {
        assert_eq!(Int::filter_map_char(c), Some(c));
    }
    for c in ['a', '.', 'e', 'E', ' ', '/', ':', '٣', '\u{0}'] {
        assert_eq!(Int::filter_map_char(c), None);
    }
}

#[test]
fn float_takes_points_and_exponents_too() {
    for c in "0123456789+-.eE".chars() {
        assert_eq!(float_filter_map_char(c), Some(c));
    }
    for c in ['a', ',', 'f', ' ', 'x', '٣'] {
        assert_eq!(float_filter_map_char(c), None);
    }
}

#[test]
fn int_steps_with_the_keys() {
    assert_eq!(Int::after_key(5, KeyCode::Up), Some(6));
    assert_eq!(Int::after_key(5, KeyCode::Down), Some(4));
    assert_eq!(Int::after_key(5, KeyCode::PageUp), Some(15));
    assert_eq!(Int::after_key(5, KeyCode::PageDown), Some(-5));
    assert_eq!(Int::after_key(i64::MAX, KeyCode::PageUp), Some(i64::MIN + 9));
    assert_eq!(Int::after_key(5, KeyCode::Home), None);
    assert_eq!(Int::after_key(5, KeyCode::Char('+')), None);
    assert_eq!(Int::new().default, None);
}
