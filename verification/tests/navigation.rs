//! The Escape-prefixed buffer navigation protocol and the programmatic
//! switch operations.

use syrup::keys::Key;
use syrup::window::Window;

const ESC: char = '\x1b';

fn press(w: &mut Window, c: char) -> bool {
    let (redraw, line) = w.get(Some(Key::Character(c)));
    assert!(line.is_none());
    redraw
}

#[test]
fn escape_digit_switches_one_based() {
    let mut w = Window::initscr(3, 24, 80);
    assert!(!press(&mut w, ESC));
    assert!(press(&mut w, '2'));
    assert_eq!(w.cur_buf, 1);
}

#[test]
fn escape_zero_means_tenth() {
    // with only three buffers there is no tenth: nothing changes
    let mut w = Window::initscr(3, 24, 80);
    press(&mut w, ESC);
    assert!(!press(&mut w, '0'));
    assert_eq!(w.cur_buf, 0);

    // with ten buffers, zero addresses index 9
    let mut w = Window::initscr(10, 24, 80);
    press(&mut w, ESC);
    assert!(press(&mut w, '0'));
    assert_eq!(w.cur_buf, 9);
}

#[test]
fn escape_j_collects_two_digits() {
    // esc j 1 2 addresses index 11, present here
    let mut w = Window::initscr(12, 24, 80);
    press(&mut w, ESC);
    assert!(!press(&mut w, 'j'));
    assert!(!press(&mut w, '1'));
    assert!(press(&mut w, '2'));
    assert_eq!(w.cur_buf, 11);

    // absent with only three buffers: nothing changes
    let mut w = Window::initscr(3, 24, 80);
    press(&mut w, ESC);
    press(&mut w, 'j');
    press(&mut w, '1');
    assert!(!press(&mut w, '2'));
    assert_eq!(w.cur_buf, 0);
}

#[test]
fn two_digit_zero_zero_means_tenth() {
    let mut w = Window::initscr(10, 24, 80);
    press(&mut w, ESC);
    press(&mut w, 'j');
    press(&mut w, '0');
    assert!(press(&mut w, '0'));
    assert_eq!(w.cur_buf, 9);
}

#[test]
fn escape_then_other_key_aborts() {
    let mut w = Window::initscr(3, 24, 80);
    press(&mut w, ESC);
    assert!(!press(&mut w, 'x'));
    assert_eq!(w.cur_buf, 0);
    // back in Normal mode: the next character is typed, not navigated
    press(&mut w, '2');
    let input: String = w.cur_buf().input.iter().collect();
    assert_eq!(input, "2");
    assert_eq!(w.cur_buf, 0);
}

#[test]
fn collecting_aborts_on_a_non_digit() {
    let mut w = Window::initscr(12, 24, 80);
    press(&mut w, ESC);
    press(&mut w, 'j');
    press(&mut w, '1');
    assert!(!press(&mut w, 'x'));
    assert_eq!(w.cur_buf, 0);
    press(&mut w, 'a');
    let input: String = w.cur_buf().input.iter().collect();
    assert_eq!(input, "a");
}

#[test]
fn escape_then_arrow_key_aborts() {
    let mut w = Window::initscr(3, 24, 80);
    press(&mut w, ESC);
    let (redraw, line) = w.get(Some(Key::Left));
    assert!(!redraw);
    assert!(line.is_none());
    assert_eq!(w.cur_buf, 0);
    // the arrow was swallowed by the armed navigation, not sent to the buffer
    press(&mut w, 'b');
    let input: String = w.cur_buf().input.iter().collect();
    assert_eq!(input, "b");
}

#[test]
fn navigate_switches_only_to_existing_buffers() {
    let mut w = Window::initscr(3, 24, 80);
    assert!(w.navigate(2));
    assert_eq!(w.cur_buf, 2);
    assert!(!w.navigate(3));
    assert_eq!(w.cur_buf, 2);
    assert!(w.navigate(0));
    assert_eq!(w.cur_buf, 0);
}

#[test]
fn try_navigate_parses_one_based_addresses() {
    let mut w = Window::initscr(10, 24, 80);
    assert!(w.try_navigate(String::from("2")));
    assert_eq!(w.cur_buf, 1);
    assert!(w.try_navigate(String::from("0")));
    assert_eq!(w.cur_buf, 9);
    assert!(w.try_navigate(String::from("10")));
    assert_eq!(w.cur_buf, 9);
}

#[test]
fn try_navigate_absorbs_garbage() {
    let mut w = Window::initscr(3, 24, 80);
    assert!(!w.try_navigate(String::from("")));
    assert!(!w.try_navigate(String::from("abc")));
    assert!(!w.try_navigate(String::from("1a")));
    assert!(!w.try_navigate(String::from("4")));
    assert!(!w.try_navigate(String::from("99999999999999999999999999999999")));
    assert_eq!(w.cur_buf, 0);
}

#[test]
fn buffers_keep_their_own_state_across_switches() {
    let mut w = Window::initscr(2, 24, 80);
    w.get(Some(Key::Character('a')));
    w.writeln(String::from("first message"));
    assert!(w.navigate(1));
    assert_eq!(w.cur_buf().input.len(), 0);
    assert_eq!(w.cur_buf().backlog.len(), 0);
    w.get(Some(Key::Character('b')));
    assert!(w.navigate(0));
    let input: String = w.cur_buf().input.iter().collect();
    assert_eq!(input, "a");
    assert_eq!(w.cur_buf().backlog, vec![String::from("first message")]);
}
