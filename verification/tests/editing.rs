//! Normal-mode line editing through the engine's poll-cycle entry point.

use syrup::buffer::Buffer;
use syrup::keys::Key;
use syrup::window::Window;

fn type_str(w: &mut Window, s: &str) {
    for c in s.chars() {
        let (redraw, line) = w.get(Some(Key::Character(c)));
        assert!(!redraw);
        assert!(line.is_none());
    }
}

fn input_of(w: &Window) -> String {
    w.cur_buf().input.iter().collect()
}

#[test]
fn typing_then_enter_returns_line() {
    let mut w = Window::initscr(2, 24, 80);
    type_str(&mut w, "hi there");
    let (redraw, line) = w.get(Some(Key::Character('\n')));
    assert!(!redraw);
    assert_eq!(line, Some(String::from("hi there")));
    assert_eq!(w.cur_buf().input.len(), 0);
    assert_eq!(w.cur_buf().position, 0);
}

#[test]
fn enter_on_empty_input_is_a_no_op() {
    let mut w = Window::initscr(2, 24, 80);
    let (redraw, line) = w.get(Some(Key::Character('\n')));
    assert!(!redraw);
    assert_eq!(line, None);
    assert_eq!(w.cur_buf().input.len(), 0);
    assert_eq!(w.cur_buf().position, 0);
    assert_eq!(w.cur_buf().backlog.len(), 0);
}

#[test]
fn backspace_at_start_is_a_no_op() {
    let mut w = Window::initscr(2, 24, 80);
    type_str(&mut w, "abc");
    // Ctrl+A moves the cursor to the start.
    let (redraw, _) = w.get(Some(Key::Character('\x01')));
    assert!(redraw);
    assert_eq!(w.cur_buf().position, 0);
    let (_, line) = w.get(Some(Key::Character('\x7f')));
    assert!(line.is_none());
    assert_eq!(input_of(&w), "abc");
    assert_eq!(w.cur_buf().position, 0);
}

#[test]
fn right_arrow_at_end_is_a_no_op() {
    let mut w = Window::initscr(2, 24, 80);
    type_str(&mut w, "abc");
    assert_eq!(w.cur_buf().position, 3);
    w.get(Some(Key::Right));
    assert_eq!(w.cur_buf().position, 3);
    assert_eq!(input_of(&w), "abc");
}

#[test]
fn cursor_stays_inside_input_under_any_sequence() {
    let mut w = Window::initscr(2, 24, 80);
    let keys = [
        Key::Character('a'),
        Key::Left,
        Key::Left,
        Key::Character('\x7f'),
        Key::Character('b'),
        Key::Right,
        Key::Right,
        Key::Delete,
        Key::Character('\x05'),
        Key::Character('\x01'),
        Key::Character('c'),
        Key::Character('\x15'),
        Key::Character('\n'),
        Key::Unknown,
    ];
    for k in keys {
        w.get(Some(k));
        let b = w.cur_buf();
        assert!(b.position <= b.input.len());
    }
}

#[test]
fn backspace_removes_before_cursor() {
    let mut w = Window::initscr(2, 24, 80);
    type_str(&mut w, "abcd");
    w.get(Some(Key::Left));
    assert_eq!(w.cur_buf().position, 3);
    w.get(Some(Key::Character('\x08')));
    assert_eq!(input_of(&w), "abd");
    assert_eq!(w.cur_buf().position, 2);
}

#[test]
fn delete_removes_at_cursor() {
    let mut w = Window::initscr(2, 24, 80);
    type_str(&mut w, "abcd");
    w.get(Some(Key::Left));
    w.get(Some(Key::Left));
    assert_eq!(w.cur_buf().position, 2);
    w.get(Some(Key::Delete));
    assert_eq!(input_of(&w), "abd");
    assert_eq!(w.cur_buf().position, 2);
    // deleting at the end of the line does nothing
    w.get(Some(Key::Character('\x05')));
    w.get(Some(Key::Delete));
    assert_eq!(input_of(&w), "abd");
}

#[test]
fn ctrl_u_removes_exactly_the_prefix_before_the_cursor() {
    let mut w = Window::initscr(2, 24, 80);
    type_str(&mut w, "hello");
    w.get(Some(Key::Left));
    w.get(Some(Key::Left));
    assert_eq!(w.cur_buf().position, 3);
    let (redraw, line) = w.get(Some(Key::Character('\x15')));
    assert!(redraw);
    assert!(line.is_none());
    assert_eq!(input_of(&w), "lo");
    assert_eq!(w.cur_buf().position, 0);
}

#[test]
fn ctrl_a_and_ctrl_e_jump_to_the_ends() {
    let mut w = Window::initscr(2, 24, 80);
    type_str(&mut w, "word");
    let (redraw, _) = w.get(Some(Key::Character('\x01')));
    assert!(redraw);
    assert_eq!(w.cur_buf().position, 0);
    let (redraw, _) = w.get(Some(Key::Character('\x05')));
    assert!(redraw);
    assert_eq!(w.cur_buf().position, 4);
}

#[test]
fn typing_appends_at_the_logical_end_even_mid_line() {
    let mut w = Window::initscr(2, 24, 80);
    type_str(&mut w, "abc");
    w.get(Some(Key::Left));
    assert_eq!(w.cur_buf().position, 2);
    w.get(Some(Key::Character('z')));
    // the character lands at the end; the cursor advances by one
    assert_eq!(input_of(&w), "abcz");
    assert_eq!(w.cur_buf().position, 3);
}

#[test]
fn catch_key_echoes_a_debug_token() {
    let mut w = Window::initscr(2, 24, 80);
    // Ctrl+K arms catch-key capture; the next key is echoed as a token.
    let (redraw, line) = w.get(Some(Key::Character('\x0b')));
    assert!(!redraw);
    assert!(line.is_none());
    let (redraw, line) = w.get(Some(Key::Character('q')));
    assert!(redraw);
    assert!(line.is_none());
    assert_eq!(input_of(&w), "Character('q')");
    assert_eq!(w.cur_buf().position, "Character('q')".chars().count());
    // back in Normal mode: typing works again
    type_str(&mut w, "!");
    assert_eq!(input_of(&w), "Character('q')!");
}

#[test]
fn catch_key_tokenizes_special_keys() {
    let mut w = Window::initscr(2, 24, 80);
    w.get(Some(Key::Character('\x0b')));
    w.get(Some(Key::Left));
    assert_eq!(input_of(&w), "KeyLeft");
    w.get(Some(Key::Character('\x0b')));
    w.get(Some(Key::Delete));
    assert_eq!(input_of(&w), "KeyLeftKeyDC");
}

#[test]
fn buffer_edits_directly() {
    let mut b = Buffer::new();
    assert_eq!(b.cursor_pos(), 0);
    b.get(Key::Character('h'));
    b.get(Key::Character('i'));
    assert_eq!(b.input, vec!['h', 'i']);
    assert_eq!(b.position, 2);
    b.prompt = vec!['>', ' '];
    assert_eq!(b.cursor_pos(), 4);
    let (redraw, line) = b.get(Key::Character('\n'));
    assert!(!redraw);
    assert_eq!(line, Some(String::from("hi")));
    assert_eq!(b.input.len(), 0);
    assert_eq!(b.position, 0);
}

#[test]
fn unknown_keys_are_ignored() {
    let mut w = Window::initscr(2, 24, 80);
    type_str(&mut w, "ab");
    let (redraw, line) = w.get(Some(Key::Unknown));
    assert!(!redraw);
    assert!(line.is_none());
    assert_eq!(input_of(&w), "ab");
    let (redraw, line) = w.get(None);
    assert!(!redraw);
    assert!(line.is_none());
    assert_eq!(input_of(&w), "ab");
}
