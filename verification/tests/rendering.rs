//! The render pipeline: word-wrap, the bottom-anchored fill, the chrome rows
//! and the cursor column.

use syrup::keys::Key;
use syrup::render::visible_from_wrapped;
use syrup::window::Window;

fn rows_as_strings(rows: &[Vec<char>]) -> Vec<String> {
    rows.iter().map(|r| r.iter().collect()).collect()
}

fn chars(s: &str) -> Vec<char> {
    s.chars().collect()
}

#[test]
fn single_long_message_wraps_to_ceil_l_over_w() {
    // wrap width = max_x - 3 = 10; region height = max_y - 3 = 7
    let mut w = Window::initscr(1, 10, 13);
    w.writeln("a".repeat(25));
    let screen = w.redraw();
    // ceil(25 / 10) = 3 lines, first unprefixed, the rest prefixed "| "
    assert_eq!(
        rows_as_strings(&screen.backlog_rows),
        vec![
            String::from("aaaaaaaaaa"),
            String::from("| aaaaaaaaaa"),
            String::from("| aaaaa"),
        ]
    );
}

#[test]
fn single_message_taller_than_region_shows_its_newest_lines() {
    // wrap width = 10; region height = 5 - 3 = 2
    let mut w = Window::initscr(1, 5, 13);
    w.writeln("a".repeat(25));
    let screen = w.redraw();
    // of the 3 wrapped lines, exactly the 2 most recent, bottom-anchored
    assert_eq!(
        rows_as_strings(&screen.backlog_rows),
        vec![String::from("| aaaaaaaaaa"), String::from("| aaaaa")]
    );
}

#[test]
fn word_wrap_breaks_at_spaces() {
    let mut w = Window::initscr(1, 10, 18);
    // wrap width 15
    w.writeln(String::from("Memory safety without garbage collection."));
    let screen = w.redraw();
    assert_eq!(
        rows_as_strings(&screen.backlog_rows),
        vec![
            String::from("Memory safety"),
            String::from("| without garbage"),
            String::from("| collection."),
        ]
    );
}

#[test]
fn newest_message_is_anchored_at_the_bottom() {
    let mut w = Window::initscr(1, 10, 23);
    w.writeln(String::from("first"));
    w.writeln(String::from("second"));
    w.writeln(String::from("third"));
    let screen = w.redraw();
    assert_eq!(
        rows_as_strings(&screen.backlog_rows),
        vec![String::from("first"), String::from("second"), String::from("third")]
    );
}

#[test]
fn truncation_cuts_only_the_oldest_visible_message() {
    // wrap width = 9, region height = 3
    let mut w = Window::initscr(1, 6, 12);
    w.writeln(String::from("one"));         // dropped whole
    w.writeln(String::from("alpha beta"));  // wraps to 2 lines, loses its first
    w.writeln(String::from("gamma delta")); // wraps to 2 lines, kept whole
    let screen = w.redraw();
    assert_eq!(
        rows_as_strings(&screen.backlog_rows),
        vec![String::from("| beta"), String::from("gamma"), String::from("| delta")]
    );
}

#[test]
fn visible_from_wrapped_keeps_whole_messages_and_cuts_the_oldest() {
    // two messages of two lines each on a three-row region
    let older = vec![chars("o1"), chars("o2")];
    let newer = vec![chars("n1"), chars("n2")];
    let rows = visible_from_wrapped(vec![older, newer], 3);
    assert_eq!(
        rows_as_strings(&rows),
        vec![String::from("| o2"), String::from("n1"), String::from("| n2")]
    );
}

#[test]
fn visible_from_wrapped_with_room_shows_everything() {
    let older = vec![chars("o1"), chars("o2")];
    let newer = vec![chars("n1")];
    let rows = visible_from_wrapped(vec![older, newer], 10);
    assert_eq!(
        rows_as_strings(&rows),
        vec![String::from("o1"), String::from("| o2"), String::from("n1")]
    );
}

#[test]
fn narrow_screen_wraps_to_single_columns() {
    // max_x = 4 leaves a wrap width of exactly one column
    let mut w = Window::initscr(1, 10, 4);
    w.writeln(String::from("abc"));
    let screen = w.redraw();
    assert_eq!(
        rows_as_strings(&screen.backlog_rows),
        vec![String::from("a"), String::from("| b"), String::from("| c")]
    );
}

#[test]
fn empty_message_takes_one_blank_row() {
    let mut w = Window::initscr(1, 10, 13);
    w.writeln(String::new());
    w.writeln(String::from("x"));
    let screen = w.redraw();
    assert_eq!(
        rows_as_strings(&screen.backlog_rows),
        vec![String::from(""), String::from("x")]
    );
}

#[test]
fn topic_row_is_cut_and_padded_to_the_screen_width() {
    let mut w = Window::initscr(1, 10, 8);
    w.set_topic(String::from("a long topic"));
    let screen = w.redraw();
    assert_eq!(screen.topic_row.iter().collect::<String>(), "a long t");
    assert_eq!(screen.topic_row.len(), 8);

    let mut w = Window::initscr(1, 10, 8);
    w.set_topic(String::from("hi"));
    let screen = w.redraw();
    assert_eq!(screen.topic_row.iter().collect::<String>(), "hi      ");
}

#[test]
fn topic_is_counted_in_code_points() {
    let mut w = Window::initscr(1, 10, 4);
    w.set_topic("\u{1f937}".repeat(300));
    let screen = w.redraw();
    assert_eq!(screen.topic_row.len(), 4);
    assert!(screen.topic_row.iter().all(|c| *c == '\u{1f937}'));
}

#[test]
fn input_row_is_prompt_then_input_and_cursor_follows() {
    let mut w = Window::initscr(1, 10, 40);
    w.set_prompt(String::from("[user] "));
    w.get(Some(Key::Character('o')));
    w.get(Some(Key::Character('k')));
    let screen = w.redraw();
    assert_eq!(screen.input_row.iter().collect::<String>(), "[user] ok");
    assert_eq!(screen.cursor_col, 7 + 2);
    assert_eq!(w.cur_buf().cursor_pos(), 9);
}

#[test]
fn resize_then_redraw_recomputes_the_cursor_column() {
    let mut w = Window::initscr(2, 24, 80);
    w.set_prompt(String::from("[u] "));
    w.get(Some(Key::Character('a')));
    w.get(Some(Key::Character('b')));
    w.writeln(String::from("hello hello hello"));
    w.resize(10, 20);
    let screen = w.redraw();
    assert_eq!(screen.cursor_col, 4 + 2);
    assert_eq!(screen.topic_row.len(), 20);

    // a resize notification itself leaves the engine unchanged
    let (redraw, line) = w.get(Some(Key::Resize));
    assert!(!redraw);
    assert!(line.is_none());

    // and a tiny viewport still renders
    w.resize(2, 2);
    let screen = w.redraw();
    assert_eq!(screen.topic_row.len(), 2);
    assert_eq!(screen.backlog_rows.len(), 0);
    assert_eq!(screen.cursor_col, 6);
}

#[test]
fn writeln_goes_to_the_active_buffer_only() {
    let mut w = Window::initscr(2, 10, 23);
    w.writeln(String::from("for the first"));
    w.navigate(1);
    w.writeln(String::from("for the second"));
    let screen = w.redraw();
    assert_eq!(rows_as_strings(&screen.backlog_rows), vec![String::from("for the second")]);
    w.navigate(0);
    let screen = w.redraw();
    assert_eq!(rows_as_strings(&screen.backlog_rows), vec![String::from("for the first")]);
}
