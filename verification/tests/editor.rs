use mican::readline::editor::Editor;
use mican::readline::terminal::Winsize;

fn winsize() -> Winsize {
    Winsize { ws_row: 24, ws_col: 80, ws_xpixel: 0, ws_ypixel: 0 }
}

fn setup() -> Editor {
    let mut ed = Editor::new("> ".into(), winsize());
    ed.put("mican");
    ed
}

#[test]
fn editor_test_put() {
    let mut ed = setup();
    assert_eq!(ed.line(), "mican");
    assert_eq!(ed.pos, "mican".len());
    ed.move_left(1);
    ed.put("aa");
    assert_eq!(ed.line(), "micaaan");
}

#[test]
fn editor_test_delete() {
    let mut ed = setup();
    ed.delete(1);
    assert_eq!(ed.line(), "mica");
    ed.delete(1);
    assert_eq!(ed.line(), "mic");
    ed.delete(2);
    assert_eq!(ed.line(), "m");

    let mut ed = setup();
    ed.move_left(1);
    ed.delete(3);
    assert_eq!(ed.line(), "mn");
    assert_eq!(ed.pos, 1);
}

#[test]
fn editor_test_is_start() {
    let mut ed = Editor::new("> ".into(), winsize());
    assert!(ed.is_start());
    ed.put("mican");
    assert!(!ed.is_start());
    ed.move_to_first();
    assert!(ed.is_start());
}

#[test]
fn editor_test_clear_line() {
    let mut ed = setup();
    ed.clear_line().unwrap();
    assert_eq!(ed.pos, "mican".len());
    assert_eq!(ed.line(), "");
}

#[test]
fn editor_test_clear_screen() {
    let mut ed = setup();
    ed.clear_screen();
    assert!(ed.is_start());
    assert_eq!(ed.line(), "mican");
}

#[test]
fn editor_test_move_left() {
    let mut ed = setup();
    ed.move_left(1);
    assert_eq!(ed.pos, "mican".len() - 1);
    ed.move_left(3);
    assert_eq!(ed.pos, "mican".len() - 4);
}

#[test]
fn editor_test_move_right() {
    let mut ed = setup();
    ed.move_right(1);
    assert_eq!(ed.pos, "mican".len());
    ed.move_to_first();
    ed.move_right(3);
    assert_eq!(ed.pos, 3);
}

#[test]
fn editor_test_move_to_first() {
    let mut ed = setup();
    ed.move_to_first();
    assert_eq!(ed.pos, 0);
}

#[test]
fn editor_test_move_to_end() {
    let mut ed = setup();
    ed.move_to_end();
    assert_eq!(ed.pos, "mican".len());
}

#[test]
fn put_at_the_end_draws_the_text_only() {
    let mut ed = Editor::new("> ".into(), winsize());
    ed.put("ls");
    assert_eq!(ed.w_buffer, "ls");
    assert_eq!(ed.pos, 2);
    assert_eq!(ed.display(), "ls");
    assert_eq!(ed.w_buffer, "");
    assert_eq!(ed.display(), "");
}

#[test]
fn put_in_the_middle_draws_the_rest_of_the_line() {
    let mut ed = setup();
    ed.display();
    ed.move_left(2);
    assert_eq!(ed.display(), "\x1b[2D");
    ed.put("XY");
    assert_eq!(ed.line(), "micXYan");
    assert_eq!(ed.pos, 5);
    // Clear to the end, the line from the place of the insertion, and the
    // cursor into column 2 + 5 + 1.
    assert_eq!(ed.display(), "\x1b[0JXYan\x1b[8G");
}

#[test]
fn put_then_delete_restores_line_and_cursor() {
    for (line, back, text) in [
        ("mican", 0usize, "shell"),
        ("mican", 2, "x"),
        ("mican", 5, "añ→"),
        ("", 0, "abc"),
        ("mican", 3, ""),
        ("", 0, ""),
        ("a\tb", 1, "\t\t"),
    ] {
        let mut ed = Editor::new("> ".into(), winsize());
        ed.put(line);
        if back > 0 {
            ed.move_left(back);
        }
        let pos = ed.pos;
        ed.put(text);
        assert_eq!(ed.pos, pos + text.chars().count());
        ed.delete(text.chars().count());
        assert_eq!(ed.line(), line);
        assert_eq!(ed.pos, pos);
    }
}

#[test]
fn delete_at_the_end_draws_a_move_and_a_clear() {
    let mut ed = setup();
    ed.display();
    ed.delete(2);
    assert_eq!(ed.line(), "mic");
    assert_eq!(ed.pos, 3);
    assert_eq!(ed.display(), "\x1b[2D\x1b[0J");
}

#[test]
fn delete_in_the_middle_draws_the_rest_of_the_line() {
    let mut ed = setup();
    ed.move_left(1);
    ed.display();
    ed.delete(3);
    assert_eq!(ed.line(), "mn");
    assert_eq!(ed.pos, 1);
    assert_eq!(ed.display(), "\x1b[3D\x1b[0Jn\x1b[4G");
}

#[test]
fn delete_at_the_start_does_nothing() {
    let mut ed = setup();
    ed.move_to_first();
    ed.display();
    ed.delete(1);
    assert_eq!(ed.line(), "mican");
    assert_eq!(ed.pos, 0);
    assert_eq!(ed.display(), "");
}

#[test]
fn deleting_a_tab_moves_further_left() {
    // The only tab of the line is deleted, but its index in the line is
    // not its index among the deleted characters.
    let mut ed = Editor::new("> ".into(), winsize());
    ed.put("a\t");
    ed.display();
    ed.delete(1);
    assert_eq!(ed.line(), "a");
    assert_eq!(ed.display(), "\x1b[7D\x1b[1D\x1b[0J");

    // The tab is the first character of the line and of what is deleted.
    let mut ed = Editor::new("> ".into(), winsize());
    ed.put("\t");
    ed.display();
    ed.delete(1);
    assert_eq!(ed.line(), "");
    assert_eq!(ed.display(), "\x1b[5D\x1b[1D\x1b[0J");

    // Another tab follows in the line.
    let mut ed = Editor::new("> ".into(), winsize());
    ed.put("\tab\t");
    ed.move_left(3);
    ed.display();
    ed.delete(1);
    assert_eq!(ed.line(), "ab\t");
    assert_eq!(ed.display(), "\x1b[7D\x1b[1D\x1b[0Jab\t\x1b[3G");
}

#[test]
fn moves_draw_their_sequences() {
    let mut ed = setup();
    ed.display();
    ed.move_left(2);
    ed.move_right(1);
    ed.move_to_first();
    ed.move_to_end();
    ed.move_to(3);
    ed.come_back();
    assert_eq!(ed.display(), "\x1b[2D\x1b[1C\x1b[3G\x1b[8G\x1b[6G\x1b[6G");
    assert_eq!(ed.pos, 3);
}

#[test]
fn moves_stop_at_the_ends_of_the_line() {
    let mut ed = setup();
    ed.display();
    ed.move_right(1);
    assert_eq!(ed.pos, 5);
    assert_eq!(ed.display(), "");
    assert!(ed.is_last());
    ed.move_to_first();
    ed.display();
    ed.move_left(1);
    assert_eq!(ed.pos, 0);
    assert_eq!(ed.display(), "");
}

#[test]
fn replace_draws_the_new_line_over_the_old() {
    let mut ed = setup();
    ed.display();
    ed.replace("ls -al");
    assert_eq!(ed.line(), "ls -al");
    assert_eq!(ed.pos, 5);
    assert_eq!(ed.display(), "\x1b[3G\x1b[0Jls -al");
    ed.move_to_end();
    assert_eq!(ed.pos, 6);
}

#[test]
fn prompt_line_and_screen() {
    let mut ed = setup();
    ed.display();
    ed.write_prompt();
    ed.write_line();
    ed.new_line();
    ed.write_str("ab");
    assert_eq!(ed.pos, 7);
    ed.clear_to_screen_end();
    assert_eq!(ed.display(), "> mican\nab\x1b[0J");
    ed.clear_screen();
    assert_eq!(ed.display(), "\x1b[2J\x1b[1;1H> ");
    ed.write_sub("xyz", 4);
    assert_eq!(ed.display(), "xyz\x1b[4A\x1b[3G");
}

#[test]
fn reset_empties_the_line_and_draws_nothing() {
    let mut ed = setup();
    ed.display();
    ed.reset();
    assert_eq!(ed.line(), "");
    assert_eq!(ed.pos, 0);
    assert_eq!(ed.display(), "");
}

#[test]
fn the_editor_keeps_the_size_of_the_terminal() {
    let ed = Editor::new("$ ".into(), winsize());
    assert_eq!(ed.win_size, winsize());
    assert_eq!(ed.prompt, "$ ");
}
