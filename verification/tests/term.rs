use mican::term::Term;

fn setup() -> Term {
    let mut term = Term::new("> ".into());
    term.put("mican".into()).unwrap();
    term
}

#[test]
fn term_test_put() {
    let term = setup();
    assert_eq!(term.line, "mican".to_string());
    assert_eq!(term.pos, "mican".len());
}

#[test]
fn term_test_delete() {
    let mut term = setup();
    term.delete(1).unwrap();
    assert_eq!(term.line, "mica");
    term.delete(1).unwrap();
    assert_eq!(term.line, "mic");
}

#[test]
fn term_test_is_start() {
    let mut term = Term::new("> ".into());
    assert!(term.is_start());
    term.put("mican".into()).unwrap();
    assert!(!term.is_start());
    term.move_to_first().unwrap();
    assert!(term.is_start());
}

#[test]
fn term_test_clear_line() {
    let mut term = setup();
    term.clear_line().unwrap();
    assert_eq!(term.pos, "mican".len());
    assert_eq!(term.line, "".to_string());
}

#[test]
fn term_test_clear_screen() {
    let mut term = setup();
    term.clear_screen().unwrap();
    assert!(term.is_start());
    assert_eq!(term.line, "mican".to_string());
}

#[test]
fn term_test_move_left() {
    let mut term = setup();
    term.move_left(1).unwrap();
    assert_eq!(term.pos, "mican".len() - 1);
    term.move_left(3).unwrap();
    assert_eq!(term.pos, "mican".len() - 4);
}

#[test]
fn term_test_move_right() {
    let mut term = setup();
    term.move_right(1).unwrap();
    assert_eq!(term.pos, "mican".len());
    term.move_to_first().unwrap();
    term.move_right(3).unwrap();
    assert_eq!(term.pos, 3);
}

#[test]
fn term_test_move_to_first() {
    let mut term = setup();
    term.move_to_first().unwrap();
    assert_eq!(term.pos, 0);
}

#[test]
fn term_test_move_to_end() {
    let mut term = setup();
    term.move_to_end().unwrap();
    assert_eq!(term.pos, "mican".len());
}

#[test]
fn term_writes_what_it_puts() {
    let mut term = Term::new("> ".into());
    assert_eq!(term.write_prompt().unwrap(), "> ");
    assert_eq!(term.put("mican".into()).unwrap(), "mican");
    assert_eq!(term.write_line().unwrap(), "mican");
    assert_eq!(term.move_left(2).unwrap(), "\x1b[2D");
    // The rest of the line is drawn again and the cursor goes to the
    // column behind what was put in: 2 + 5 + 1.
    assert_eq!(term.put("XY".into()).unwrap(), "\x1b[JXYan\x1b[8G");
    assert_eq!(term.line, "micXYan");
    assert_eq!(term.pos, 5);
    assert_eq!(term.new_line().unwrap(), "\n");
    assert_eq!(term.write_str("ab").unwrap(), "ab");
    assert_eq!(term.pos, 7);
}

#[test]
fn term_delete_in_the_middle() {
    let mut term = setup();
    term.move_left(2).unwrap();
    assert_eq!(term.pos, 3);
    // The character left of the cursor goes; the cursor ends on its place.
    assert_eq!(term.delete(1).unwrap(), "\x1b[1D\x1b[Jan\x1b[5G");
    assert_eq!(term.line, "mian");
    assert_eq!(term.pos, 2);
}

#[test]
fn term_delete_at_the_start_does_nothing() {
    let mut term = setup();
    term.move_to_first().unwrap();
    assert_eq!(term.delete(1).unwrap(), "");
    assert_eq!(term.line, "mican");
}

#[test]
fn term_delete_of_a_tab() {
    let mut term = Term::new("> ".into());
    term.put("\t".into()).unwrap();
    assert_eq!(term.delete(1).unwrap(), "\x1b[5D\x1b[1D\x1b[J");
    assert_eq!(term.line, "");
    let mut term = Term::new("> ".into());
    term.put("a\t".into()).unwrap();
    assert_eq!(term.delete(1).unwrap(), "\x1b[7D\x1b[1D\x1b[J");
    assert_eq!(term.line, "a");
}

#[test]
fn term_moves_and_clears() {
    let mut term = setup();
    assert_eq!(term.move_to_first().unwrap(), "\x1b[3G");
    assert_eq!(term.move_to_end().unwrap(), "\x1b[8G");
    assert_eq!(term.move_right(1).unwrap(), "");
    assert_eq!(term.move_to(3).unwrap(), "\x1b[5G");
    assert_eq!(term.pos, 2);
    assert_eq!(term.move_right(2).unwrap(), "\x1b[2C");
    assert_eq!(term.pos, 4);
    assert_eq!(term.come_back().unwrap(), "\x1b[7G");
    assert_eq!(term.pos, 4);
    assert_eq!(term.move_left_only(4).unwrap(), "\x1b[4D");
    assert_eq!(term.move_down(2).unwrap(), "\x1b[2B");
    assert_eq!(term.pos, 4);
    assert_eq!(term.clear_to_screen_end().unwrap(), "\x1b[J");
    assert_eq!(term.clear_screen().unwrap(), "\x1b[2J\x1b[1;1H> ");
    assert_eq!(term.clear_line().unwrap(), "\x1b[3G\x1b[J");
}

#[test]
fn term_replace_and_reset() {
    let mut term = setup();
    assert_eq!(term.replace("ls -al").unwrap(), "\x1b[3G\x1b[Jls -al");
    assert_eq!(term.line, "ls -al");
    assert_eq!(term.pos, 5);
    assert!(!term.is_last());
    term.reset();
    assert_eq!(term.line, "");
    assert_eq!(term.pos, 0);
    assert!(term.is_last());
}

#[test]
fn term_delete_of_several_characters() {
    let mut term = setup();
    assert_eq!(term.delete(2).unwrap(), "\x1b[2D\x1b[J");
    assert_eq!(term.line, "mic");
    assert_eq!(term.pos, 3);
    let mut term = setup();
    term.move_left(1).unwrap();
    assert_eq!(term.delete(3).unwrap(), "\x1b[3D\x1b[Jn\x1b[4G");
    assert_eq!(term.line, "mn");
    assert_eq!(term.pos, 1);
    assert_eq!(term.delete(0).unwrap(), "\x1b[0D\x1b[Jn\x1b[4G");
    assert_eq!(term.line, "mn");
    assert_eq!(term.pos, 1);
}

#[test]
fn term_put_then_delete_restores_line_and_cursor() {
    for (line, back, text) in [
        ("mican", 0usize, "shell"),
        ("mican", 2, "x"),
        ("mican", 5, "añ→"),
        ("", 0, "abc"),
        ("mican", 3, ""),
    ] {
        let mut term = Term::new("> ".into());
        term.put(line.into()).unwrap();
        if back > 0 {
            term.move_left(back).unwrap();
        }
        let pos = term.pos;
        term.put(text.into()).unwrap();
        term.delete(text.chars().count()).unwrap();
        assert_eq!(term.line, line);
        assert_eq!(term.pos, pos);
    }
}
