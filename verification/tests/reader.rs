use mican::readline::completer::Bin;
use mican::readline::context::{Context, Mode};
use mican::readline::event::{Event, InputError, Kind};
use mican::readline::reader::{bindings, Outcome, Reader};
use mican::readline::signal::Signal;
use mican::readline::terminal::Winsize;

fn completer(names: &[&str]) -> Bin {
    let mut bin = Bin::new();
    bin.set_entries(names.iter().map(|s| s.to_string()).collect());
    bin
}

fn winsize() -> Winsize {
    Winsize { ws_row: 24, ws_col: 80, ws_xpixel: 0, ws_ypixel: 0 }
}

fn reader(names: &[&str]) -> Reader<Bin> {
    Reader::new(Context::new(completer(names), winsize()))
}

/// Types `text` key by key and returns what was drawn.
fn type_text(reader: &mut Reader<Bin>, text: &str) -> String {
    let mut out = String::new();
    for c in text.chars() {
        let reply = reader.input(c.to_string().into_bytes()).unwrap();
        assert_eq!(reply.outcome, Outcome::Pending);
        out.push_str(&reply.output);
    }
    out
}

fn press(reader: &mut Reader<Bin>, key: &[u8]) -> (String, Outcome) {
    let reply = reader.input(key.to_vec()).unwrap();
    (reply.output, reply.outcome)
}

const ENTER: &[u8] = b"\r";
const UP: &[u8] = b"\x1b[A";
const DOWN: &[u8] = b"\x1b[B";
const RIGHT: &[u8] = b"\x1b[C";
const LEFT: &[u8] = b"\x1b[D";
const TAB: &[u8] = b"\t";
const BACKSPACE: &[u8] = b"\x7f";

#[test]
fn a_new_context_is_empty() {
    let con = Context::new(completer(&[]), winsize());
    assert_eq!(con.editor.prompt, "> ");
    assert_eq!(con.editor.line(), "");
    assert_eq!(con.editor.pos, 0);
    assert_eq!(con.history.len(), 0);
    assert_eq!(con.mode, Mode::Normal);
    assert_eq!(con.editor.win_size, winsize());
}

#[test]
fn the_table_of_bindings() {
    let table = bindings();
    assert_eq!(table.len(), 33);
    assert_eq!(table[0], (b"\r".to_vec(), Kind::Enter));
    assert_eq!(table[2], (b"\x1b[A".to_vec(), Kind::PreviousHistory));
    assert_eq!(table[6], (b"\t".to_vec(), Kind::Complete));
    assert_eq!(table[32], (b"\x1b>".to_vec(), Kind::Something));
}

#[test]
fn keys_are_bound_to_events() {
    let r = reader(&[]);
    assert_eq!(r.find_bind(b"\r"), Some(Kind::Enter));
    assert_eq!(r.find_bind(b"\n"), Some(Kind::Enter));
    assert_eq!(r.find_bind(b"\x7f"), Some(Kind::Delete));
    assert_eq!(r.find_bind(b"\x1b[A"), Some(Kind::PreviousHistory));
    assert_eq!(r.find_bind(b"\x1b[B"), Some(Kind::NextHistory));
    assert_eq!(r.find_bind(b"\x1b[C"), Some(Kind::ForwardChar));
    assert_eq!(r.find_bind(b"\x1b[D"), Some(Kind::BackwardChar));
    assert_eq!(r.find_bind(b"\t"), Some(Kind::Complete));
    assert_eq!(r.find_bind(b"\x01"), Some(Kind::BeginningOFLine));
    assert_eq!(r.find_bind(b"\x02"), Some(Kind::BackwardChar));
    assert_eq!(r.find_bind(b"\x05"), Some(Kind::EndOfLine));
    assert_eq!(r.find_bind(b"\x06"), Some(Kind::ForwardChar));
    assert_eq!(r.find_bind(b"\x0c"), Some(Kind::CtrlL));
    assert_eq!(r.find_bind(b"\x0e"), Some(Kind::NextHistory));
    assert_eq!(r.find_bind(b"\x10"), Some(Kind::PreviousHistory));
    assert_eq!(r.find_bind(b"\x07"), Some(Kind::Something));
    assert_eq!(r.find_bind(b"\x1bb"), Some(Kind::Something));
}

#[test]
fn only_the_whole_input_is_looked_up() {
    let r = reader(&[]);
    assert_eq!(r.find_bind(b"a"), None);
    assert_eq!(r.find_bind(b""), None);
    assert_eq!(r.find_bind(b"\x1b"), None);
    assert_eq!(r.find_bind(b"\x1b["), None);
    assert_eq!(r.find_bind(b"\x1b[Ax"), None);
    assert_eq!(r.find_bind(b"\r\r"), None);
}

#[test]
fn the_prompt_begins_a_line() {
    let mut r = reader(&[]);
    assert_eq!(r.prompt(), "> ");
    assert_eq!(r.context().editor.w_buffer, "");
}

#[test]
fn typed_text_goes_into_the_line() {
    let mut r = reader(&[]);
    assert_eq!(type_text(&mut r, "ls"), "ls");
    assert_eq!(r.context().editor.line(), "ls");
    // Input of several characters is typed at once.
    let reply = r.input(" -añ".as_bytes().to_vec()).unwrap();
    assert_eq!(reply.output, " -añ");
    assert_eq!(reply.outcome, Outcome::Pending);
    assert_eq!(r.context().editor.line(), "ls -añ");
    assert_eq!(r.context().editor.pos, 6);
}

#[test]
fn enter_submits_the_line() {
    let mut r = reader(&[]);
    type_text(&mut r, "ls -al");
    let (out, outcome) = press(&mut r, ENTER);
    assert_eq!(outcome, Outcome::Line("ls -al".to_string()));
    assert_eq!(out, "\n");
    assert_eq!(r.context().editor.line(), "");
    assert_eq!(r.context().editor.pos, 0);
    assert_eq!(r.context().history.len(), 1);
    // The reader goes on with the next line.
    assert_eq!(r.prompt(), "> ");
    type_text(&mut r, "pwd");
    let (_, outcome) = press(&mut r, b"\n");
    assert_eq!(outcome, Outcome::Line("pwd".to_string()));
    assert_eq!(r.context().history.len(), 2);
}

#[test]
fn an_interrupt_gives_the_line_up() {
    let mut r = reader(&[]);
    type_text(&mut r, "first");
    press(&mut r, ENTER);
    type_text(&mut r, "sleep 10");
    press(&mut r, UP);
    let out = r.interrupt(Signal::Interrupt);
    assert_eq!(out, "\n");
    assert_eq!(r.context().editor.line(), "");
    assert_eq!(r.context().editor.pos, 0);
    assert_eq!(r.context().history.len(), 1);
    assert!(r.context().history.is_started());
    assert_eq!(r.context().mode, Mode::Normal);
    // The walk through the history starts again at the most recent line.
    let (out, _) = press(&mut r, UP);
    assert_eq!(out, "\x1b[3G\x1b[0Jfirst\x1b[8G");
}

#[test]
fn an_interrupt_wipes_the_overlay() {
    let mut r = reader(&["git"]);
    type_text(&mut r, "gi");
    press(&mut r, TAB);
    assert_eq!(r.context().mode, Mode::Completion);
    let out = r.interrupt(Signal::Quit);
    assert_eq!(out, "\x1b[1E\x1b[0J\x1b[1A\x1b[6G\n");
    assert_eq!(r.context().mode, Mode::Normal);
    assert!(!r.context().editor.completer_is_after);
    assert_eq!(r.context().editor.line(), "");
}

#[test]
fn input_that_is_not_text_is_turned_away() {
    let mut r = reader(&[]);
    type_text(&mut r, "ab");
    let err = r.input(vec![0xff, 0xfe]).unwrap_err();
    assert_eq!(err, InputError::InvalidUtf8);
    assert_eq!(err.message(), "input is not valid UTF-8");
    assert!(r.input(vec![0xc3]).is_err());
    assert_eq!(r.context().editor.line(), "ab");
    assert_eq!(r.context().editor.pos, 2);
    assert_eq!(r.context().editor.w_buffer, "");
}

#[test]
fn the_history_is_walked_with_up_and_down() {
    let mut r = reader(&[]);
    for line in ["A", "B", "C"] {
        type_text(&mut r, line);
        press(&mut r, ENTER);
    }
    type_text(&mut r, "typing");
    let (out, outcome) = press(&mut r, UP);
    assert_eq!(outcome, Outcome::Pending);
    assert_eq!(out, "\x1b[3G\x1b[0JC\x1b[4G");
    assert_eq!(r.context().editor.line(), "C");
    assert_eq!(r.context().editor.pos, 1);
    press(&mut r, UP);
    assert_eq!(r.context().editor.line(), "B");
    press(&mut r, b"\x10");
    assert_eq!(r.context().editor.line(), "A");
    // There is no older line: nothing changes.
    let (out, _) = press(&mut r, UP);
    assert_eq!(out, "");
    assert_eq!(r.context().editor.line(), "A");
    press(&mut r, DOWN);
    assert_eq!(r.context().editor.line(), "B");
    press(&mut r, b"\x0e");
    assert_eq!(r.context().editor.line(), "C");
    let (out, _) = press(&mut r, DOWN);
    assert_eq!(r.context().editor.line(), "typing");
    assert_eq!(out, "\x1b[3G\x1b[0Jtyping\x1b[9G");
}

#[test]
fn down_without_a_walk_does_nothing() {
    let mut r = reader(&[]);
    type_text(&mut r, "ab");
    let (out, _) = press(&mut r, DOWN);
    assert_eq!(out, "");
    assert_eq!(r.context().editor.line(), "ab");
}

#[test]
fn the_cursor_moves_and_characters_are_deleted() {
    let mut r = reader(&[]);
    type_text(&mut r, "mican");
    assert_eq!(press(&mut r, LEFT).0, "\x1b[1D");
    assert_eq!(press(&mut r, b"\x02").0, "\x1b[1D");
    assert_eq!(press(&mut r, RIGHT).0, "\x1b[1C");
    assert_eq!(r.context().editor.pos, 4);
    assert_eq!(press(&mut r, BACKSPACE).0, "\x1b[1D\x1b[0Jn\x1b[6G");
    assert_eq!(r.context().editor.line(), "micn");
    assert_eq!(press(&mut r, b"\x01").0, "\x1b[3G");
    assert_eq!(r.context().editor.pos, 0);
    assert_eq!(press(&mut r, BACKSPACE).0, "");
    assert_eq!(press(&mut r, LEFT).0, "");
    assert_eq!(press(&mut r, b"\x05").0, "\x1b[7G");
    assert_eq!(r.context().editor.pos, 4);
    assert_eq!(press(&mut r, RIGHT).0, "");
    assert_eq!(press(&mut r, b"\x06").0, "");
}

#[test]
fn control_l_clears_the_screen() {
    let mut r = reader(&[]);
    type_text(&mut r, "ls");
    let (out, outcome) = press(&mut r, b"\x0c");
    assert_eq!(out, "\x1b[2J\x1b[1;1H> ls");
    assert_eq!(outcome, Outcome::Pending);
    assert_eq!(r.context().editor.line(), "ls");
    assert_eq!(r.context().editor.pos, 0);
}

#[test]
fn unbound_control_keys_do_nothing() {
    let mut r = reader(&[]);
    type_text(&mut r, "ls");
    for key in [&b"\x07"[..], b"\x0b", b"\x12", b"\x1bb", b"\x1b>"] {
        let (out, outcome) = press(&mut r, key);
        assert_eq!(out, "");
        assert_eq!(outcome, Outcome::Pending);
    }
    assert_eq!(r.context().editor.line(), "ls");
    assert_eq!(r.context().editor.pos, 2);
}

#[test]
fn a_tab_on_a_blank_line_is_a_character() {
    let mut r = reader(&["git"]);
    let (out, _) = press(&mut r, TAB);
    assert_eq!(out, "\t");
    assert_eq!(r.context().editor.line(), "\t");
    assert_eq!(r.context().mode, Mode::Normal);
    type_text(&mut r, "  ");
    press(&mut r, TAB);
    assert_eq!(r.context().editor.line(), "\t  \t");
    assert!(!r.context().editor.completer_is_after);
}

#[test]
fn a_tab_on_a_word_begins_a_completion() {
    let mut r = reader(&["gitk", "git", "gimp"]);
    type_text(&mut r, "gi");
    let (out, outcome) = press(&mut r, TAB);
    assert_eq!(outcome, Outcome::Pending);
    assert_eq!(r.context().mode, Mode::Completion);
    assert_eq!(r.context().editor.line(), "gimp");
    assert!(out.starts_with("\x1b[2D\x1b[0Jgimp\x1b[1E"));
    assert!(out.ends_with("\x1b[4A\x1b[7G"));
    // Tab and the keys of the history move the highlight.
    press(&mut r, TAB);
    assert_eq!(r.context().editor.line(), "git");
    press(&mut r, DOWN);
    assert_eq!(r.context().editor.line(), "gitk");
    press(&mut r, UP);
    assert_eq!(r.context().editor.completer_index, 2);
    assert_eq!(r.context().mode, Mode::Completion);
    assert_eq!(r.context().history.len(), 0);
}

#[test]
fn typing_ends_the_completion() {
    let mut r = reader(&["git"]);
    type_text(&mut r, "gi");
    press(&mut r, TAB);
    let reply = r.input(b" ".to_vec()).unwrap();
    assert_eq!(reply.output, "\x1b[1E\x1b[0J\x1b[1A\x1b[6G ");
    assert_eq!(r.context().mode, Mode::Normal);
    assert!(!r.context().editor.completer_is_after);
    assert_eq!(r.context().editor.line(), "git ");
}

#[test]
fn enter_ends_the_completion() {
    let mut r = reader(&["git"]);
    type_text(&mut r, "gi");
    press(&mut r, TAB);
    let (out, outcome) = press(&mut r, ENTER);
    assert_eq!(outcome, Outcome::Line("git".to_string()));
    assert_eq!(out, "\x1b[1E\x1b[0J\x1b[1A\x1b[6G\n");
    assert_eq!(r.context().mode, Mode::Normal);
    // Up walks through the history again.
    press(&mut r, UP);
    assert_eq!(r.context().editor.line(), "git");
}

#[test]
fn other_keys_end_the_completion_mode() {
    for key in [LEFT, RIGHT, BACKSPACE, &b"\x01"[..], b"\x05", b"\x0c", b"\x07"] {
        let mut r = reader(&["git"]);
        type_text(&mut r, "gi");
        press(&mut r, TAB);
        assert_eq!(r.context().mode, Mode::Completion);
        press(&mut r, key);
        assert_eq!(r.context().mode, Mode::Normal);
    }
}

#[test]
fn an_event_is_handled_on_a_context() {
    let mut con = Context::new(completer(&[]), winsize());
    let typed = Event::from_event_kind(&None);
    assert_eq!(typed.kind, None);
    assert_eq!(typed.handle(&mut con, b"ls".to_vec()), Ok(None));
    assert_eq!(con.editor.line(), "ls");
    assert_eq!(typed.handle(&mut con, vec![0x80]), Err(InputError::InvalidUtf8));
    let enter = Event::from_event_kind(&Some(Kind::Enter));
    assert_eq!(enter.kind, Some(Kind::Enter));
    assert_eq!(enter.handle(&mut con, b"\r".to_vec()), Ok(Some("ls".to_string())));
    assert_eq!(con.editor.display(), "ls\n");
    let interrupt = Event::from_event_kind(&Some(Kind::Interrupt));
    assert_eq!(interrupt.handle(&mut con, Vec::new()), Ok(None));
    assert_eq!(con.history.len(), 1);
}

#[test]
fn the_reader_completes_program_names() {
    let mut r = Reader::new(Context::new(Bin::new(), winsize()));
    r.completer_mut().set_entries(vec![
        "ls".to_string(),
        "gitk".to_string(),
        "git".to_string(),
        "gimp".to_string(),
    ]);
    for c in "sudo gi".chars() {
        r.input(c.to_string().into_bytes()).unwrap();
    }
    r.input(b"\t".to_vec()).unwrap();
    assert_eq!(r.context().editor.completions, vec!["gimp", "git", "gitk"]);
    assert_eq!(r.context().editor.line(), "sudo gimp");
    assert_eq!(r.context().editor.completer.max_len, 4);
    r.input(b"\t".to_vec()).unwrap();
    assert_eq!(r.context().editor.line(), "sudo git");
}
