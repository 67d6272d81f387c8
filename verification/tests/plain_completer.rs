use mican::completer::Completer;

fn strings(items: &[&str]) -> Vec<String> {
    items.iter().map(|s| s.to_string()).collect()
}

fn completer(path: &str, names: &[&str], columns: u16) -> Completer {
    let mut c = Completer::new();
    c.complete(path, &strings(names), columns);
    c
}

#[test]
fn a_new_completer_has_no_candidates() {
    let mut c = Completer::new();
    assert!(c.is_empty());
    assert_eq!(c.result, None);
    assert_eq!(c.n, 0);
    assert_eq!(c.height, 0);
    assert_eq!(c.next(), None);
    assert_eq!(c.clear(), "");
}

#[test]
fn the_candidates_begin_with_the_file_name() {
    let c = completer("/usr/bin/gi", &["git", "ls", "gimp", "gitk"], 80);
    assert!(!c.is_empty());
    assert_eq!(c.result, Some(strings(&["git", "gimp", "gitk"])));
    // "git gimp gitk" is 13 characters long.
    assert_eq!(c.height, 1);
    assert_eq!(completer("gi", &["git", "ls", "gimp", "gitk"], 13).height, 2);
    assert_eq!(completer("gi", &["git", "ls", "gimp", "gitk"], 14).height, 1);
    assert_eq!(completer("gi", &["git", "ls", "gimp", "gitk"], 5).height, 3);
    assert_eq!(completer("zz", &["git"], 80).result, Some(strings(&[])));
    assert_eq!(completer("zz", &["git"], 80).height, 1);
}

#[test]
fn with_candidates_at_hand_nothing_is_completed() {
    let mut c = completer("gi", &["git", "gimp"], 80);
    c.complete("l", &strings(&["ls"]), 1);
    assert_eq!(c.result, Some(strings(&["git", "gimp"])));
    assert_eq!(c.height, 1);
}

#[test]
fn next_goes_round_the_candidates() {
    let mut c = completer("gi", &["git", "gimp", "gitk"], 80);
    assert_eq!(c.next(), Some(&"git".to_string()));
    assert_eq!(c.n, 1);
    assert_eq!(c.next(), Some(&"gimp".to_string()));
    assert_eq!(c.next(), Some(&"gitk".to_string()));
    assert_eq!(c.n, 3);
    assert_eq!(c.next(), Some(&"git".to_string()));
    assert_eq!(c.n, 1);
    assert_eq!(c.next(), Some(&"gimp".to_string()));
    let mut none = completer("zz", &["git"], 80);
    assert_eq!(none.next(), None);
    assert_eq!(none.n, 1);
}

#[test]
fn show_highlights_the_chosen_candidate() {
    let mut c = completer("gi", &["git", "gimp"], 80);
    assert_eq!(c.show(), "\x1b[1Egit gimp \x1b[1A");
    c.next();
    assert_eq!(c.show(), "\x1b[1E\x1B[7mgit\x1B[0m gimp \x1b[1A");
    c.next();
    assert_eq!(c.show(), "\x1b[1Egit \x1B[7mgimp\x1B[0m \x1b[1A");
    let c = completer("gi", &["git", "gimp"], 4);
    assert_eq!(c.show(), "\x1b[1Egit gimp \x1b[3A");
    assert_eq!(completer("zz", &[], 80).show(), "\x1b[1E\x1b[1A");
}

#[test]
fn clear_forgets_the_candidates_and_wipes_the_row() {
    let mut c = completer("gi", &["git", "gimp"], 80);
    c.next();
    assert_eq!(c.clear(), "\x1b[1E\x1b[0J\x1b[1A");
    assert!(c.is_empty());
    assert_eq!(c.n, 0);
    assert_eq!(c.height, 0);
    assert_eq!(c.clear(), "");
    c.complete("l", &strings(&["ls"]), 80);
    assert_eq!(c.result, Some(strings(&["ls"])));
}
