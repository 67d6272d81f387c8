use mican::readline::buffer::{Buffer, CursorPosition};

#[test]
fn buffer_starts_empty() {
    let b = Buffer::new();
    assert_eq!(b.len(), 0);
    assert_eq!(b.as_str(), "");
    assert_eq!(b.get_words(), vec![]);
}

#[test]
fn buffer_insert_and_remove() {
    let mut b = Buffer::from_str("mican");
    b.insert_str(2, "XY");
    assert_eq!(b.as_str(), "miXYcan");
    assert_eq!(b.len(), 7);
    let removed = b.remove(1, 4);
    assert_eq!(removed, vec!['i', 'X', 'Y']);
    assert_eq!(b.as_str(), "mcan");
    b.insert_str(4, "!");
    assert_eq!(b.as_str(), "mcan!");
    b.insert_str(0, "");
    assert_eq!(b.as_str(), "mcan!");
    assert_eq!(b.remove(2, 2), vec![]);
    assert_eq!(b.as_str(), "mcan!");
}

#[test]
fn buffer_counts_characters_not_bytes() {
    let mut b = Buffer::from_str("añb");
    assert_eq!(b.len(), 3);
    b.insert_str(2, "é");
    assert_eq!(b.as_str(), "añéb");
    assert_eq!(b.substring(1, 3), "ñé");
    assert_eq!(b.get(1), 'ñ');
}

#[test]
fn words_are_split_on_spaces() {
    let b = Buffer::from_str("ls -al  foo");
    assert_eq!(b.get_words(), vec![(0, 2), (3, 6), (8, 11)]);
    let b = Buffer::from_str("  ls ");
    assert_eq!(b.get_words(), vec![(2, 4)]);
    let b = Buffer::from_str("   ");
    assert_eq!(b.get_words(), vec![]);
}

#[test]
fn a_backslash_keeps_a_space_inside_the_word() {
    let b = Buffer::from_str("a\\ b c");
    assert_eq!(b.get_words(), vec![(0, 4), (5, 6)]);
    assert_eq!(b.as_str(), "a\\ b c");
}

#[test]
fn a_backslash_alone_begins_no_word() {
    let b = Buffer::from_str("\\a");
    assert_eq!(b.get_words(), vec![(1, 2)]);
    let b = Buffer::from_str("\\ a");
    assert_eq!(b.get_words(), vec![(2, 3)]);
    let b = Buffer::from_str("\\\\");
    assert_eq!(b.get_words(), vec![]);
}

#[test]
fn cursor_position_among_words() {
    let words = vec![(2, 4), (6, 9)];
    assert_eq!(CursorPosition::get(0, &words), CursorPosition::InSpace(None, Some(0)));
    assert_eq!(CursorPosition::get(2, &words), CursorPosition::OnWordLeftEdge(0));
    assert_eq!(CursorPosition::get(3, &words), CursorPosition::InWord(0));
    assert_eq!(CursorPosition::get(4, &words), CursorPosition::OnWordRightEdge(0));
    assert_eq!(CursorPosition::get(5, &words), CursorPosition::InSpace(Some(0), Some(1)));
    assert_eq!(CursorPosition::get(6, &words), CursorPosition::OnWordLeftEdge(1));
    assert_eq!(CursorPosition::get(9, &words), CursorPosition::OnWordRightEdge(1));
    assert_eq!(CursorPosition::get(12, &words), CursorPosition::InSpace(Some(1), None));
}

#[test]
fn cursor_position_without_words() {
    assert_eq!(CursorPosition::get(0, &[]), CursorPosition::InSpace(None, None));
    assert_eq!(CursorPosition::get(7, &[]), CursorPosition::InSpace(None, None));
}

#[test]
fn words_and_position_together() {
    let b = Buffer::from_str("git sta");
    let (words, pos) = b.get_words_and_pos(7);
    assert_eq!(words, vec![(0, 3), (4, 7)]);
    assert_eq!(pos, CursorPosition::OnWordRightEdge(1));
    let (_, pos) = b.get_words_and_pos(3);
    assert_eq!(pos, CursorPosition::OnWordRightEdge(0));
    let (_, pos) = b.get_words_and_pos(4);
    assert_eq!(pos, CursorPosition::OnWordLeftEdge(1));
}
