use mican::text::{chars_of, is_space, same_texts, string_of};

#[test]
fn whitespace_is_what_the_standard_library_says() {
    let mut n: u32 = 0;
    while n <= 0x10FFFF {
        if let Some(c) = char::from_u32(n) {
            assert_eq!(is_space(c), c.is_whitespace(), "U+{:04X}", n);
        }
        n += 1;
    }
}

#[test]
fn characters_and_back() {
    let s = "añ→ b";
    let v = chars_of(s);
    assert_eq!(v, vec!['a', 'ñ', '→', ' ', 'b']);
    assert_eq!(string_of(&v), s);
    assert_eq!(chars_of(""), vec![]);
}

#[test]
fn lists_of_texts_compare_item_by_item() {
    let a = vec!["x".to_string(), "y".to_string()];
    let b = vec!["x".to_string(), "y".to_string()];
    let c = vec!["x".to_string(), "z".to_string()];
    let d = vec!["x".to_string()];
    assert!(same_texts(&a, &b));
    assert!(!same_texts(&a, &c));
    assert!(!same_texts(&a, &d));
    assert!(same_texts(&vec![], &vec![]));
}
