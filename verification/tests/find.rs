use editor_core::find::Find;

fn find(pattern: &str, whole_words: bool) -> Find {
    let mut f = Find::new();
    f.set_find(&pattern.as_bytes().to_vec(), true, whole_words);
    f
}

#[test]
fn forward_and_backward() {
    let text = b"foo bar foo baz foo".to_vec();
    let f = find("foo", false);
    assert_eq!(f.next(&text, 0, false, false), Some((8, 11)));
    assert_eq!(f.next(&text, 8, false, false), Some((16, 19)));
    assert_eq!(f.next(&text, 16, false, false), None);
    assert_eq!(f.next(&text, 16, false, true), Some((0, 3)));
    assert_eq!(f.next(&text, 16, true, false), Some((8, 11)));
    assert_eq!(f.next(&text, 8, true, false), Some((0, 3)));
    assert_eq!(f.next(&text, 0, true, false), None);
    assert_eq!(f.next(&text, 0, true, true), Some((16, 19)));
    assert_eq!(f.next(&text, 500, true, false), Some((16, 19)));
    assert_eq!(f.next(&text, 500, false, false), None);
}

#[test]
fn whole_words_only() {
    let text = b"foobar foo_x foo.".to_vec();
    assert_eq!(find("foo", false).next(&text, 0, false, true), Some((7, 10)));
    assert_eq!(find("foo", true).next(&text, 0, false, true), Some((13, 16)));
    assert!(find("foo", true).matches_at(&text, 13));
    assert!(!find("foo", true).matches_at(&text, 0));
    assert!(find("foo", false).matches_at(&text, 0));
}

#[test]
fn nothing_is_found_of_nothing() {
    let text = b"abc".to_vec();
    assert_eq!(find("", false).next(&text, 0, false, true), None);
    assert_eq!(find("abcd", false).next(&text, 0, false, true), None);
    assert_eq!(find("x", false).next(&text, 0, true, true), None);
    assert_eq!(find("a", false).next(&Vec::new(), 0, false, true), None);
}

#[test]
fn ranges_of_a_search() {
    let text = b"aXbXc".to_vec();
    let f = find("X", false);
    assert_eq!(f.find_forward(&text, 0, 5), Some(1));
    assert_eq!(f.find_forward(&text, 2, 5), Some(3));
    assert_eq!(f.find_forward(&text, 2, 3), None);
    assert_eq!(f.find_backward(&text, 0, 5), Some(3));
    assert_eq!(f.find_backward(&text, 0, 3), Some(1));
    assert_eq!(f.find_backward(&text, 2, 3), None);
}
