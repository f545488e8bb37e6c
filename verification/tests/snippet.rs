use editor_core::snippet::Snippet;

#[test]
fn placeholders_with_defaults() {
    let s = Snippet::from_str("foo(${1:a}, ${2:b})");
    assert_eq!(s.text(), "foo(a, b)");
    assert_eq!(s.tabs(0), vec![(1, (4, 5)), (2, (7, 8))]);
    assert_eq!(s.tabs(10), vec![(1, (14, 15)), (2, (17, 18))]);
}

#[test]
fn plain_tab_stops() {
    let s = Snippet::from_str("if $1 { $2 }$0");
    assert_eq!(s.text(), "if  {  }");
    // The stop 0 is the last one.
    assert_eq!(s.tabs(0), vec![(1, (3, 3)), (2, (6, 6)), (0, (8, 8))]);
    let s = Snippet::from_str("${2}x${1}");
    assert_eq!(s.text(), "x");
    assert_eq!(s.tabs(5), vec![(1, (6, 6)), (2, (5, 5))]);
}

#[test]
fn zero_goes_last_wherever_it_stands() {
    let s = Snippet::from_str("$0a${2:b}${1:c}");
    assert_eq!(s.text(), "abc");
    assert_eq!(s.tabs(0), vec![(1, (2, 3)), (2, (1, 2)), (0, (0, 0))]);
}

#[test]
fn nested_placeholders() {
    let s = Snippet::from_str("${1:a${2:bc}d}e");
    assert_eq!(s.text(), "abcde");
    assert_eq!(s.tabs(0), vec![(1, (0, 4)), (2, (1, 3))]);
}

#[test]
fn text_without_markers() {
    let s = Snippet::from_str("plain text }");
    assert_eq!(s.text(), "plain text }");
    assert!(s.tabs(0).is_empty());
    let s = Snippet::from_str("");
    assert_eq!(s.text(), "");
    assert!(s.tabs(3).is_empty());
}

#[test]
fn escapes() {
    let s = Snippet::from_str("cost: \\$5 ${1:a\\}b}");
    assert_eq!(s.text(), "cost: $5 a}b");
    assert_eq!(s.tabs(0), vec![(1, (9, 12))]);
    // A backslash in front of any other sign stays.
    let s = Snippet::from_str("a\\nb");
    assert_eq!(s.text(), "a\\nb");
    // At the top a closing brace needs no backslash, and keeps one.
    let s = Snippet::from_str("a\\}b");
    assert_eq!(s.text(), "a\\}b");
}

#[test]
fn reading_ends_at_an_unknown_marker() {
    let s = Snippet::from_str("a $x b");
    assert_eq!(s.text(), "a ");
    let s = Snippet::from_str("a ${1|x,y|} b");
    assert_eq!(s.text(), "a ");
    assert!(s.tabs(0).is_empty());
    let s = Snippet::from_str("ab\\");
    assert_eq!(s.text(), "ab");
}

#[test]
fn open_placeholders_end_with_the_text() {
    let s = Snippet::from_str("f(${1:x, ${2:y");
    assert_eq!(s.text(), "f(x, y");
    assert_eq!(s.tabs(0), vec![(1, (2, 6)), (2, (5, 6))]);
}

#[test]
fn offsets_count_bytes() {
    let s = Snippet::from_str("é${1:ü}€$0");
    assert_eq!(s.text(), "éü€");
    assert_eq!(s.tabs(0), vec![(1, (2, 4)), (0, (7, 7))]);
}

#[test]
fn numbers_of_several_digits() {
    let s = Snippet::from_str("${12:a}$3");
    assert_eq!(s.text(), "a");
    assert_eq!(s.tabs(0), vec![(3, (1, 1)), (12, (0, 1))]);
}

#[test]
fn tab_stops_lie_in_the_text() {
    let sources = [
        "é${1:ü}x$0",
        "${1:a${2:b${3:c",
        "$1$2$3",
        "f(${1:a}, ${2:b})\\$${3}",
        "${1:€}}${2}",
        "",
    ];
    for source in sources {
        let s = Snippet::from_str(source);
        let len = s.text().len();
        for (_, (start, end)) in s.tabs(0) {
            assert!(start <= end && end <= len, "{source:?}");
        }
        for (_, (start, end)) in s.tabs(7) {
            assert!(7 <= start && start <= end && end <= 7 + len, "{source:?}");
        }
    }
    let s = Snippet::from_str("é${1:ü}x$0");
    assert_eq!(s.text(), "éüx");
    assert_eq!(s.tabs(0), vec![(1, (2, 4)), (0, (5, 5))]);
}
