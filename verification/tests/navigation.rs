use editor_core::nav::{
    first_greater_offset, first_later_position, next_in_file_diff_offset,
    next_in_file_errors_offset, sort_by_name, Position,
};

fn files() -> Vec<(String, Vec<usize>)> {
    vec![("a.rs".to_string(), vec![10, 50]), ("b.rs".to_string(), vec![5])]
}

#[test]
fn next_diff_stays_in_file() {
    assert_eq!(next_in_file_diff_offset(10, "a.rs", &files()), ("a.rs".to_string(), 50));
}

#[test]
fn next_diff_goes_to_next_file() {
    assert_eq!(next_in_file_diff_offset(50, "a.rs", &files()), ("b.rs".to_string(), 5));
}

#[test]
fn next_diff_wraps_to_first_file() {
    assert_eq!(next_in_file_diff_offset(5, "b.rs", &files()), ("a.rs".to_string(), 10));
}

#[test]
fn next_diff_before_first_offset() {
    assert_eq!(next_in_file_diff_offset(0, "a.rs", &files()), ("a.rs".to_string(), 10));
    assert_eq!(next_in_file_diff_offset(0, "b.rs", &files()), ("b.rs".to_string(), 5));
}

#[test]
fn next_diff_from_unlisted_file() {
    // A file that is not listed goes to the first file ordered after it.
    assert_eq!(next_in_file_diff_offset(100, "aa.rs", &files()), ("b.rs".to_string(), 5));
    // Behind every listed file the step goes round to the first.
    assert_eq!(next_in_file_diff_offset(100, "z.rs", &files()), ("a.rs".to_string(), 10));
    // In front of every listed file it goes to the first.
    assert_eq!(next_in_file_diff_offset(100, "Z.rs", &files()), ("a.rs".to_string(), 10));
}

#[test]
fn next_diff_single_file_wraps_to_itself() {
    let one = vec![("only.rs".to_string(), vec![3, 9])];
    assert_eq!(next_in_file_diff_offset(9, "only.rs", &one), ("only.rs".to_string(), 3));
    assert_eq!(next_in_file_diff_offset(3, "only.rs", &one), ("only.rs".to_string(), 9));
}

fn pos(line: u32, character: u32) -> Position {
    Position { line, character }
}

#[test]
fn next_error_compares_line_then_character() {
    let files = vec![
        ("a.rs".to_string(), vec![pos(1, 4), pos(1, 9), pos(3, 0)]),
        ("b.rs".to_string(), vec![pos(0, 0)]),
    ];
    assert_eq!(next_in_file_errors_offset(pos(1, 4), "a.rs", &files), ("a.rs".to_string(), pos(1, 9)));
    assert_eq!(next_in_file_errors_offset(pos(1, 9), "a.rs", &files), ("a.rs".to_string(), pos(3, 0)));
    assert_eq!(next_in_file_errors_offset(pos(2, 50), "a.rs", &files), ("a.rs".to_string(), pos(3, 0)));
    assert_eq!(next_in_file_errors_offset(pos(3, 0), "a.rs", &files), ("b.rs".to_string(), pos(0, 0)));
    assert_eq!(next_in_file_errors_offset(pos(0, 0), "b.rs", &files), ("a.rs".to_string(), pos(1, 4)));
}

#[test]
fn position_order() {
    assert!(pos(2, 0).is_after(&pos(1, 99)));
    assert!(pos(1, 5).is_after(&pos(1, 4)));
    assert!(!pos(1, 4).is_after(&pos(1, 4)));
    assert!(!pos(0, 9).is_after(&pos(1, 0)));
}

#[test]
fn first_greater() {
    assert_eq!(first_greater_offset(&vec![1, 5, 9], 5), Some(2));
    assert_eq!(first_greater_offset(&vec![1, 5, 9], 0), Some(0));
    assert_eq!(first_greater_offset(&vec![1, 5, 9], 9), None);
    assert_eq!(first_greater_offset(&vec![], 0), None);
    assert_eq!(first_later_position(&vec![pos(0, 1), pos(2, 2)], pos(0, 1)), Some(1));
    assert_eq!(first_later_position(&vec![pos(0, 1)], pos(0, 1)), None);
}

#[test]
fn sort_by_name_is_stable() {
    let sorted = sort_by_name(vec![
        ("b".to_string(), 1),
        ("a".to_string(), 2),
        ("b".to_string(), 3),
        ("B".to_string(), 4),
        ("ab".to_string(), 5),
    ]);
    assert_eq!(
        sorted,
        vec![
            ("B".to_string(), 4),
            ("a".to_string(), 2),
            ("ab".to_string(), 5),
            ("b".to_string(), 1),
            ("b".to_string(), 3),
        ]
    );
}

#[test]
fn next_file_is_the_next_by_the_parts_of_its_path() {
    // Letter by letter `src-x/a.rs` would come first; part by part `src` does.
    let files = vec![
        ("src/a.rs".to_string(), vec![1usize]),
        ("src-x/a.rs".to_string(), vec![2]),
    ];
    assert_eq!(next_in_file_diff_offset(1, "src/a.rs", &files), ("src-x/a.rs".to_string(), 2));
    assert_eq!(next_in_file_diff_offset(2, "src-x/a.rs", &files), ("src/a.rs".to_string(), 1));
    let errors = vec![
        ("src/a.rs".to_string(), vec![pos(1, 0)]),
        ("src-x/a.rs".to_string(), vec![pos(2, 0)]),
    ];
    assert_eq!(
        next_in_file_errors_offset(pos(1, 0), "src/a.rs", &errors),
        ("src-x/a.rs".to_string(), pos(2, 0))
    );
}

#[test]
fn two_spellings_of_a_path_are_one_file() {
    let files = vec![("src/a.rs".to_string(), vec![10usize, 50]), ("src/b.rs".to_string(), vec![5])];
    assert_eq!(next_in_file_diff_offset(10, "src//a.rs", &files), ("src/a.rs".to_string(), 50));
    assert_eq!(next_in_file_diff_offset(10, "src/./a.rs", &files), ("src/a.rs".to_string(), 50));
    assert_eq!(next_in_file_diff_offset(50, "src/a.rs/", &files), ("src/b.rs".to_string(), 5));
}

#[test]
fn sort_by_name_goes_by_the_parts_of_the_paths() {
    let sorted = sort_by_name(vec![
        ("src-x/a.rs".to_string(), 1),
        ("src/b.rs".to_string(), 2),
        ("src/a.rs".to_string(), 3),
        ("/src/a.rs".to_string(), 4),
        ("src".to_string(), 5),
        ("../src".to_string(), 6),
        ("./src".to_string(), 7),
    ]);
    assert_eq!(
        sorted,
        vec![
            ("/src/a.rs".to_string(), 4),
            ("./src".to_string(), 7),
            ("../src".to_string(), 6),
            ("src".to_string(), 5),
            ("src/a.rs".to_string(), 3),
            ("src/b.rs".to_string(), 2),
            ("src-x/a.rs".to_string(), 1),
        ]
    );
}
