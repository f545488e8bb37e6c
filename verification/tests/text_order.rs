use std::path::Path;

use editor_core::path::{parts_of, path_less, path_same, PathPart};
use editor_core::text::{byte_len, bytes_less, bytes_same, str_eq};

#[test]
fn byte_order_is_that_of_the_first_difference() {
    let less = |a: &str, b: &str| bytes_less(a.as_bytes(), b.as_bytes());
    assert!(less("a", "b"));
    assert!(less("a", "ab"));
    assert!(less("", "a"));
    assert!(!less("a", "a"));
    assert!(!less("b", "a"));
    assert!(!less("ab", "a"));
    assert!(less("Z", "a"));
    assert!(less("a-b", "a/b"));
    assert!(less("z", "é"));
    assert!(bytes_same(b"ab", b"ab"));
    assert!(!bytes_same(b"ab", b"abc"));
    assert!(!bytes_same(b"ab", b"ac"));
}

#[test]
fn string_equality() {
    assert!(str_eq("abc", "abc"));
    assert!(!str_eq("abc", "abd"));
    assert!(!str_eq("abc", "ab"));
    assert!(str_eq("", ""));
}

fn name(s: &str) -> PathPart {
    PathPart::Normal(s.as_bytes().to_vec())
}

fn same_parts(a: &[PathPart], b: &[PathPart]) -> bool {
    format!("{a:?}") == format!("{b:?}")
}

#[test]
fn a_path_is_read_part_by_part() {
    assert!(same_parts(&parts_of(""), &[]));
    assert!(same_parts(&parts_of("a"), &[name("a")]));
    assert!(same_parts(&parts_of("/"), &[PathPart::Root]));
    assert!(same_parts(&parts_of("/a/b.rs"), &[PathPart::Root, name("a"), name("b.rs")]));
    assert!(same_parts(&parts_of("a//b/"), &[name("a"), name("b")]));
    assert!(same_parts(&parts_of("./a/./b/."), &[PathPart::Current, name("a"), name("b")]));
    assert!(same_parts(&parts_of("/./a"), &[PathPart::Root, name("a")]));
    assert!(same_parts(&parts_of("../a/.."), &[PathPart::Parent, name("a"), PathPart::Parent]));
    assert!(same_parts(&parts_of("..."), &[name("...")]));
    assert!(same_parts(&parts_of(".a/b."), &[name(".a"), name("b.")]));
    assert!(same_parts(&parts_of("."), &[PathPart::Current]));
}

const PATHS: [&str; 24] = [
    "",
    "/",
    ".",
    "..",
    "a",
    "a/",
    "a/.",
    "./a",
    "../a",
    "/a",
    "//a",
    "/a/b",
    "a/b",
    "a//b",
    "a/./b",
    "a/../b",
    "a-b",
    "a-b/c",
    "a/c",
    "ab",
    "src/a.rs",
    "src-x/a.rs",
    "src/é.rs",
    "Src/a.rs",
];

#[test]
fn path_order_is_that_of_the_parts() {
    assert!(path_less("src/a.rs", "src-x/a.rs"));
    assert!(!path_less("src-x/a.rs", "src/a.rs"));
    assert!(path_less("a", "a/b"));
    assert!(path_less("/z", "a"));
    assert!(path_less("./z", "../a"));
    assert!(path_less("../z", "a"));
    assert!(!path_less("a/b", "a//b"));
    assert!(!path_less("a//b", "a/b"));
    for a in PATHS {
        for b in PATHS {
            assert_eq!(path_less(a, b), Path::new(a) < Path::new(b), "{a:?} before {b:?}");
        }
    }
}

#[test]
fn paths_with_the_same_parts_are_the_same() {
    assert!(path_same("a/b", "a//b"));
    assert!(path_same("a/b", "a/./b/"));
    assert!(!path_same("a/b", "./a/b"));
    assert!(!path_same("a/b", "/a/b"));
    assert!(!path_same("a/b", "a/c"));
    for a in PATHS {
        for b in PATHS {
            assert_eq!(path_same(a, b), Path::new(a) == Path::new(b), "{a:?} and {b:?}");
        }
    }
}

#[test]
fn path_order_is_strict_and_total() {
    for a in PATHS {
        for b in PATHS {
            let before = path_less(a, b);
            let behind = path_less(b, a);
            let same = path_same(a, b);
            assert!(!(before && behind), "{a:?} {b:?}");
            assert_eq!(same, !before && !behind, "{a:?} {b:?}");
            for c in PATHS {
                if before && path_less(b, c) {
                    assert!(path_less(a, c), "{a:?} {b:?} {c:?}");
                }
            }
        }
    }
}

#[test]
fn length_in_bytes() {
    assert_eq!(byte_len(""), 0);
    assert_eq!(byte_len("abc"), 3);
    assert_eq!(byte_len("é€😀"), 9);
}
