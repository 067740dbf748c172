use mamba::paths::{ancestors, join, name_or, parent_of};
use std::path::Path;

const PATHS: [&str; 24] = [
    "", "/", "//", ".", "..", "/.", "/..", "a", "a/", "a/.", "./a", "a/b", "/a", "/a/b/c", "/a//b",
    "/a/./b", "/a/b/./", "/a/b//.//", "a/..", "../a", "a/../b", "./.", "/home/dev/my proj", "...",
];

#[test]
fn joining_agrees_with_std() {
    for base in PATHS {
        for rel in PATHS {
            let expected = Path::new(base).join(rel);
            assert_eq!(join(base, rel), expected.to_str().unwrap(), "{base:?} + {rel:?}");
        }
    }
}

#[test]
fn names_agree_with_std() {
    for path in PATHS {
        let expected = Path::new(path).file_name().map_or("none", |n| n.to_str().unwrap());
        assert_eq!(name_or(path, "none"), expected, "of {path:?}");
    }
}

#[test]
fn going_up_agrees_with_std() {
    for path in PATHS {
        let expected = Path::new(path).parent().map(|p| p.to_str().unwrap().to_string());
        assert_eq!(parent_of(path), expected, "of {path:?}");

        let all: Vec<String> = Path::new(path)
            .ancestors()
            .map(|p| p.to_str().unwrap().to_string())
            .collect();
        assert_eq!(ancestors(path), all, "of {path:?}");
    }
}
