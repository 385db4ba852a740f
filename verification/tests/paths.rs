use expurgator::bytes::{bytes_equal, copy_bytes};
use expurgator::filter::consume;
use expurgator::path::{path_ends_with, path_starts_with, split_path};

fn parts(path: &str) -> Vec<String> {
    split_path(path.as_bytes())
        .into_iter()
        .map(|part| String::from_utf8(part).unwrap())
        .collect()
}

#[test]
fn paths_are_read_by_components() {
    assert_eq!(parts("a/b/c"), vec!["a", "b", "c"]);
    assert_eq!(parts("a//b/"), vec!["a", "b"]);
    assert_eq!(parts("a/./b"), vec!["a", "b"]);
    assert_eq!(parts("./a"), vec![".", "a"]);
    assert_eq!(parts("."), vec!["."]);
    assert_eq!(parts("/a"), vec!["/", "a"]);
    assert_eq!(parts("/"), vec!["/"]);
    assert_eq!(parts("//a/./"), vec!["/", "a"]);
    assert_eq!(parts("a/../b"), vec!["a", "..", "b"]);
    assert_eq!(parts(".a/b."), vec![".a", "b."]);
    assert_eq!(parts(""), Vec::<String>::new());
    assert_eq!(parts("é/ü"), vec!["é", "ü"]);
}

#[test]
fn components_agree_with_the_standard_library() {
    let samples = [
        "", "a", "a/b", "/a/b", "a//b", "a/./b", "./a", ".", "..", "a/..", "dir/", "/", "b.txt",
        "b/b.txt", "x/b/b.txt", "xb/b.txt", "3", "3/3", "33/4", "./", "/.", "a/b/c/d",
    ];
    for whole in samples {
        for part in samples {
            let path = std::path::Path::new(whole);
            assert_eq!(path_ends_with(whole, part), path.ends_with(part), "{whole:?} {part:?}");
            assert_eq!(path_starts_with(whole, part), path.starts_with(part), "{whole:?} {part:?}");
        }
    }
}

#[test]
fn suffix_rule_goes_by_whole_components() {
    assert!(path_ends_with("b/b.txt", "b.txt"));
    assert!(path_ends_with("b/b.txt", "b/b.txt"));
    assert!(path_ends_with("dir/", "dir"));
    assert!(!path_ends_with("b/ab.txt", "b.txt"));
    assert!(!path_ends_with("b.txt", "b/b.txt"));
    assert!(path_ends_with("anything", ""));
}

#[test]
fn prefix_rule_goes_by_whole_components() {
    assert!(path_starts_with("inner.zip/q", "inner.zip"));
    assert!(path_starts_with("inner.zip", "inner.zip"));
    assert!(!path_starts_with("inner.zipper/q", "inner.zip"));
    assert!(!path_starts_with("inner.zip", "inner.zip/q"));
}

#[test]
fn bytes_are_compared_one_by_one() {
    assert!(bytes_equal(b"abc", b"abc"));
    assert!(!bytes_equal(b"abc", b"abd"));
    assert!(!bytes_equal(b"abc", b"ab"));
    assert!(bytes_equal(b"", b""));
    assert_eq!(copy_bytes(b"abc"), b"abc");
    assert!(copy_bytes(b"").is_empty());
}

fn list(specifiers: &[&str]) -> Vec<String> {
    specifiers.iter().map(|s| String::from(*s)).collect()
}

#[test]
fn consume_takes_the_first_match_and_fills_its_place_with_the_last() {
    let mut filters = list(&["a", "n.txt", "dir/n.txt", "z"]);
    assert!(consume(&mut filters, "x/dir/n.txt"));
    assert_eq!(filters, list(&["a", "z", "dir/n.txt"]));
    assert!(consume(&mut filters, "x/dir/n.txt"));
    assert_eq!(filters, list(&["a", "z"]));
    assert!(!consume(&mut filters, "x/dir/n.txt"));
    assert_eq!(filters, list(&["a", "z"]));
}

#[test]
fn consume_leaves_the_list_when_nothing_matches() {
    let mut filters = list(&["inner.zip/q", "b/b.txt"]);
    assert!(!consume(&mut filters, "q"));
    assert!(!consume(&mut filters, "b.txt"));
    assert_eq!(filters, list(&["inner.zip/q", "b/b.txt"]));
    let mut empty: Vec<String> = Vec::new();
    assert!(!consume(&mut empty, "q"));
}

#[test]
fn specifier_is_spent_by_its_match() {
    let mut filters = list(&["n.txt"]);
    assert!(consume(&mut filters, "one/n.txt"));
    assert!(!consume(&mut filters, "two/n.txt"));
    assert!(filters.is_empty());
}
