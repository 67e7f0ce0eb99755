use std::path::Path;

use shatter::fspath::FsPath;
use shatter::text::{decimal_string, eq_ignore_ascii_case, text_lt, trim};

fn comps(s: &str) -> Vec<String> {
    FsPath::parse(s).components().clone()
}

fn std_comps(s: &str) -> Vec<String> {
    Path::new(s).components().map(|c| c.as_os_str().to_string_lossy().into_owned()).collect()
}

#[test]
fn parsing_splits_like_the_standard_library() {
    for s in ["", "/", "a", "a/b", "/a/b/", "//a//b", "./a", "a/./b", "../a/..", ".", "/.", "a/.", "/tmp/r/gamma"] {
        assert_eq!(comps(s), std_comps(s), "{s:?}");
    }
}

#[test]
fn display_writes_components_back() {
    assert_eq!(FsPath::parse("/a//b/").display(), "/a//b/");
    assert_eq!(FsPath::parse("a/./b").display(), "a/./b");
    for s in ["/a//b/", "a/./b", "/x/", "./z"] {
        assert_eq!(FsPath::parse(s).display(), std::path::Path::new(s).display().to_string());
    }
    assert_eq!(FsPath::from_components(vec!["/".into(), "a".into(), "b".into()]).display(), "/a/b");
    assert_eq!(FsPath::parse("/").display(), "/");
    assert_eq!(FsPath::parse("").display(), "");
    for s in ["/tmp/x", "rel/y", "./z", "../w"] {
        assert_eq!(FsPath::parse(&FsPath::parse(s).display()).components(), FsPath::parse(s).components());
    }
}

#[test]
fn parents_names_and_joins() {
    let p = FsPath::parse("/a/b/c");
    assert_eq!(p.parent().unwrap().display(), "/a/b");
    assert!(FsPath::parse("/").parent().is_none());
    assert!(FsPath::parse("").parent().is_none());
    assert_eq!(FsPath::parse("a").parent().unwrap().display(), "");
    assert_eq!(p.file_name().as_deref(), Some("c"));
    assert_eq!(FsPath::parse("a/..").file_name(), None);
    assert_eq!(FsPath::parse("/a").join(&FsPath::parse("b/c")).display(), "/a/b/c");
    assert_eq!(FsPath::parse("/a").join(&FsPath::parse("/x")).display(), "/x");
    assert_eq!(FsPath::parse("/a").join(&FsPath::parse("./b")).display(), "/a/./b");
    assert_eq!(FsPath::parse("/x/").join(&FsPath::parse("y")).display(), "/x/y");
    assert_eq!(FsPath::parse("").join(&FsPath::parse("y")).display(), "y");
    assert_eq!(FsPath::parse("/x/").child("y").display(), "/x/y");
    for (a, b) in [("/a", "./b"), ("/x/", "y"), ("", "y"), ("a//", "b"), ("/a", "/x")] {
        let ours = FsPath::parse(a).join(&FsPath::parse(b)).display();
        assert_eq!(ours, std::path::Path::new(a).join(b).display().to_string(), "{a:?} {b:?}");
    }
    assert_eq!(FsPath::parse("/x/y/").parent().unwrap().display(), "/x");
    assert_eq!(FsPath::parse("/a").child("state.toml").display(), "/a/state.toml");
    assert!(p.starts_with(&FsPath::parse("/a")));
    assert!(!p.starts_with(&FsPath::parse("/a/bb")));
    assert!(p.is_absolute());
    assert!(!FsPath::parse("a").is_absolute());
}

#[test]
fn path_order_matches_the_standard_library() {
    let paths = ["/a", "/a/b", "/b", "a", "./a", "../a", "/a/B", "/ab", "/a/b/c", ""];
    for x in paths {
        for y in paths {
            assert_eq!(FsPath::parse(x).less_than(&FsPath::parse(y)), Path::new(x) < Path::new(y), "{x:?} < {y:?}");
        }
    }
}

#[test]
fn text_helpers() {
    assert_eq!(trim("\u{2003} hi \t\n"), "hi");
    assert_eq!(trim("   "), "");
    assert!(eq_ignore_ascii_case("LaTeSt", "latest"));
    assert!(!eq_ignore_ascii_case("lateSt", "latest!"));
    assert!(text_lt("B", "a"));
    assert!(text_lt("a", "ab"));
    assert!(!text_lt("b", "b"));
    assert_eq!(decimal_string(0), "0");
    assert_eq!(decimal_string(1234567890), "1234567890");
    assert_eq!(decimal_string(u64::MAX), u64::MAX.to_string());
}
