use std::str::FromStr;

use blacc::error::ErrorKind;
use blacc::filter::{build_filters, Filters};
use blacc::walk::{collect_sources, judge, visit_entry, Entry, Verdict, Visited, Walk};
use regex::Regex;

fn dir(depth: usize, path: &str) -> Visited {
    Visited::Found(Entry { path: Some(path.to_string()), depth, is_dir: true, is_file: false })
}

fn file(depth: usize, path: &str) -> Visited {
    Visited::Found(Entry { path: Some(path.to_string()), depth, is_dir: false, is_file: true })
}

fn filters(exclusion: &str, inclusion: &str) -> Filters {
    build_filters(&Some(exclusion.to_string()), &Some(inclusion.to_string())).unwrap()
}

#[test]
fn test_walk_dir() {
    let filters = Filters {
        exclusion: Some(Regex::from_str(r"exclude").unwrap()),
        inclusion: Some(Regex::from_str(r"include\.file").unwrap()),
    };
    let items = vec![
        dir(0, "/tmp/root"),
        dir(1, "/tmp/root/exclude"),
        file(2, "/tmp/root/exclude/include.file"),
        file(1, "/tmp/root/include.file"),
        dir(1, "/tmp/root/some_dir"),
        file(2, "/tmp/root/some_dir/include.file"),
    ];
    let result = collect_sources(&filters, &items);
    assert_eq!(result.len(), 2);
    assert!(result.contains(&"/tmp/root/include.file".to_string()));
}

#[test]
fn what_lies_below_an_excluded_directory_is_hidden() {
    let filters = filters("b$", r"\.py$");
    let items = vec![
        dir(0, "a"),
        dir(1, "a/b"),
        file(2, "a/b/one.py"),
        dir(2, "a/b/c"),
        Visited::Failed,
        file(3, "a/b/c/two.py"),
        file(1, "a/three.py"),
        file(1, "a/four.txt"),
    ];
    assert_eq!(collect_sources(&filters, &items), vec!["a/three.py".to_string()]);
}

#[test]
fn skipping_directories_changes_nothing() {
    let filters = filters("b$", "");
    let items = vec![
        dir(0, "a"),
        dir(1, "a/b"),
        file(2, "a/b/one"),
        dir(2, "a/b/b"),
        file(3, "a/b/b/two"),
        dir(1, "a/c"),
        file(2, "a/c/three"),
    ];
    let mut walk = Walk::new(&filters);
    let skipped: Vec<bool> = items.iter().map(|item| walk.visit(item)).collect();
    assert_eq!(skipped, vec![false, true, false, false, false, false, false]);
    let whole = walk.finish();
    assert_eq!(whole, vec!["a/c/three".to_string()]);

    let kept = vec![dir(0, "a"), dir(1, "a/b"), dir(1, "a/c"), file(2, "a/c/three")];
    assert_eq!(collect_sources(&filters, &kept), whole);
}

#[test]
fn only_directories_hide_what_follows() {
    let filters = filters("root$", "");
    let link = Visited::Found(Entry {
        path: Some("root".to_string()),
        depth: 0,
        is_dir: false,
        is_file: false,
    });
    let items = vec![link, file(1, "root/a.py")];
    assert_eq!(collect_sources(&filters, &items), vec!["root/a.py".to_string()]);
}

#[test]
fn paths_that_are_not_unicode_are_turned_down() {
    let filters = filters("", "");
    let nameless_dir =
        Visited::Found(Entry { path: None, depth: 0, is_dir: true, is_file: false });
    let nameless_file =
        Visited::Found(Entry { path: None, depth: 0, is_dir: false, is_file: true });
    let items = vec![nameless_dir, file(1, "lost"), nameless_file, file(0, "kept")];
    assert_eq!(collect_sources(&filters, &items), vec!["kept".to_string()]);
}

#[test]
fn exclusion_comes_before_inclusion() {
    let filters = filters("secret", r"\.py$");
    let entry =
        Entry { path: Some("secret.py".to_string()), depth: 0, is_dir: false, is_file: true };
    assert_eq!(visit_entry(&filters, &entry), Verdict::Pass);
    assert_eq!(judge(&entry, true, true), Verdict::Pass);
    assert_eq!(judge(&entry, false, true), Verdict::Take);
    assert_eq!(judge(&entry, false, false), Verdict::Pass);
    let entry = Entry { is_dir: true, is_file: false, ..entry };
    assert_eq!(visit_entry(&filters, &entry), Verdict::SkipDir);
    assert_eq!(judge(&entry, false, true), Verdict::Pass);
}

#[test]
fn empty_patterns_restrict_nothing() {
    let filters = filters("", "");
    for path in ["", "a.py", "build/x", "anything at all"] {
        assert!(!filters.excludes(path));
        assert!(filters.includes(path));
    }
}

#[test]
fn whitespace_in_patterns_is_ignored() {
    let filters = filters("a  b\n c", "x # the letter");
    assert!(filters.excludes("abc"));
    assert!(!filters.excludes("a b c"));
    assert!(filters.includes("x"));
    assert!(!filters.includes("the letter"));
}

#[test]
fn default_patterns() {
    let filters =
        filters(blacc::config::DEFAULT_EXCLUDE, blacc::config::DEFAULT_INCLUDE);
    assert!(filters.excludes("./.git/config.py"));
    assert!(filters.excludes("pkg/build/a.py"));
    assert!(!filters.excludes("pkg/builds/a.py"));
    assert!(filters.includes("pkg/a.py"));
    assert!(filters.includes("pkg/a.pyi"));
    assert!(!filters.includes("pkg/a.pyc"));
}

#[test]
fn missing_and_invalid_patterns() {
    let good = Some("a".to_string());
    let bad = Some("(".to_string());
    let kind = |exclusion: &Option<String>, inclusion: &Option<String>| {
        let failure = build_filters(exclusion, inclusion).unwrap_err();
        (failure.kind, failure.cause.is_some())
    };
    assert_eq!(kind(&None, &None), (ErrorKind::NoExclude, false));
    assert_eq!(kind(&bad, &None), (ErrorKind::InvalidExclude, true));
    assert_eq!(kind(&good, &None), (ErrorKind::NoInclude, false));
    assert_eq!(kind(&good, &bad), (ErrorKind::InvalidInclude, true));
    assert_eq!(kind(&Some("".to_string()), &bad), (ErrorKind::InvalidInclude, true));
}
