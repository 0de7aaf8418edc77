use rat_updater::{entry_target, extract_plan, ErrorKind};

fn strings(items: &[&str]) -> Vec<String> {
    items.iter().map(|s| s.to_string()).collect()
}

fn rejected(name: &str) -> bool {
    match entry_target(name) {
        Err(e) => e.error == ErrorKind::UnsafeArchiveEntry && e.should_try_recover,
        Ok(_) => false,
    }
}

#[test]
fn parent_escape_is_rejected() {
    assert!(rejected("../escape.txt"));
    assert!(rejected("..\\escape.txt"));
    assert!(rejected("a/../../escape.txt"));
    assert!(rejected(".."));
}

#[test]
fn absolute_paths_are_rejected() {
    assert!(rejected("/etc/passwd"));
    assert!(rejected("\\windows\\x"));
    assert!(rejected("C:/x.txt"));
    assert!(rejected("a/b\0c"));
}

#[test]
fn names_of_the_root_itself_are_empty_directories() {
    for name in ["", "./", "a/..", "."] {
        let t = entry_target(name).unwrap();
        assert!(t.components.is_empty());
        assert!(t.is_dir);
    }
    let plan = extract_plan(&strings(&["./", "RatScanner.exe"])).unwrap();
    assert_eq!(plan.created, strings(&["RatScanner.exe"]));
    assert_eq!(plan.targets.len(), 2);
}

#[test]
fn entry_components_are_resolved() {
    let t = entry_target("a/./b/../c.txt").unwrap();
    assert_eq!(t.components, strings(&["a", "c.txt"]));
    assert!(!t.is_dir);
    let t = entry_target("dir/").unwrap();
    assert_eq!(t.components, strings(&["dir"]));
    assert!(t.is_dir);
    let t = entry_target("foo\\bar//baz.txt").unwrap();
    assert_eq!(t.components, strings(&["foo", "bar", "baz.txt"]));
}

#[test]
fn created_set_holds_top_level_names_once() {
    let plan = extract_plan(&strings(&["foo/", "foo/bar/baz.txt", "RatScanner.exe", "foo/x"])).unwrap();
    assert_eq!(plan.created, strings(&["foo", "RatScanner.exe"]));
    assert_eq!(plan.targets.len(), 4);
    assert_eq!(plan.targets[1].components, strings(&["foo", "bar", "baz.txt"]));
    assert!(plan.targets[0].is_dir);
}

#[test]
fn one_unsafe_entry_rejects_the_archive() {
    let r = extract_plan(&strings(&["ok.txt", "../escape.txt", "more.txt"]));
    match r {
        Err(e) => {
            assert_eq!(e.error, ErrorKind::UnsafeArchiveEntry);
            assert!(e.should_try_recover);
        }
        Ok(_) => panic!("unsafe entry accepted"),
    }
}

#[test]
fn empty_archive_creates_nothing() {
    let plan = extract_plan(&Vec::new()).unwrap();
    assert!(plan.created.is_empty());
    assert!(plan.targets.is_empty());
}
