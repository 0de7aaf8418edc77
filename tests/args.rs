use rat_updater::{get_args, ArgsError};

fn strings(items: &[&str]) -> Vec<String> {
    items.iter().map(|s| s.to_string()).collect()
}

#[test]
fn flags_are_read() {
    let a = get_args(&strings(&["--root-path", "dir", "--update"])).unwrap();
    assert_eq!(a.root_path, Some("dir".to_string()));
    assert!(a.update);
    assert!(!a.start);
    let a = get_args(&strings(&["--start", "--root-path", "a", "--root-path", "b"])).unwrap();
    assert_eq!(a.root_path, Some("b".to_string()));
    assert!(a.start);
    assert!(!a.update);
}

#[test]
fn no_flags() {
    let a = get_args(&Vec::new()).unwrap();
    assert_eq!(a.root_path, None);
    assert!(!a.update);
    assert!(!a.start);
}

#[test]
fn missing_value_is_refused() {
    match get_args(&strings(&["--update", "--root-path"])) {
        Err(ArgsError::MissingValue(a)) => assert_eq!(a, "--root-path"),
        other => panic!("unexpected {:?}", other),
    }
}

#[test]
fn unknown_flag_is_refused() {
    match get_args(&strings(&["--update", "--bogus", "--start"])) {
        Err(ArgsError::Unrecognized(a)) => assert_eq!(a, "--bogus"),
        other => panic!("unexpected {:?}", other),
    }
}

#[test]
fn resource_urls_in_order() {
    let urls = rat_updater::resource_urls("RSDownload");
    assert_eq!(
        urls,
        strings(&[
            "https://api.ratscanner.com/v4/resRSDownload",
            "https://api.ratscanner.com/v3/resRSDownload",
            "https://api.ratscanner.com/v2/res/RSDownload",
        ])
    );
}
