use rat_updater::{load_files_ref, save_files_ref, ErrorKind, Options};

fn strings(items: &[&str]) -> Vec<String> {
    items.iter().map(|s| s.to_string()).collect()
}

#[test]
fn missing_manifest_knows_nothing() {
    assert!(load_files_ref(None).unwrap().is_empty());
}

#[test]
fn corrupt_manifest_is_fatal() {
    for text in ["not json", "{\"a\": 1}", "[1, 2]", ""] {
        let e = load_files_ref(Some(text)).unwrap_err();
        assert_eq!(e.error, ErrorKind::ManifestCorrupt);
        assert!(!e.should_try_recover);
    }
}

#[test]
fn manifest_is_read() {
    let v = load_files_ref(Some("[\"RatScanner.exe\",\"lib\"]")).unwrap();
    assert_eq!(v, strings(&["RatScanner.exe", "lib"]));
}

#[test]
fn saved_manifest_names_itself_once() {
    let options = Options::new("root");
    let saved = save_files_ref(strings(&["a", "b"]), &options);
    assert_eq!(saved.entries, strings(&["a", "b", "RatScanner.files.ref"]));
    assert_eq!(saved.text, "[\"a\",\"b\",\"RatScanner.files.ref\"]");
    let saved = save_files_ref(strings(&["RatScanner.files.ref", "a"]), &options);
    assert_eq!(saved.entries, strings(&["RatScanner.files.ref", "a"]));
}

#[test]
fn saved_manifest_reads_back() {
    let options = Options::new("root");
    let saved = save_files_ref(strings(&["x \"quoted\"", "dir"]), &options);
    let back = load_files_ref(Some(saved.text.as_str())).unwrap();
    assert_eq!(back, saved.entries);
}

#[test]
fn saving_twice_stores_the_same_list() {
    let options = Options::new("root");
    let first = save_files_ref(strings(&["RatScanner.exe"]), &options);
    assert_eq!(first.entries, strings(&["RatScanner.exe", "RatScanner.files.ref"]));
    let second = save_files_ref(first.entries.clone(), &options);
    assert_eq!(second.entries, first.entries);
    assert_eq!(second.text, first.text);
}
