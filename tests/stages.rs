use rat_updater::{
    decimal_string, extract_plan, join_path, load_files_ref, move_to_old, move_to_unknown,
    recover_from_old, save_files_ref, Options,
};

fn strings(items: &[&str]) -> Vec<String> {
    items.iter().map(|s| s.to_string()).collect()
}

#[test]
fn update() {
    let options = Options::new("root");

    // First run: a stray file and no manifest.
    let manifest = load_files_ref(None).unwrap();
    assert!(manifest.is_empty());
    let backed = move_to_old(&options, &manifest, &strings(&["my-file.txt"]));
    assert!(backed.is_empty());
    let plan = move_to_unknown(&options, &strings(&["RatScanner.old", "my-file.txt"]), 1700000000123);
    assert_eq!(plan.names, strings(&["my-file.txt"]));
    assert_eq!(plan.batch, Some("1700000000123".to_string()));
    let extraction = extract_plan(&strings(&["RatScanner.exe"])).unwrap();
    assert_eq!(extraction.created, strings(&["RatScanner.exe"]));
    let saved = save_files_ref(extraction.created, &options);
    assert_eq!(saved.entries, strings(&["RatScanner.exe", "RatScanner.files.ref"]));

    // Second run with the same package.
    let manifest = load_files_ref(Some(saved.text.as_str())).unwrap();
    assert_eq!(manifest, saved.entries);
    let listing = strings(&[
        "RatScanner.exe",
        "RatScanner.files.ref",
        "RatScanner.old",
        "RatScanner.unknown",
    ]);
    let backed = move_to_old(&options, &manifest, &listing);
    assert_eq!(backed, strings(&["RatScanner.exe", "RatScanner.files.ref"]));
    let plan = move_to_unknown(&options, &strings(&["RatScanner.old", "RatScanner.unknown"]), 1700000000999);
    assert!(plan.names.is_empty());
    assert_eq!(plan.batch, None);
    let extraction = extract_plan(&strings(&["RatScanner.exe"])).unwrap();
    let again = save_files_ref(extraction.created, &options);
    assert_eq!(again.entries, saved.entries);
    assert_eq!(again.text, saved.text);
}

#[test]
fn recover() {
    let options = Options::new("root");
    let moves = recover_from_old(&options, &strings(&["old_a.txt", "existing.txt", "old_x"]));
    assert_eq!(moves.len(), 3);
    assert_eq!(moves[0].name, "old_a.txt");
    assert_eq!(moves[0].from, "root/RatScanner.old/old_a.txt");
    assert_eq!(moves[0].to, "root/old_a.txt");
    assert_eq!(moves[1].from, "root/RatScanner.old/existing.txt");
    assert_eq!(moves[1].to, "root/existing.txt");
    assert_eq!(moves[2].from, "root/RatScanner.old/old_x");
    assert_eq!(moves[2].to, "root/old_x");
}

#[test]
fn recovery_brings_back_nested_entries() {
    // The backup holds a.txt and sub/ (with sub/b.txt inside): both top-level
    // entries come back whole.
    let options = Options::new("root/");
    let moves = recover_from_old(&options, &strings(&["a.txt", "sub"]));
    assert_eq!(moves.len(), 2);
    assert_eq!(moves[0].from, "root/RatScanner.old/a.txt");
    assert_eq!(moves[0].to, "root/a.txt");
    assert_eq!(moves[1].from, "root/RatScanner.old/sub");
    assert_eq!(moves[1].to, "root/sub");
}

#[test]
fn recovery_of_empty_backup_moves_nothing() {
    let options = Options::new("root");
    assert!(recover_from_old(&options, &Vec::new()).is_empty());
}

#[test]
fn keep_list_is_never_moved() {
    let options = Options::new("root");
    let manifest = strings(&["config.cfg", "a.txt"]);
    let listing = strings(&["a.txt", "config.cfg", "b.txt"]);
    assert_eq!(move_to_old(&options, &manifest, &listing), strings(&["a.txt"]));
    let plan = move_to_unknown(&options, &listing, 5);
    assert_eq!(plan.names, strings(&["a.txt", "b.txt"]));
    let plan = move_to_unknown(&options, &strings(&["config.cfg"]), 5);
    assert!(plan.names.is_empty());
    assert_eq!(plan.batch, None);
}

#[test]
fn backup_moves_every_listed_entry_and_leaves_unknown_ones() {
    let options = Options::new("root");
    let manifest = strings(&["RatScanner.unknown", "app.exe", "gone.txt"]);
    let listing = strings(&["RatScanner.old", "RatScanner.unknown", "app.exe", "mine.txt"]);
    assert_eq!(
        move_to_old(&options, &manifest, &listing),
        strings(&["RatScanner.unknown", "app.exe"])
    );
}

#[test]
fn quarantine_skips_own_directories() {
    let options = Options::new("root");
    let listing = strings(&["RatScanner.unknown", "x", "RatScanner.old", "y"]);
    let plan = move_to_unknown(&options, &listing, 42);
    assert_eq!(plan.names, strings(&["x", "y"]));
    assert_eq!(plan.batch, Some("42".to_string()));
}

#[test]
fn decimal_string_writes_digits() {
    assert_eq!(decimal_string(0), "0");
    assert_eq!(decimal_string(9), "9");
    assert_eq!(decimal_string(10), "10");
    assert_eq!(decimal_string(1700000000123), "1700000000123");
    assert_eq!(decimal_string(u64::MAX), u64::MAX.to_string());
}

#[test]
fn join_path_adds_one_separator() {
    assert_eq!(join_path("root", "x"), "root/x");
    assert_eq!(join_path("root/", "x"), "root/x");
    assert_eq!(join_path("C:\\app\\", "x"), "C:\\app\\x");
    assert_eq!(join_path("", "x"), "x");
}

#[test]
fn options_paths() {
    let options = Options::new("base");
    assert_eq!(options.root_path, "base");
    assert_eq!(options.keep_files, strings(&["config.cfg"]));
    assert_eq!(options.old_folder_path(), "base/RatScanner.old");
    assert_eq!(options.unknown_folder_path(), "base/RatScanner.unknown");
    assert_eq!(options.files_ref_path(), "base/RatScanner.files.ref");
    assert_eq!(options.executable_path(), "base/RatScanner.exe");
}
