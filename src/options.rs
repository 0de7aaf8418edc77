use vstd::prelude::*;

verus! {

/// Name of the backup directory inside the install root.
pub const OLD_FOLDER_NAME: &'static str = "RatScanner.old";

/// Name of the quarantine directory inside the install root.
pub const UNKNOWN_FOLDER_NAME: &'static str = "RatScanner.unknown";

/// Name of the manifest file inside the install root.
pub const FILES_REF_FILE_NAME: &'static str = "RatScanner.files.ref";

/// Name of the user configuration file, which no stage ever moves.
pub const CONFIG_FILE_NAME: &'static str = "config.cfg";

/// Name of the installed executable.
pub const EXECUTABLE_NAME: &'static str = "RatScanner.exe";

pub open spec fn is_separator(c: char) -> bool {
    c == '/' || c == '\\'
}

/// `name` placed inside the directory `base`.
pub open spec fn joined(base: Seq<char>, name: Seq<char>) -> Seq<char> {
    if base.len() == 0 {
        name
    } else if is_separator(base.last()) {
        base + name
    } else {
        base + seq!['/'] + name
    }
}

/// The views of a list of strings.
pub open spec fn views(v: Seq<String>) -> Seq<Seq<char>> {
    v.map_values(|s: String| s@)
}

pub fn join_path(base: &str, name: &str) -> (r: String)
    ensures
        r@ == joined(base@, name@),
{
    let n = base.unicode_len();
    let mut r = String::from_str(base);
    if n == 0 {
        return String::from_str(name);
    }
    let last = base.get_char(n - 1);
    if last != '/' && last != '\\' {
        r.append("/");
        proof {
            reveal_strlit("/");
        }
    }
    r.append(name);
    proof {
        assert(base@.last() == last);
    }
    r
}

/// Where the updater works: the install root and the fixed names inside it.
/// `keep_files` are names of top-level entries that are never moved.
pub struct Options {
    pub root_path: String,
    pub keep_files: Vec<String>,
    pub old_folder_name: String,
    pub unknown_folder_name: String,
    pub files_ref_name: String,
}

impl Options {
    pub open spec fn keep_view(&self) -> Seq<Seq<char>> {
        views(self.keep_files@)
    }

    /// The backup directory, the quarantine directory and the manifest file
    /// have three different names.
    pub open spec fn wf(&self) -> bool {
        &&& self.old_folder_name@ != self.unknown_folder_name@
        &&& self.files_ref_name@ != self.old_folder_name@
        &&& self.files_ref_name@ != self.unknown_folder_name@
    }

    pub fn new(root_path: &str) -> (r: Self)
        ensures
            r.root_path@ == root_path@,
            r.keep_view() == seq![CONFIG_FILE_NAME@],
            r.old_folder_name@ == OLD_FOLDER_NAME@,
            r.unknown_folder_name@ == UNKNOWN_FOLDER_NAME@,
            r.files_ref_name@ == FILES_REF_FILE_NAME@,
            r.wf(),
    {
        let mut keep_files: Vec<String> = Vec::new();
        keep_files.push(String::from_str(CONFIG_FILE_NAME));
        let r = Options {
            root_path: String::from_str(root_path),
            keep_files,
            old_folder_name: String::from_str(OLD_FOLDER_NAME),
            unknown_folder_name: String::from_str(UNKNOWN_FOLDER_NAME),
            files_ref_name: String::from_str(FILES_REF_FILE_NAME),
        };
        proof {
            reveal_strlit("RatScanner.old");
            reveal_strlit("RatScanner.unknown");
            reveal_strlit("RatScanner.files.ref");
            assert(r.old_folder_name@[11] != r.unknown_folder_name@[11]);
            assert(r.files_ref_name@[11] != r.unknown_folder_name@[11]);
            assert(r.files_ref_name@[11] != r.old_folder_name@[11]);
            assert(r.keep_view() =~= seq![CONFIG_FILE_NAME@]);
        }
        r
    }

    pub fn old_folder_path(&self) -> (r: String)
        ensures
            r@ == joined(self.root_path@, self.old_folder_name@),
    {
        join_path(self.root_path.as_str(), self.old_folder_name.as_str())
    }

    pub fn unknown_folder_path(&self) -> (r: String)
        ensures
            r@ == joined(self.root_path@, self.unknown_folder_name@),
    {
        join_path(self.root_path.as_str(), self.unknown_folder_name.as_str())
    }

    pub fn files_ref_path(&self) -> (r: String)
        ensures
            r@ == joined(self.root_path@, self.files_ref_name@),
    {
        join_path(self.root_path.as_str(), self.files_ref_name.as_str())
    }

    /// The installed executable that the launcher starts.
    pub fn executable_path(&self) -> (r: String)
        ensures
            r@ == joined(self.root_path@, EXECUTABLE_NAME@),
    {
        join_path(self.root_path.as_str(), EXECUTABLE_NAME)
    }
}

} // verus!
