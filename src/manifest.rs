use vstd::prelude::*;
use crate::error::{ErrorKind, UpdateError};
use crate::options::{Options, views};
use crate::stages::contains_name;

verus! {

/// `serde_json::Error`, carried opaquely out of the two calls below and
/// turned into an error of this library.
#[verifier::external_type_specification]
#[verifier::external_body]
pub struct ExJsonError(serde_json::Error);

/// The list of strings that a JSON text holds, if it is a JSON array of
/// strings.
pub uninterp spec fn json_string_list(text: Seq<char>) -> Option<Seq<Seq<char>>>;

/// The JSON text of a list of strings.
pub uninterp spec fn json_of_string_list(items: Seq<Seq<char>>) -> Seq<char>;

/// Relies on `serde_json::from_str::<Vec<String>>`: it succeeds exactly on
/// a JSON array of strings, and what it returns depends on the text alone.
#[verifier::external_body]
fn parse_string_list(text: &str) -> (r: Result<Vec<String>, serde_json::Error>)
    ensures
        match r {
            Ok(v) => json_string_list(text@) == Some(views(v@)),
            Err(_) => json_string_list(text@) is None,
        },
{
    serde_json::from_str::<Vec<String>>(text)
}

/// Relies on `serde_json::to_string` on a `Vec<String>`: it writes into a
/// `Vec<u8>`, which never fails, and strings serialise without error, so it
/// always succeeds; the text depends on the strings alone, and
/// `serde_json::from_str` reads it back as the same list.
#[verifier::external_body]
fn encode_string_list(items: &Vec<String>) -> (r: Result<String, serde_json::Error>)
    ensures
        r is Ok,
        r matches Ok(s) ==> s@ == json_of_string_list(views(items@)),
        r matches Ok(s) ==> json_string_list(s@) == Some(views(items@)),
{
    serde_json::to_string(items)
}

/// Manifest store, reading side. `text` is the content of the manifest file,
/// `None` where there is no such file yet: then nothing is known. A manifest
/// that does not parse is `ManifestCorrupt`, which is fatal.
pub fn load_files_ref(text: Option<&str>) -> (r: Result<Vec<String>, UpdateError>)
    ensures
        match text {
            None => r matches Ok(v) && v@.len() == 0,
            Some(t) => match json_string_list(t@) {
                None => r matches Err(e) && e.error == ErrorKind::ManifestCorrupt
                    && !e.should_try_recover,
                Some(l) => r matches Ok(v) && views(v@) == l,
            },
        },
{
    match text {
        None => Ok(Vec::new()),
        Some(t) => match parse_string_list(t) {
            Ok(v) => Ok(v),
            Err(_) => Err(UpdateError::new(ErrorKind::ManifestCorrupt, false)),
        },
    }
}

/// `items` with `name` added unless it is there already.
pub open spec fn with_name(items: Seq<Seq<char>>, name: Seq<char>) -> Seq<Seq<char>> {
    if items.contains(name) {
        items
    } else {
        items.push(name)
    }
}

/// What the manifest store writes: the entries it records, and the file's
/// text.
pub struct SavedManifest {
    pub entries: Vec<String>,
    pub text: String,
}

/// Manifest store, writing side: the created set with the manifest's own
/// name added, so that the manifest file is never taken for an unknown
/// entry, and the text to write to the manifest file, which
/// `load_files_ref` reads back as the same list. Names are stored as given,
/// relative to the root.
pub fn save_files_ref(created: Vec<String>, options: &Options) -> (r: SavedManifest)
    ensures
        views(r.entries@) == with_name(views(created@), options.files_ref_name@),
        r.text@ == json_of_string_list(views(r.entries@)),
        json_string_list(r.text@) == Some(views(r.entries@)),
{
    let mut entries = created;
    if !contains_name(&entries, &options.files_ref_name) {
        let ghost before = views(entries@);
        entries.push(options.files_ref_name.clone());
        assert(views(entries@) =~= before.push(options.files_ref_name@));
    }
    match encode_string_list(&entries) {
        Ok(text) => SavedManifest { entries, text },
        Err(_) => {
            assert(false);
            SavedManifest { entries, text: String::new() }
        },
    }
}

/// Saving is idempotent: a manifest that already names itself is stored
/// unchanged, so saving what a save returned stores the same list again.
pub proof fn lemma_save_idempotent(created: Seq<Seq<char>>, name: Seq<char>)
    ensures
        with_name(with_name(created, name), name) == with_name(created, name),
        with_name(created, name).contains(name),
{
    if !created.contains(name) {
        assert(created.push(name)[created.len() as int] == name);
    }
}

} // verus!
