use vstd::prelude::*;
use crate::options::{Options, joined, join_path, views};

verus! {

impl Options {
    /// A top-level entry that the backup stage moves into the backup
    /// directory: the manifest lists it and it is not kept.
    pub open spec fn backs_up(&self, manifest: Seq<Seq<char>>, name: Seq<char>) -> bool {
        &&& manifest.contains(name)
        &&& !self.keep_view().contains(name)
    }

    /// A top-level entry that the quarantine stage sweeps: anything but the
    /// backup directory, the quarantine directory and the kept entries.
    pub open spec fn quarantines(&self, name: Seq<char>) -> bool {
        &&& !self.keep_view().contains(name)
        &&& name != self.old_folder_name@
        &&& name != self.unknown_folder_name@
    }
}

/// Whether `name` is one of `list`.
pub fn contains_name(list: &Vec<String>, name: &String) -> (r: bool)
    ensures
        r == views(list@).contains(name@),
{
    let mut i: usize = 0;
    while i < list.len()
        invariant
            i <= list.len(),
            forall|j: int| 0 <= j < i ==> list@[j]@ != name@,
        decreases list.len() - i,
    {
        if list[i] == *name {
            assert(views(list@)[i as int] == name@);
            return true;
        }
        i += 1;
    }
    proof {
        if views(list@).contains(name@) {
            let k = choose|k: int| 0 <= k < views(list@).len() && views(list@)[k] == name@;
            assert(list@[k]@ == name@);
        }
    }
    false
}

/// Backup stage: the top-level entries of the root, in listing order, that
/// move into the backup directory. With no manifest yet, `manifest` is empty
/// and nothing moves.
pub fn move_to_old(
    options: &Options,
    manifest: &Vec<String>,
    entries: &Vec<String>,
) -> (r: Vec<String>)
    ensures
        views(r@) == views(entries@).filter(|n: Seq<char>| options.backs_up(views(manifest@), n)),
{
    let ghost pred = |n: Seq<char>| options.backs_up(views(manifest@), n);
    let mut r: Vec<String> = Vec::new();
    let mut i: usize = 0;
    while i < entries.len()
        invariant
            i <= entries.len(),
            views(r@) == views(entries@).take(i as int).filter(pred),
            pred == (|n: Seq<char>| options.backs_up(views(manifest@), n)),
        decreases entries.len() - i,
    {
        let name = &entries[i];
        let moves = contains_name(manifest, name) && !contains_name(&options.keep_files, name);
        proof {
            assert(views(entries@).take(i + 1).drop_last() =~= views(entries@).take(i as int));
            assert(views(entries@).take(i + 1).last() == name@);
            assert(moves == pred(name@));
            reveal(Seq::filter);
            assert(views(entries@).take(i + 1).filter(pred) == if pred(name@) {
                views(entries@).take(i as int).filter(pred).push(name@)
            } else {
                views(entries@).take(i as int).filter(pred)
            });
        }
        if moves {
            r.push(name.clone());
            assert(views(r@) =~= views(entries@).take(i as int).filter(pred).push(name@));
        }
        i += 1;
    }
    assert(views(entries@).take(entries.len() as int) =~= views(entries@));
    r
}

/// What the quarantine stage does in one sweep: the entries to move, and the
/// batch directory to hold them, named after the sweep's timestamp. The batch
/// directory exists in the plan only when something is to be moved.
pub struct QuarantinePlan {
    pub batch: Option<String>,
    pub names: Vec<String>,
}

pub open spec fn digit_char(d: nat) -> char {
    if d == 0 { '0' }
    else if d == 1 { '1' }
    else if d == 2 { '2' }
    else if d == 3 { '3' }
    else if d == 4 { '4' }
    else if d == 5 { '5' }
    else if d == 6 { '6' }
    else if d == 7 { '7' }
    else if d == 8 { '8' }
    else { '9' }
}

/// The decimal digits of `n`, most significant first, without leading zeros.
pub open spec fn decimal(n: nat) -> Seq<char>
    decreases n,
{
    if n < 10 {
        seq![digit_char(n)]
    } else {
        decimal(n / 10).push(digit_char(n % 10))
    }
}

fn digit_str(d: u64) -> (r: &'static str)
    requires
        d < 10,
    ensures
        r@ == seq![digit_char(d as nat)],
{
    proof {
        reveal_strlit("0");
        reveal_strlit("1");
        reveal_strlit("2");
        reveal_strlit("3");
        reveal_strlit("4");
        reveal_strlit("5");
        reveal_strlit("6");
        reveal_strlit("7");
        reveal_strlit("8");
        reveal_strlit("9");
    }
    let r = if d == 0 { "0" }
    else if d == 1 { "1" }
    else if d == 2 { "2" }
    else if d == 3 { "3" }
    else if d == 4 { "4" }
    else if d == 5 { "5" }
    else if d == 6 { "6" }
    else if d == 7 { "7" }
    else if d == 8 { "8" }
    else { "9" };
    assert(r@ =~= seq![digit_char(d as nat)]);
    r
}

/// `n` written in decimal.
pub fn decimal_string(n: u64) -> (r: String)
    ensures
        r@ == decimal(n as nat),
    decreases n,
{
    if n < 10 {
        String::from_str(digit_str(n))
    } else {
        let mut s = decimal_string(n / 10);
        s.append(digit_str(n % 10));
        assert(s@ =~= decimal(n as nat));
        s
    }
}

/// Quarantine stage: the entries left in the root (after the backup stage)
/// that move into a fresh batch directory named by `timestamp_ms`.
pub fn move_to_unknown(
    options: &Options,
    entries: &Vec<String>,
    timestamp_ms: u64,
) -> (r: QuarantinePlan)
    ensures
        views(r.names@) == views(entries@).filter(|n: Seq<char>| options.quarantines(n)),
        r.names@.len() == 0 ==> r.batch is None,
        r.names@.len() > 0 ==> (r.batch matches Some(b) && b@ == decimal(timestamp_ms as nat)),
{
    let ghost pred = |n: Seq<char>| options.quarantines(n);
    let mut names: Vec<String> = Vec::new();
    let mut i: usize = 0;
    while i < entries.len()
        invariant
            i <= entries.len(),
            views(names@) == views(entries@).take(i as int).filter(pred),
            pred == (|n: Seq<char>| options.quarantines(n)),
        decreases entries.len() - i,
    {
        let name = &entries[i];
        let moves = !contains_name(&options.keep_files, name) && !(*name
            == options.old_folder_name) && !(*name == options.unknown_folder_name);
        proof {
            assert(views(entries@).take(i + 1).drop_last() =~= views(entries@).take(i as int));
            assert(views(entries@).take(i + 1).last() == name@);
            assert(moves == pred(name@));
            reveal(Seq::filter);
            assert(views(entries@).take(i + 1).filter(pred) == if pred(name@) {
                views(entries@).take(i as int).filter(pred).push(name@)
            } else {
                views(entries@).take(i as int).filter(pred)
            });
        }
        if moves {
            names.push(name.clone());
            assert(views(names@) =~= views(entries@).take(i as int).filter(pred).push(name@));
        }
        i += 1;
    }
    assert(views(entries@).take(entries.len() as int) =~= views(entries@));
    let batch = if names.len() > 0 {
        Some(decimal_string(timestamp_ms))
    } else {
        None
    };
    QuarantinePlan { batch, names }
}

/// One rename: the entry called `name` goes from `from` to `to`.
pub struct Move {
    pub name: String,
    pub from: String,
    pub to: String,
}

/// The renames that carry each of `names` from the directory `src` into the
/// directory `dst`, under the same name, in order.
pub fn moves_between(src: &str, dst: &str, names: &Vec<String>) -> (r: Vec<Move>)
    ensures
        r@.len() == names@.len(),
        forall|k: int|
            0 <= k < names@.len() ==> (#[trigger] r@[k]).from@ == joined(src@, names@[k]@)
                && r@[k].to@ == joined(dst@, names@[k]@) && r@[k].name@ == names@[k]@,
{
    let mut r: Vec<Move> = Vec::new();
    let mut i: usize = 0;
    while i < names.len()
        invariant
            i <= names.len(),
            r@.len() == i,
            forall|k: int|
                0 <= k < i ==> (#[trigger] r@[k]).from@ == joined(src@, names@[k]@) && r@[k].to@
                    == joined(dst@, names@[k]@) && r@[k].name@ == names@[k]@,
        decreases names.len() - i,
    {
        let from = join_path(src, names[i].as_str());
        let to = join_path(dst, names[i].as_str());
        r.push(Move { name: names[i].clone(), from, to });
        i += 1;
    }
    r
}

/// Recovery stage: every entry of the backup directory (`entries`, as
/// listed) goes back into the root under its own name.
pub fn recover_from_old(options: &Options, entries: &Vec<String>) -> (r: Vec<Move>)
    ensures
        r@.len() == entries@.len(),
        forall|k: int|
            0 <= k < entries@.len() ==> (#[trigger] r@[k]).from@ == joined(
                joined(options.root_path@, options.old_folder_name@),
                entries@[k]@,
            ) && r@[k].to@ == joined(options.root_path@, entries@[k]@) && r@[k].name@
                == entries@[k]@,
{
    let old_path = options.old_folder_path();
    moves_between(old_path.as_str(), options.root_path.as_str(), entries)
}

} // verus!
