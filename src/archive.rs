use vstd::prelude::*;
use crate::error::{ErrorKind, UpdateError};
use crate::options::{is_separator, views};
use crate::stages::contains_name;

verus! {

/// Splitting a prefix of an entry name: the components closed so far, and
/// the component still open.
pub open spec fn split_acc(s: Seq<char>) -> (Seq<Seq<char>>, Seq<char>)
    decreases s.len(),
{
    if s.len() == 0 {
        (seq![], seq![])
    } else {
        let (done, cur) = split_acc(s.drop_last());
        if is_separator(s.last()) {
            (done.push(cur), seq![])
        } else {
            (done, cur.push(s.last()))
        }
    }
}

/// The components of an entry name, split at `/` and `\`.
pub open spec fn components(s: Seq<char>) -> Seq<Seq<char>> {
    split_acc(s).0.push(split_acc(s).1)
}

pub open spec fn is_parent(c: Seq<char>) -> bool {
    c == seq!['.', '.']
}

pub open spec fn is_current(c: Seq<char>) -> bool {
    c.len() == 0 || c == seq!['.']
}

/// A component that names a drive or holds a NUL cannot stand in a path
/// below the root.
pub open spec fn is_forbidden(c: Seq<char>) -> bool {
    c.contains(':') || c.contains('\0')
}

/// The components in order, with `.` and empty ones dropped and each `..`
/// taking back the component before it; `None` where a `..` would climb
/// above the start or a component is forbidden.
pub open spec fn resolve(comps: Seq<Seq<char>>) -> Option<Seq<Seq<char>>>
    decreases comps.len(),
{
    if comps.len() == 0 {
        Some(seq![])
    } else {
        match resolve(comps.drop_last()) {
            None => None,
            Some(p) => {
                let c = comps.last();
                if is_parent(c) {
                    if p.len() == 0 {
                        None
                    } else {
                        Some(p.drop_last())
                    }
                } else if is_current(c) {
                    Some(p)
                } else if is_forbidden(c) {
                    None
                } else {
                    Some(p.push(c))
                }
            },
        }
    }
}

/// The location below the root that an archive entry name designates, as
/// its components (none at all for the root itself); `None` for a name
/// that is absolute or escapes the root.
pub open spec fn entry_path(name: Seq<char>) -> Option<Seq<Seq<char>>> {
    if name.len() > 0 && is_separator(name[0]) {
        None
    } else {
        resolve(components(name))
    }
}

/// A name that designates a directory ends with `/`.
pub open spec fn names_dir(name: Seq<char>) -> bool {
    name.len() > 0 && name.last() == '/'
}

/// An entry is written as a directory when its name ends with `/`, or when
/// it designates the root itself, which then has nothing to create.
pub open spec fn entry_is_dir(name: Seq<char>) -> bool {
    names_dir(name) || (entry_path(name) matches Some(p) && p.len() == 0)
}

/// Where one archive entry goes, relative to the root.
pub struct EntryTarget {
    pub components: Vec<String>,
    pub is_dir: bool,
}

fn split_components(name: &str) -> (r: Vec<String>)
    ensures
        views(r@) == components(name@),
{
    let n = name.unicode_len();
    let mut done: Vec<String> = Vec::new();
    let mut start: usize = 0;
    let mut i: usize = 0;
    while i < n
        invariant
            n == name@.len(),
            start <= i <= n,
            split_acc(name@.take(i as int)) == (views(done@), name@.subrange(start as int, i as int)),
        decreases n - i,
    {
        let c = name.get_char(i);
        proof {
            assert(name@.take(i + 1).drop_last() =~= name@.take(i as int));
            assert(name@.take(i + 1).last() == c);
        }
        if c == '/' || c == '\\' {
            let part = String::from_str(name.substring_char(start, i));
            done.push(part);
            assert(views(done@) =~= split_acc(name@.take(i as int)).0.push(
                name@.subrange(start as int, i as int),
            ));
            start = i + 1;
            assert(name@.subrange(start as int, i + 1) =~= Seq::<char>::empty());
        } else {
            assert(name@.subrange(start as int, i + 1) =~= name@.subrange(start as int, i as int).push(
                c,
            ));
        }
        i += 1;
    }
    assert(name@.take(n as int) =~= name@);
    let last = String::from_str(name.substring_char(start, n));
    done.push(last);
    assert(views(done@) =~= components(name@));
    done
}

fn has_forbidden_char(c: &str) -> (r: bool)
    ensures
        r == is_forbidden(c@),
{
    let n = c.unicode_len();
    let mut i: usize = 0;
    while i < n
        invariant
            n == c@.len(),
            i <= n,
            forall|j: int| 0 <= j < i ==> c@[j] != ':' && c@[j] != '\0',
        decreases n - i,
    {
        let ch = c.get_char(i);
        if ch == ':' || ch == '\0' {
            assert(c@.contains(ch));
            return true;
        }
        i += 1;
    }
    false
}

proof fn lemma_resolve_none_prefix(comps: Seq<Seq<char>>, m: int)
    requires
        0 <= m <= comps.len(),
        resolve(comps.take(m)) is None,
    ensures
        resolve(comps) is None,
    decreases comps.len() - m,
{
    if m < comps.len() {
        assert(comps.take(m + 1).drop_last() =~= comps.take(m));
        lemma_resolve_none_prefix(comps, m + 1);
    } else {
        assert(comps.take(m) =~= comps);
    }
}

fn resolve_components(comps: &Vec<String>) -> (r: Option<Vec<String>>)
    ensures
        match resolve(views(comps@)) {
            None => r is None,
            Some(p) => r matches Some(v) && views(v@) == p,
        },
{
    let parent = String::from_str("..");
    let current = String::from_str(".");
    proof {
        reveal_strlit("..");
        reveal_strlit(".");
        assert(parent@ =~= seq!['.', '.']);
        assert(current@ =~= seq!['.']);
    }
    let mut out: Vec<String> = Vec::new();
    let mut k: usize = 0;
    while k < comps.len()
        invariant
            k <= comps.len(),
            parent@ == seq!['.', '.'],
            current@ == seq!['.'],
            resolve(views(comps@).take(k as int)) == Some(views(out@)),
        decreases comps.len() - k,
    {
        let c = &comps[k];
        proof {
            assert(views(comps@).take(k + 1).drop_last() =~= views(comps@).take(k as int));
            assert(views(comps@).take(k + 1).last() == c@);
        }
        if *c == parent {
            if out.len() == 0 {
                proof {
                    lemma_resolve_none_prefix(views(comps@), k as int + 1);
                }
                return None;
            }
            let ghost before = views(out@);
            out.pop();
            assert(views(out@) =~= before.drop_last());
        } else if c.unicode_len() == 0 || *c == current {
        } else if has_forbidden_char(c.as_str()) {
            proof {
                lemma_resolve_none_prefix(views(comps@), k as int + 1);
            }
            return None;
        } else {
            let ghost before = views(out@);
            out.push(c.clone());
            assert(views(out@) =~= before.push(c@));
        }
        k += 1;
    }
    assert(views(comps@).take(comps.len() as int) =~= views(comps@));
    Some(out)
}

/// The top-level name under which an accepted entry lands in the root;
/// `None` for an entry that designates the root itself.
pub open spec fn top_level(name: Seq<char>) -> Option<Seq<char>> {
    match entry_path(name) {
        Some(p) => if p.len() > 0 {
            Some(p[0])
        } else {
            None
        },
        None => None,
    }
}

/// Some entry of `names` lands under the top-level name `t`.
pub open spec fn creates(names: Seq<Seq<char>>, t: Seq<char>) -> bool {
    exists|k: int| 0 <= k < names.len() && #[trigger] top_level(names[k]) == Some(t)
}

pub open spec fn all_enclosed(names: Seq<Seq<char>>) -> bool {
    forall|k: int| 0 <= k < names.len() ==> (#[trigger] entry_path(names[k])) is Some
}

pub open spec fn is_unsafe_entry_error(e: UpdateError) -> bool {
    e.error == ErrorKind::UnsafeArchiveEntry && e.should_try_recover
}

/// Where the archive entry called `name` goes, or `UnsafeArchiveEntry` when
/// it would not stay below the root.
pub fn entry_target(name: &str) -> (r: Result<EntryTarget, UpdateError>)
    ensures
        match entry_path(name@) {
            None => r matches Err(e) && is_unsafe_entry_error(e),
            Some(p) => r matches Ok(t) && views(t.components@) == p && t.is_dir == entry_is_dir(
                name@,
            ),
        },
{
    let n = name.unicode_len();
    if n > 0 {
        let first = name.get_char(0);
        if first == '/' || first == '\\' {
            return Err(UpdateError::new(ErrorKind::UnsafeArchiveEntry, true));
        }
    }
    let comps = split_components(name);
    match resolve_components(&comps) {
        None => Err(UpdateError::new(ErrorKind::UnsafeArchiveEntry, true)),
        Some(components) => {
            let is_dir = components.len() == 0 || (n > 0 && name.get_char(n - 1) == '/');
            Ok(EntryTarget { components, is_dir })
        },
    }
}

/// Everything the extractor needs to know before it writes: where each
/// entry goes, in archive order, and the top-level names that the archive
/// creates, each once.
pub struct ExtractionPlan {
    pub targets: Vec<EntryTarget>,
    pub created: Vec<String>,
}

/// Plans the extraction of an archive whose entries are called `names`, in
/// order. No entry is planned unless every one stays below the root: the
/// first one that does not aborts with `UnsafeArchiveEntry`.
pub fn extract_plan(names: &Vec<String>) -> (r: Result<ExtractionPlan, UpdateError>)
    ensures
        r is Ok <==> all_enclosed(views(names@)),
        r matches Err(e) ==> is_unsafe_entry_error(e),
        r matches Ok(plan) ==> {
            &&& plan.targets@.len() == names@.len()
            &&& forall|k: int|
                0 <= k < names@.len() ==> entry_path(names@[k]@) == Some(
                    views(#[trigger] plan.targets@[k].components@),
                ) && plan.targets@[k].is_dir == entry_is_dir(names@[k]@)
            &&& views(plan.created@).no_duplicates()
            &&& forall|t: Seq<char>|
                views(plan.created@).contains(t) <==> creates(views(names@), t)
        },
{
    let mut targets: Vec<EntryTarget> = Vec::new();
    let mut created: Vec<String> = Vec::new();
    let mut i: usize = 0;
    while i < names.len()
        invariant
            i <= names.len(),
            targets@.len() == i,
            forall|k: int|
                0 <= k < i ==> entry_path(names@[k]@) == Some(
                    views(#[trigger] targets@[k].components@),
                ) && targets@[k].is_dir == entry_is_dir(names@[k]@),
            views(created@).no_duplicates(),
            forall|t: Seq<char>|
                views(created@).contains(t) <==> creates(views(names@).take(i as int), t),
        decreases names.len() - i,
    {
        let target = match entry_target(names[i].as_str()) {
            Err(e) => {
                assert(entry_path(views(names@)[i as int]) is None);
                return Err(e);
            },
            Ok(t) => t,
        };
        let ghost all = views(names@);
        let ghost before = views(created@);
        assert(all.take(i + 1)[i as int] == all[i as int]);
        assert(all[i as int] == names@[i as int]@);
        if target.components.len() > 0 {
            let top = target.components[0].clone();
            assert(top_level(all[i as int]) == Some(top@));
            if !contains_name(&created, &top) {
                created.push(top);
                assert(views(created@) =~= before.push(top@));
                assert(views(created@)[before.len() as int] == top@);
            }
            assert(views(created@).contains(top@));
        } else {
            assert(top_level(all[i as int]) is None);
        }
        proof {
            assert forall|t: Seq<char>| before.contains(t) implies views(created@).contains(t) by {
                let j = choose|j: int| 0 <= j < before.len() && before[j] == t;
                assert(views(created@)[j] == t);
            }
            assert forall|t: Seq<char>|
                views(created@).contains(t) <==> creates(all.take(i + 1), t) by {
                if creates(all.take(i + 1), t) {
                    let k = choose|k: int|
                        0 <= k < i + 1 && #[trigger] top_level(all.take(i + 1)[k]) == Some(t);
                    assert(all.take(i + 1)[k] == all[k]);
                    if k < i {
                        assert(all.take(i as int)[k] == all[k]);
                        assert(top_level(all.take(i as int)[k]) == Some(t));
                        assert(creates(all.take(i as int), t));
                        assert(before.contains(t));
                    }
                }
                if views(created@).contains(t) {
                    if before.contains(t) {
                        assert(creates(all.take(i as int), t));
                        let k = choose|k: int|
                            0 <= k < i && #[trigger] top_level(all.take(i as int)[k]) == Some(t);
                        assert(all.take(i as int)[k] == all[k]);
                        assert(all.take(i + 1)[k] == all[k]);
                        assert(top_level(all.take(i + 1)[k]) == Some(t));
                    } else {
                        assert(top_level(all.take(i + 1)[i as int]) == Some(t));
                    }
                }
            }
        }
        targets.push(target);
        i += 1;
    }
    assert(views(names@).take(names.len() as int) =~= views(names@));
    assert forall|k: int| 0 <= k < names.len() implies (#[trigger] entry_path(
        views(names@)[k],
    )) is Some by {
        assert(views(names@)[k] == names@[k]@);
        assert(entry_path(names@[k]@) == Some(views(targets@[k].components@)));
    }
    Ok(ExtractionPlan { targets, created })
}

pub open spec fn has_separator(c: Seq<char>) -> bool {
    exists|j: int| 0 <= j < c.len() && is_separator(#[trigger] c[j])
}

/// A single path component that names a child of a directory.
pub open spec fn is_plain(c: Seq<char>) -> bool {
    &&& c.len() > 0
    &&& !is_parent(c)
    &&& c != seq!['.']
    &&& !is_forbidden(c)
    &&& !has_separator(c)
}

pub open spec fn starts_with_parent(name: Seq<char>) -> bool {
    name.len() >= 3 && name[0] == '.' && name[1] == '.' && is_separator(name[2])
}

proof fn lemma_split_no_separator(s: Seq<char>)
    ensures
        forall|i: int| 0 <= i < split_acc(s).0.len() ==> !has_separator(#[trigger] split_acc(s).0[i]),
        !has_separator(split_acc(s).1),
    decreases s.len(),
{
    if s.len() > 0 {
        lemma_split_no_separator(s.drop_last());
        let (done, cur) = split_acc(s.drop_last());
        if !is_separator(s.last()) {
            assert forall|j: int| 0 <= j < cur.push(s.last()).len() implies !is_separator(
                #[trigger] cur.push(s.last())[j],
            ) by {
                if j < cur.len() {
                    assert(cur.push(s.last())[j] == cur[j]);
                }
            }
        } else {
            assert(!has_separator(seq![]));
            assert forall|i: int| 0 <= i < done.push(cur).len() implies !has_separator(
                #[trigger] done.push(cur)[i],
            ) by {
                if i < done.len() {
                    assert(done.push(cur)[i] == done[i]);
                }
            }
        }
    }
}

proof fn lemma_resolve_plain(comps: Seq<Seq<char>>)
    requires
        forall|i: int| 0 <= i < comps.len() ==> !has_separator(#[trigger] comps[i]),
    ensures
        resolve(comps) matches Some(p) ==> forall|i: int|
            0 <= i < p.len() ==> is_plain(#[trigger] p[i]),
    decreases comps.len(),
{
    if comps.len() > 0 {
        let rest = comps.drop_last();
        assert forall|i: int| 0 <= i < rest.len() implies !has_separator(#[trigger] rest[i]) by {
            assert(rest[i] == comps[i]);
        }
        lemma_resolve_plain(rest);
        assert(!has_separator(comps[comps.len() - 1]));
        if let Some(p) = resolve(rest) {
            let c = comps.last();
            if !is_parent(c) && !is_current(c) && !is_forbidden(c) {
                assert forall|i: int| 0 <= i < p.push(c).len() implies is_plain(
                    #[trigger] p.push(c)[i],
                ) by {
                    if i < p.len() {
                        assert(p.push(c)[i] == p[i]);
                    }
                }
            }
        }
    }
}

proof fn lemma_split_parent_first(s: Seq<char>, i: int)
    requires
        starts_with_parent(s),
        3 <= i <= s.len(),
    ensures
        split_acc(s.take(i)).0.len() >= 1,
        split_acc(s.take(i)).0[0] == seq!['.', '.'],
    decreases i,
{
    assert(s.take(i).drop_last() =~= s.take(i - 1));
    if i == 3 {
        assert(s.take(2).drop_last() =~= s.take(1));
        assert(s.take(1).drop_last() =~= s.take(0));
        assert(split_acc(s.take(0)) == (Seq::<Seq<char>>::empty(), Seq::<char>::empty()));
        assert(split_acc(s.take(1)).1 =~= seq!['.']);
        assert(split_acc(s.take(2)).1 =~= seq!['.', '.']);
    } else {
        lemma_split_parent_first(s, i - 1);
    }
}

/// Path-traversal rejection: an entry name that begins with `../`, or with a
/// separator (an absolute path), designates no location below the root, so
/// `entry_target` and `extract_plan` refuse it with `UnsafeArchiveEntry`.
pub proof fn lemma_escaping_entry_rejected(name: Seq<char>)
    requires
        starts_with_parent(name) || (name.len() > 0 && is_separator(name[0])),
    ensures
        entry_path(name) is None,
{
    if !(name.len() > 0 && is_separator(name[0])) {
        lemma_split_parent_first(name, name.len() as int);
        assert(name.take(name.len() as int) =~= name);
        let comps = components(name);
        assert(comps[0] == seq!['.', '.']);
        assert(comps.take(1).drop_last() =~= Seq::<Seq<char>>::empty());
        assert(comps.take(1).last() == seq!['.', '.']);
        assert(resolve(comps.take(1).drop_last()) == Some(Seq::<Seq<char>>::empty()));
        assert(is_parent(comps.take(1).last()));
        assert(resolve(comps.take(1)) is None);
        lemma_resolve_none_prefix(comps, 1);
    }
}

/// Every location that an accepted entry designates lies below the root
/// (or is the root itself): it is a chain of plain child names, none of
/// them `.`, `..`, a drive, or holding a separator.
pub proof fn lemma_accepted_entry_stays_inside(name: Seq<char>)
    requires
        entry_path(name) is Some,
    ensures
        forall|i: int|
            0 <= i < entry_path(name)->Some_0.len() ==> is_plain(
                #[trigger] entry_path(name)->Some_0[i],
            ),
{
    lemma_split_no_separator(name);
    let comps = components(name);
    assert forall|i: int| 0 <= i < comps.len() implies !has_separator(#[trigger] comps[i]) by {
        if i < split_acc(name).0.len() {
            assert(comps[i] == split_acc(name).0[i]);
        }
    }
    lemma_resolve_plain(comps);
}

} // verus!
