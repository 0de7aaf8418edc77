use vstd::prelude::*;
use crate::manifest::with_name;
use crate::options::Options;

verus! {

/// An install root as the stages see it, one level deep. Each top-level
/// entry is known by its name and carries a token that stands for its whole
/// content, so that a move keeps the token and a rewrite may change it.
pub struct Install {
    /// The entries of the root other than the backup and quarantine
    /// directories.
    pub root: Map<Seq<char>, nat>,
    /// The entries of the backup directory.
    pub old: Map<Seq<char>, nat>,
    /// The quarantine batches, by batch name.
    pub unknown: Map<Seq<char>, Map<Seq<char>, nat>>,
    /// What the manifest file lists; `None` where there is none.
    pub manifest: Option<Seq<Seq<char>>>,
}

impl Install {
    /// The root holds no entry under the names of the two directories that
    /// the updater keeps beside it.
    pub open spec fn wf(&self, opts: &Options) -> bool {
        &&& !self.root.contains_key(opts.old_folder_name@)
        &&& !self.root.contains_key(opts.unknown_folder_name@)
    }

    pub open spec fn known(&self) -> Seq<Seq<char>> {
        match self.manifest {
            Some(m) => m,
            None => seq![],
        }
    }
}

/// A package as extraction sees it: its top-level entries with their
/// content, and the created set, which lists them.
pub open spec fn package_wf(opts: &Options, package: Map<Seq<char>, nat>, created: Seq<Seq<char>>) -> bool {
    &&& package.dom() == created.to_set()
    &&& !package.contains_key(opts.old_folder_name@)
    &&& !package.contains_key(opts.unknown_folder_name@)
}

/// Backup stage: the backup directory is recreated and receives every
/// entry of the root that the manifest lists and that is not kept.
pub open spec fn backup(opts: &Options, inst: Install) -> Install {
    Install {
        root: Map::new(
            |n: Seq<char>| inst.root.contains_key(n) && !opts.backs_up(inst.known(), n),
            |n: Seq<char>| inst.root[n],
        ),
        old: Map::new(
            |n: Seq<char>| inst.root.contains_key(n) && opts.backs_up(inst.known(), n),
            |n: Seq<char>| inst.root[n],
        ),
        ..inst
    }
}

pub open spec fn sweeps_something(opts: &Options, inst: Install) -> bool {
    exists|n: Seq<char>| inst.root.contains_key(n) && #[trigger] opts.quarantines(n)
}

/// Quarantine stage: every remaining entry that qualifies moves into the
/// batch `batch`, which comes into being only if something qualifies.
pub open spec fn quarantine(opts: &Options, inst: Install, batch: Seq<char>) -> Install {
    if sweeps_something(opts, inst) {
        Install {
            root: Map::new(
                |n: Seq<char>| inst.root.contains_key(n) && !opts.quarantines(n),
                |n: Seq<char>| inst.root[n],
            ),
            unknown: inst.unknown.insert(
                batch,
                Map::new(
                    |n: Seq<char>| inst.root.contains_key(n) && opts.quarantines(n),
                    |n: Seq<char>| inst.root[n],
                ),
            ),
            ..inst
        }
    } else {
        inst
    }
}

/// Extraction: the package's top-level entries are written into the root.
pub open spec fn extract(inst: Install, package: Map<Seq<char>, nat>) -> Install {
    Install { root: inst.root.union_prefer_right(package), ..inst }
}

/// Manifest store: the created set and the manifest's own name are
/// recorded; the manifest file, with content `token`, stands in the root.
pub open spec fn save(opts: &Options, inst: Install, created: Seq<Seq<char>>, token: nat) -> Install {
    Install {
        root: inst.root.insert(opts.files_ref_name@, token),
        manifest: Some(with_name(created, opts.files_ref_name@)),
        ..inst
    }
}

/// A whole successful update run with the package `package`, the quarantine
/// batch name `batch` and the manifest content `token`.
pub open spec fn update(
    opts: &Options,
    inst: Install,
    package: Map<Seq<char>, nat>,
    created: Seq<Seq<char>>,
    batch: Seq<char>,
    token: nat,
) -> Install {
    save(opts, extract(quarantine(opts, backup(opts, inst), batch), package), created, token)
}

/// Recovery stage: everything in the backup directory moves back into the
/// root under its own name.
pub open spec fn recover(inst: Install) -> Install {
    Install { root: inst.root.union_prefer_right(inst.old), old: Map::empty(), ..inst }
}

proof fn lemma_with_name_contains(items: Seq<Seq<char>>, name: Seq<char>, n: Seq<char>)
    ensures
        with_name(items, name).contains(n) <==> items.contains(n) || n == name,
{
    if !items.contains(name) {
        if items.contains(n) {
            let i = choose|i: int| 0 <= i < items.len() && items[i] == n;
            assert(items.push(name)[i] == n);
        }
        assert(items.push(name)[items.len() as int] == name);
        if items.push(name).contains(n) && n != name {
            let i = choose|i: int| 0 <= i < items.len() + 1 && items.push(name)[i] == n;
            assert(items[i] == n);
        }
    }
}

/// Recovery round trip: after the recovery stage the backup directory is
/// empty, and the root holds every entry that was in it, under the same
/// name and with the same content, beside what it held already.
pub proof fn lemma_recovery_round_trip(inst: Install)
    ensures
        recover(inst).old == Map::<Seq<char>, nat>::empty(),
        recover(inst).root.dom() == inst.root.dom() + inst.old.dom(),
        forall|n: Seq<char>|
            #[trigger] inst.old.contains_key(n) ==> recover(inst).root[n] == inst.old[n],
        forall|n: Seq<char>|
            inst.root.contains_key(n) && !inst.old.contains_key(n) ==> #[trigger] recover(
                inst,
            ).root[n] == inst.root[n],
{
    assert(recover(inst).root.dom() =~= inst.root.dom() + inst.old.dom());
}

/// Keep-list immunity: a kept entry of the root stays where it is, with the
/// same content, through the backup and quarantine stages, and lands
/// neither in the backup directory nor in the new quarantine batch; the
/// other batches are left as they were.
pub proof fn lemma_keep_list_immunity(opts: &Options, inst: Install, batch: Seq<char>, n: Seq<char>)
    requires
        opts.keep_view().contains(n),
        inst.root.contains_key(n),
    ensures
        quarantine(opts, backup(opts, inst), batch).root.contains_key(n),
        quarantine(opts, backup(opts, inst), batch).root[n] == inst.root[n],
        !quarantine(opts, backup(opts, inst), batch).old.contains_key(n),
        quarantine(opts, backup(opts, inst), batch).unknown.contains_key(batch)
            && !inst.unknown.contains_key(batch) ==> !quarantine(
            opts,
            backup(opts, inst),
            batch,
        ).unknown[batch].contains_key(n),
        forall|b: Seq<char>|
            b != batch ==> #[trigger] quarantine(opts, backup(opts, inst), batch).unknown.contains_key(b)
                == inst.unknown.contains_key(b) && quarantine(opts, backup(opts, inst), batch).unknown[b]
                == inst.unknown[b],
{
}

/// Unknown-file preservation: an entry of the root that the manifest does
/// not list, that is not kept, and that is not one of the updater's two
/// directories ends up, with the same content, in the run's new quarantine
/// batch; every batch that existed before the run is left as it was.
pub proof fn lemma_unknown_entry_quarantined(
    opts: &Options,
    inst: Install,
    package: Map<Seq<char>, nat>,
    created: Seq<Seq<char>>,
    batch: Seq<char>,
    token: nat,
    n: Seq<char>,
)
    requires
        inst.root.contains_key(n),
        !inst.known().contains(n),
        opts.quarantines(n),
        !inst.unknown.contains_key(batch),
    ensures
        update(opts, inst, package, created, batch, token).unknown.contains_key(batch),
        update(opts, inst, package, created, batch, token).unknown[batch].contains_key(n),
        update(opts, inst, package, created, batch, token).unknown[batch][n] == inst.root[n],
        forall|b: Seq<char>|
            #[trigger] inst.unknown.contains_key(b) ==> update(
                opts,
                inst,
                package,
                created,
                batch,
                token,
            ).unknown.contains_key(b) && update(opts, inst, package, created, batch, token).unknown[b]
                == inst.unknown[b],
{
    let b1 = backup(opts, inst);
    assert(b1.root.contains_key(n));
    assert(sweeps_something(opts, b1));
}

/// Idempotent re-run: a second run with the same package leaves the root,
/// the manifest and the quarantine batches as the first run left them (no
/// stray entry is left to sweep, so no batch is added), and the backup
/// directory then holds every entry of the package that is not kept.
pub proof fn lemma_update_idempotent(
    opts: &Options,
    inst: Install,
    package: Map<Seq<char>, nat>,
    created: Seq<Seq<char>>,
    batch1: Seq<char>,
    batch2: Seq<char>,
    token: nat,
)
    requires
        opts.wf(),
        inst.wf(opts),
        package_wf(opts, package, created),
    ensures
        update(opts, update(opts, inst, package, created, batch1, token), package, created, batch2, token).root
            == update(opts, inst, package, created, batch1, token).root,
        update(opts, update(opts, inst, package, created, batch1, token), package, created, batch2, token).manifest
            == update(opts, inst, package, created, batch1, token).manifest,
        update(opts, update(opts, inst, package, created, batch1, token), package, created, batch2, token).unknown
            == update(opts, inst, package, created, batch1, token).unknown,
        forall|n: Seq<char>|
            #[trigger] package.contains_key(n) && !opts.keep_view().contains(n) ==> update(
                opts,
                update(opts, inst, package, created, batch1, token),
                package,
                created,
                batch2,
                token,
            ).old.contains_key(n),
{
    let once = update(opts, inst, package, created, batch1, token);
    let refn = opts.files_ref_name@;
    let keep = opts.keep_view();
    let m1 = with_name(created, refn);
    assert(once.manifest == Some(m1));
    assert forall|n: Seq<char>| #[trigger] once.root.contains_key(n) implies
        (inst.root.contains_key(n) && keep.contains(n)) || package.contains_key(n) || n == refn by {
        let b1 = backup(opts, inst);
        let q = quarantine(opts, b1, batch1);
        if !package.contains_key(n) && n != refn {
            assert(q.root.contains_key(n));
            assert(b1.root.contains_key(n));
            if sweeps_something(opts, b1) {
                assert(!opts.quarantines(n));
            } else {
                assert(!(b1.root.contains_key(n) && opts.quarantines(n)));
            }
            assert(inst.root.contains_key(n));
        }
    }
    assert forall|n: Seq<char>| #[trigger] m1.contains(n) <==> package.contains_key(n) || n == refn by {
        lemma_with_name_contains(created, refn, n);
        assert(package.dom().contains(n) <==> created.to_set().contains(n));
    }
    let b2 = backup(opts, once);
    assert forall|n: Seq<char>| #[trigger] b2.root.contains_key(n) implies keep.contains(n)
        && once.root.contains_key(n) by {
        if !keep.contains(n) {
            assert(m1.contains(n));
        }
    }
    assert(!sweeps_something(opts, b2));
    let twice = update(opts, once, package, created, batch2, token);
    assert(twice.root =~= once.root) by {
        assert forall|n: Seq<char>| #[trigger] twice.root.contains_key(n) <==> once.root.contains_key(n) by {
            if once.root.contains_key(n) && !package.contains_key(n) && n != refn {
                assert(keep.contains(n));
                assert(!opts.backs_up(once.known(), n));
            }
        }
        assert forall|n: Seq<char>| #[trigger] twice.root.contains_key(n) implies twice.root[n]
            == once.root[n] by {
            if n != refn && !package.contains_key(n) {
                assert(b2.root.contains_key(n));
            }
        }
    }
    assert forall|n: Seq<char>| #[trigger] package.contains_key(n) && !keep.contains(n) implies
        twice.old.contains_key(n) by {
        assert(m1.contains(n));
        assert(once.root.contains_key(n));
    }
}

proof fn lemma_filter_member(s: Seq<Seq<char>>, p: spec_fn(Seq<char>) -> bool, n: Seq<char>)
    ensures
        s.filter(p).contains(n) <==> s.contains(n) && p(n),
{
    if s.filter(p).contains(n) {
        s.lemma_filter_contains_rev(p, n);
        let i = choose|i: int| 0 <= i < s.filter(p).len() && s.filter(p)[i] == n;
        s.lemma_filter_pred(p, i);
    }
    if s.contains(n) && p(n) {
        let i = choose|i: int| 0 <= i < s.len() && s[i] == n;
        s.lemma_filter_contains(p, i);
    }
}

/// What `move_to_old` selects from a listing of the root is exactly what
/// the backup stage moves into the backup directory.
pub proof fn lemma_backup_selection(opts: &Options, inst: Install, listing: Seq<Seq<char>>)
    requires
        listing.to_set() == inst.root.dom(),
    ensures
        listing.filter(|n: Seq<char>| opts.backs_up(inst.known(), n)).to_set() == backup(
            opts,
            inst,
        ).old.dom(),
{
    let p = |n: Seq<char>| opts.backs_up(inst.known(), n);
    assert forall|n: Seq<char>|
        listing.filter(p).to_set().contains(n) <==> backup(opts, inst).old.dom().contains(n) by {
        lemma_filter_member(listing, p, n);
        assert(listing.to_set().contains(n) <==> listing.contains(n));
    }
    assert(listing.filter(p).to_set() =~= backup(opts, inst).old.dom());
}

/// What `move_to_unknown` selects from a listing of the root is exactly
/// what the quarantine stage moves into the new batch, and its plan names a
/// batch exactly when the stage creates one.
pub proof fn lemma_quarantine_selection(
    opts: &Options,
    inst: Install,
    listing: Seq<Seq<char>>,
    batch: Seq<char>,
)
    requires
        listing.to_set() == inst.root.dom(),
    ensures
        sweeps_something(opts, inst) <==> listing.filter(|n: Seq<char>| opts.quarantines(n)).len()
            > 0,
        sweeps_something(opts, inst) ==> listing.filter(|n: Seq<char>| opts.quarantines(n)).to_set()
            == quarantine(opts, inst, batch).unknown[batch].dom(),
{
    let p = |n: Seq<char>| opts.quarantines(n);
    assert forall|n: Seq<char>|
        listing.filter(p).to_set().contains(n) <==> inst.root.contains_key(n) && opts.quarantines(
            n,
        ) by {
        lemma_filter_member(listing, p, n);
        assert(listing.to_set().contains(n) <==> listing.contains(n));
    }
    if sweeps_something(opts, inst) {
        let n = choose|n: Seq<char>| inst.root.contains_key(n) && #[trigger] opts.quarantines(n);
        assert(listing.filter(p).to_set().contains(n));
        assert(listing.filter(p).contains(n));
        assert(listing.filter(p).to_set() =~= quarantine(opts, inst, batch).unknown[batch].dom());
    }
    if listing.filter(p).len() > 0 {
        let n = listing.filter(p)[0];
        assert(listing.filter(p).contains(n));
        assert(listing.filter(p).to_set().contains(n));
        assert(inst.root.contains_key(n) && opts.quarantines(n));
    }
}

/// The install after a run that got through its first `k` stages (backup,
/// quarantine, extraction, manifest save) and stopped there, followed by
/// the recovery stage where `rolled_back`. A successful run is
/// `stages_run(.., 4, false)`; a failed one stops earlier and may roll back.
pub open spec fn stages_run(
    opts: &Options,
    inst: Install,
    package: Map<Seq<char>, nat>,
    created: Seq<Seq<char>>,
    batch: Seq<char>,
    token: nat,
    k: nat,
    rolled_back: bool,
) -> Install {
    let s1 = if k >= 1 { backup(opts, inst) } else { inst };
    let s2 = if k >= 2 { quarantine(opts, s1, batch) } else { s1 };
    let s3 = if k >= 3 { extract(s2, package) } else { s2 };
    let s4 = if k >= 4 { save(opts, s3, created, token) } else { s3 };
    if rolled_back { recover(s4) } else { s4 }
}

/// Quarantined entries are never deleted or moved: whatever stage a run
/// reaches, and whether or not it is rolled back, every quarantine batch
/// that existed before it is left as it was. A successful run is one such
/// run.
pub proof fn lemma_quarantine_batches_survive(
    opts: &Options,
    inst: Install,
    package: Map<Seq<char>, nat>,
    created: Seq<Seq<char>>,
    batch: Seq<char>,
    token: nat,
    k: nat,
    rolled_back: bool,
)
    requires
        !inst.unknown.contains_key(batch),
    ensures
        stages_run(opts, inst, package, created, batch, token, 4, false) == update(
            opts,
            inst,
            package,
            created,
            batch,
            token,
        ),
        forall|b: Seq<char>|
            #[trigger] inst.unknown.contains_key(b) ==> stages_run(
                opts,
                inst,
                package,
                created,
                batch,
                token,
                k,
                rolled_back,
            ).unknown.contains_key(b) && stages_run(
                opts,
                inst,
                package,
                created,
                batch,
                token,
                k,
                rolled_back,
            ).unknown[b] == inst.unknown[b],
{
}

} // verus!
