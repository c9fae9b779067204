//! The project analyzer's aggregation and the shared, sorted result list.
//!
//! A directory with the project-manifest marker becomes one
//! [`ProjectTargetAnalysis`]: the byte sizes of the files under its
//! build-output subtree are summed and the latest modification time among
//! them is kept ([`fold_target_stats`]). Finished analyses stream into a
//! result list shared through a notifying lock and kept sorted by descending
//! size at every moment ([`insert_sorted_by_size`], [`record_analysis`]);
//! after a delete pass the purged entries are dropped from the list without
//! disturbing that order ([`purge_selected`]).

use crate::notify_rw_lock::{NotifyRwLock, NotifySender};
use vstd::prelude::*;

verus! {

/// One analyzed project root. Immutable after creation except for the
/// selection flag, which belongs to the caller's bookkeeping.
pub struct ProjectTargetAnalysis {
    /// Opaque unique identifier, chosen by the caller at creation.
    pub id: u128,
    /// The project's path, without the build-output suffix.
    pub project_path: String,
    /// The project's name as the manifest gives it; a manifest without a
    /// name is not an error.
    pub project_name: Option<String>,
    /// Bytes taken up by the build-output subtree.
    pub size: u64,
    /// Seconds since the epoch of the most recently modified file in the
    /// build-output subtree; the epoch itself if the subtree is absent.
    pub last_modified: u64,
    /// Whether the caller has selected this entry for cleanup.
    pub selected_for_cleanup: bool,
}

/// Size and modification time of one file in a build-output subtree, as the
/// caller's filesystem walk hands them in: bytes, and seconds since the
/// epoch.
pub struct FileStat {
    pub size: u64,
    pub modified: u64,
}

/// Sum saturating at the largest representable byte count.
pub open spec fn sat_add_u64(a: nat, b: nat) -> nat {
    if a + b > u64::MAX {
        u64::MAX as nat
    } else {
        a + b
    }
}

/// Total size of the listed files, folded in order with saturation.
pub open spec fn spec_total_size(files: Seq<FileStat>) -> nat
    decreases files.len(),
{
    if files.len() == 0 {
        0
    } else {
        sat_add_u64(spec_total_size(files.drop_last()), files.last().size as nat)
    }
}

/// Latest modification time among the listed files; the epoch if there are
/// none.
pub open spec fn spec_latest_modified(files: Seq<FileStat>) -> nat
    decreases files.len(),
{
    if files.len() == 0 {
        0
    } else {
        let rest = spec_latest_modified(files.drop_last());
        if files.last().modified as nat > rest {
            files.last().modified as nat
        } else {
            rest
        }
    }
}

/// Fold the build-output subtree's file statistics: total byte size
/// (saturating) and the latest modification time. An absent or empty subtree
/// contributes size zero and the epoch.
pub fn fold_target_stats(files: &Vec<FileStat>) -> (r: (u64, u64))
    ensures
        r.0 as nat == spec_total_size(files@),
        r.1 as nat == spec_latest_modified(files@),
{
    let mut size: u64 = 0;
    let mut modified: u64 = 0;
    let mut i: usize = 0;
    while i < files.len()
        invariant
            0 <= i <= files@.len(),
            size as nat == spec_total_size(files@.take(i as int)),
            modified as nat == spec_latest_modified(files@.take(i as int)),
        decreases files@.len() - i,
    {
        proof {
            assert(files@.take(i as int + 1).drop_last() =~= files@.take(i as int));
        }
        let f = &files[i];
        size = if size > u64::MAX - f.size {
            u64::MAX
        } else {
            size + f.size
        };
        if f.modified > modified {
            modified = f.modified;
        }
        i += 1;
    }
    proof {
        assert(files@.take(files@.len() as int) =~= files@);
    }
    (size, modified)
}

/// The result list's presentation order: descending by size.
pub open spec fn sorted_by_size_desc(s: Seq<ProjectTargetAnalysis>) -> bool {
    forall|i: int, j: int| 0 <= i <= j < s.len() ==> s[i].size >= s[j].size
}

/// Insert one analysis into a list sorted by descending size, keeping it
/// sorted: a binary search finds the first position whose entry is strictly
/// smaller, and the new entry goes there.
pub fn insert_sorted_by_size(items: &mut Vec<ProjectTargetAnalysis>, item: ProjectTargetAnalysis)
    requires
        sorted_by_size_desc(old(items)@),
        old(items)@.len() < usize::MAX,
    ensures
        sorted_by_size_desc(final(items)@),
        exists|k: int|
            0 <= k <= old(items)@.len() && final(items)@ == old(items)@.insert(k, item),
{
    let mut lo: usize = 0;
    let mut hi: usize = items.len();
    while lo < hi
        invariant
            0 <= lo <= hi <= items@.len(),
            sorted_by_size_desc(items@),
            forall|i: int| 0 <= i < lo ==> items@[i].size >= item.size,
            forall|i: int| hi <= i < items@.len() ==> items@[i].size < item.size,
        decreases hi - lo,
    {
        let mid = lo + (hi - lo) / 2;
        if items[mid].size >= item.size {
            lo = mid + 1;
        } else {
            hi = mid;
        }
    }
    let ghost pre = items@;
    let ghost k = lo as int;
    items.insert(lo, item);
    proof {
        assert forall|i: int, j: int|
            0 <= i <= j < items@.len() implies items@[i].size >= items@[j].size by {
            assert(items@ == pre.insert(k, item));
            if i < k {
                assert(items@[i] == pre[i]);
            }
            if j < k {
                assert(items@[j] == pre[j]);
            }
            if i > k {
                assert(items@[i] == pre[i - 1]);
            }
            if j > k {
                assert(items@[j] == pre[j - 1]);
            }
        }
    }
}

/// Which entries survive a purge: those whose identifier is not among the
/// selected ones, in their original order.
pub open spec fn spec_retained(s: Seq<ProjectTargetAnalysis>, selected: Seq<u128>) -> Seq<
    ProjectTargetAnalysis,
>
    decreases s.len(),
{
    if s.len() == 0 {
        Seq::empty()
    } else {
        let rest = spec_retained(s.drop_last(), selected);
        if selected.contains(s.last().id) {
            rest
        } else {
            rest.push(s.last())
        }
    }
}

/// Every surviving entry is one of the original entries.
pub proof fn lemma_retained_membership(
    s: Seq<ProjectTargetAnalysis>,
    selected: Seq<u128>,
    k: int,
)
    requires
        0 <= k < spec_retained(s, selected).len(),
    ensures
        exists|i: int| 0 <= i < s.len() && s[i] == spec_retained(s, selected)[k],
    decreases s.len(),
{
    let r = spec_retained(s, selected);
    let rest = spec_retained(s.drop_last(), selected);
    if !selected.contains(s.last().id) && k == r.len() - 1 {
        assert(s[s.len() - 1] == r[k]);
    } else {
        lemma_retained_membership(s.drop_last(), selected, k);
        let i = choose|i: int| 0 <= i < s.drop_last().len() && s.drop_last()[i] == rest[k];
        assert(s[i] == r[k]);
    }
}

/// Purging entries from a list sorted by descending size leaves it sorted.
pub proof fn lemma_retained_sorted(s: Seq<ProjectTargetAnalysis>, selected: Seq<u128>)
    requires
        sorted_by_size_desc(s),
    ensures
        sorted_by_size_desc(spec_retained(s, selected)),
    decreases s.len(),
{
    if s.len() > 0 {
        lemma_retained_sorted(s.drop_last(), selected);
        let r = spec_retained(s, selected);
        let rest = spec_retained(s.drop_last(), selected);
        if !selected.contains(s.last().id) {
            assert forall|i: int, j: int|
                0 <= i <= j < r.len() implies r[i].size >= r[j].size by {
                if j == r.len() - 1 && i < j {
                    lemma_retained_membership(s.drop_last(), selected, i);
                    let m = choose|m: int|
                        0 <= m < s.drop_last().len() && s.drop_last()[m] == rest[i];
                    assert(s[m].size >= s[s.len() - 1].size);
                }
            }
        }
    }
}

/// Whether `id` is among the selected identifiers.
pub fn ids_contain(selected: &Vec<u128>, id: u128) -> (b: bool)
    ensures
        b == selected@.contains(id),
{
    let mut i: usize = 0;
    while i < selected.len()
        invariant
            0 <= i <= selected@.len(),
            forall|j: int| 0 <= j < i ==> selected@[j] != id,
        decreases selected@.len() - i,
    {
        if selected[i] == id {
            return true;
        }
        i += 1;
    }
    false
}

/// Drop every entry whose identifier is among the selected ones, in place,
/// preserving the order of the survivors.
pub fn remove_selected(items: &mut Vec<ProjectTargetAnalysis>, selected: &Vec<u128>)
    ensures
        final(items)@ == spec_retained(old(items)@, selected@),
{
    let ghost orig = items@;
    let mut i: usize = 0;
    let ghost mut j: int = 0;
    while i < items.len()
        invariant
            0 <= i <= items@.len(),
            0 <= j <= orig.len(),
            items@.len() - i == orig.len() - j,
            items@.subrange(i as int, items@.len() as int) == orig.subrange(j, orig.len() as int),
            items@.take(i as int) == spec_retained(orig.take(j), selected@),
        decreases items@.len() - i,
    {
        let ghost pre = items@;
        proof {
            assert(orig.take(j + 1).drop_last() =~= orig.take(j));
            assert(orig.take(j + 1).last() == orig[j]);
            assert(pre.subrange(i as int, pre.len() as int)[0] == orig.subrange(
                j,
                orig.len() as int,
            )[0]);
            assert(pre[i as int] == orig[j]);
        }
        let keep = !ids_contain(selected, items[i].id);
        if keep {
            i += 1;
            proof {
                assert(pre.take(i as int) =~= pre.take(i as int - 1).push(pre[i as int - 1]));
                assert(items@.take(i as int) =~= spec_retained(orig.take(j + 1), selected@));
                assert forall|k: int|
                    0 <= k < items@.len() - i implies #[trigger] items@.subrange(
                    i as int,
                    items@.len() as int,
                )[k] == orig.subrange(j + 1, orig.len() as int)[k] by {
                    assert(pre.subrange(i as int - 1, pre.len() as int)[k + 1] == orig.subrange(
                        j,
                        orig.len() as int,
                    )[k + 1]);
                }
                assert(items@.subrange(i as int, items@.len() as int) =~= orig.subrange(
                    j + 1,
                    orig.len() as int,
                ));
            }
        } else {
            let _ = items.remove(i);
            proof {
                pre.remove_ensures(i as int);
                assert(items@.take(i as int) =~= pre.take(i as int));
                assert(items@.take(i as int) =~= spec_retained(orig.take(j + 1), selected@));
                assert forall|k: int|
                    0 <= k < items@.len() - i implies #[trigger] items@.subrange(
                    i as int,
                    items@.len() as int,
                )[k] == orig.subrange(j + 1, orig.len() as int)[k] by {
                    assert(items@[i as int + k] == pre[i as int + k + 1]);
                    assert(pre.subrange(i as int, pre.len() as int)[k + 1] == orig.subrange(
                        j,
                        orig.len() as int,
                    )[k + 1]);
                }
                assert(items@.subrange(i as int, items@.len() as int) =~= orig.subrange(
                    j + 1,
                    orig.len() as int,
                ));
            }
        }
        proof {
            j = j + 1;
        }
    }
    proof {
        assert(orig.take(j) =~= orig);
        assert(items@.take(i as int) =~= items@);
    }
}

/// A fresh, empty shared result list behind a notifying lock whose invariant
/// is exactly [`sorted_by_size_desc`]: every view of the list is sorted.
pub fn results_list(notify_tx: NotifySender) -> (lock: NotifyRwLock<Vec<ProjectTargetAnalysis>>)
    ensures
        forall|v: Vec<ProjectTargetAnalysis>| lock.inv(v) == sorted_by_size_desc(v@),
{
    NotifyRwLock::new_with_inv(
        notify_tx,
        Vec::new(),
        Ghost(|v: Vec<ProjectTargetAnalysis>| sorted_by_size_desc(v@)),
    )
}

/// Record one finished analysis on the shared result list, under its lock
/// and with a change notification: the entry goes to its place in the
/// descending-size order. An analysis of size zero is not listed.
pub fn record_analysis(
    items: &NotifyRwLock<Vec<ProjectTargetAnalysis>>,
    analysis: ProjectTargetAnalysis,
)
    requires
        forall|v: Vec<ProjectTargetAnalysis>| items.inv(v) == sorted_by_size_desc(v@),
{
    if analysis.size > 0 {
        let (mut v, guard) = items.write();
        if v.len() < usize::MAX {
            insert_sorted_by_size(&mut v, analysis);
        }
        proof {
            assert(items.inv(v) == sorted_by_size_desc(v@));
            assert(guard.inv(v) == items.inv(v));
        }
        guard.release(v);
    }
}

/// Drop the selected entries from the shared result list, under its lock and
/// with a change notification; the survivors keep their order, so the list
/// stays sorted.
pub fn purge_selected(items: &NotifyRwLock<Vec<ProjectTargetAnalysis>>, selected: &Vec<u128>)
    requires
        forall|v: Vec<ProjectTargetAnalysis>| items.inv(v) == sorted_by_size_desc(v@),
{
    let (mut v, guard) = items.write();
    let ghost before = v@;
    remove_selected(&mut v, selected);
    proof {
        lemma_retained_sorted(before, selected@);
        assert(items.inv(v) == sorted_by_size_desc(v@));
        assert(guard.inv(v) == items.inv(v));
    }
    guard.release(v);
}

} // verus!
