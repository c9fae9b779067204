//! The delete pass over the selected entries.
//!
//! Once the operator confirms, the pass works through the selected entries'
//! paths ([`selected_paths`]) behind a fresh progress counter
//! ([`delete_progress`]) that starts at `total == number of selected items`.
//! Per item the caller either simulates the deletion or removes the
//! build-output subtree, as [`delete_action`] decides, and then marks one
//! unit done ([`crate::progress::note_one_done`]), firing a change
//! notification each time. In dry-run mode no filesystem mutation is ever
//! requested.

use crate::analysis::ProjectTargetAnalysis;
use crate::notify_rw_lock::{NotifyRwLock, NotifySender};
use crate::progress::Progress;
use crate::scan::views_of;
use vstd::prelude::*;

verus! {

/// What the pass does for one selected item.
pub enum DeleteAction {
    /// Dry run: wait as if working; mutate nothing.
    Simulate,
    /// Remove the project's build-output subtree.
    RemoveTarget,
}

impl DeleteAction {
    /// Whether this action mutates the filesystem.
    pub open spec fn mutates(self) -> bool {
        self is RemoveTarget
    }
}

/// The one decision that guards every filesystem mutation of the pass: with
/// dry-run enabled the action is always a simulation.
pub fn delete_action(dry_run: bool) -> (a: DeleteAction)
    ensures
        a == if dry_run {
            DeleteAction::Simulate
        } else {
            DeleteAction::RemoveTarget
        },
        dry_run ==> !a.mutates(),
{
    if dry_run {
        DeleteAction::Simulate
    } else {
        DeleteAction::RemoveTarget
    }
}

/// The project paths of the selected entries, in list order.
pub open spec fn spec_selected_paths(
    s: Seq<ProjectTargetAnalysis>,
    selected: Seq<u128>,
) -> Seq<Seq<char>>
    decreases s.len(),
{
    if s.len() == 0 {
        Seq::empty()
    } else {
        let rest = spec_selected_paths(s.drop_last(), selected);
        if selected.contains(s.last().id) {
            rest.push(s.last().project_path@)
        } else {
            rest
        }
    }
}

/// Collect the paths the delete pass will work through: the project path of
/// every entry whose identifier is selected, in list order.
pub fn selected_paths(items: &Vec<ProjectTargetAnalysis>, selected: &Vec<u128>) -> (v: Vec<String>)
    ensures
        views_of(v@) == spec_selected_paths(items@, selected@),
{
    let mut v: Vec<String> = Vec::new();
    let mut i: usize = 0;
    while i < items.len()
        invariant
            0 <= i <= items@.len(),
            views_of(v@) == spec_selected_paths(items@.take(i as int), selected@),
        decreases items@.len() - i,
    {
        proof {
            assert(items@.take(i as int + 1).drop_last() =~= items@.take(i as int));
            assert(items@.take(i as int + 1).last() == items@[i as int]);
        }
        if crate::analysis::ids_contain(selected, items[i].id) {
            v.push(items[i].project_path.clone());
        }
        proof {
            assert(views_of(v@) =~= spec_selected_paths(items@.take(i as int + 1), selected@));
        }
        i += 1;
    }
    proof {
        assert(items@.take(items@.len() as int) =~= items@);
    }
    v
}

/// The progress counters of a fresh delete pass over `n` selected items,
/// behind a notifying lock whose invariant is exactly [`Progress::wf`]:
/// everything is discovered up front and nothing is done yet.
pub fn delete_progress(notify_tx: NotifySender, n: usize) -> (lock: NotifyRwLock<Progress>)
    ensures
        forall|p: Progress| lock.inv(p) == p.wf(),
{
    NotifyRwLock::new_with_inv(notify_tx, Progress::new_delete(n), Ghost(|p: Progress| p.wf()))
}

} // verus!
