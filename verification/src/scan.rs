//! The scan scheduler's decision logic and accounting.
//!
//! Workers drain a dynamically growing queue of directory-scan jobs. For each
//! job the directory's entries are classified ([`classify_entries`]): every
//! subdirectory not on the skip-list becomes a new job, and the presence of
//! the project-manifest marker file makes the directory a project root. A new
//! job is counted in `total` under the progress lock *before* it is sent to
//! the queue ([`publish_jobs`]), so no worker can observe a job whose unit of
//! work is not yet counted; once a directory is fully classified the worker
//! marks one unit done ([`crate::progress::note_one_done`]). Workers stop when every
//! counted unit is done ([`worker_poll`]): the accounting lemmas at the bottom
//! show that under this discipline `scanned == total` holds exactly when no
//! job is outstanding, so stopping then is neither premature nor late.

use crate::notify_rw_lock::{NotifyRwLock, NotifySender};
use crate::progress::Progress;
use crossbeam_channel::{Receiver, Sender};
use vstd::prelude::*;

verus! {

/// Declares `crossbeam_channel::Sender` so the job queue's sending end can
/// stand in signatures; the value is opaque, and only [`send_job`] touches
/// it.
#[verifier::external_type_specification]
#[verifier::external_body]
#[verifier::reject_recursive_types(T)]
pub struct ExCrossbeamSender<T>(Sender<T>);

/// Declares `crossbeam_channel::Receiver` so the job queue's receiving end
/// can stand in signatures; the value is opaque, and only [`try_recv_job`]
/// touches it.
#[verifier::external_type_specification]
#[verifier::external_body]
#[verifier::reject_recursive_types(T)]
pub struct ExCrossbeamReceiver<T>(Receiver<T>);

/// Relies on `crossbeam_channel::Sender::send`: it queues `path` for the
/// workers unless every receiver is gone, and never panics. Which worker
/// takes the job, and when, is not stated.
#[verifier::external_body]
fn send_job(tx: &Sender<String>, path: String) -> (delivered: bool) {
    tx.send(path).is_ok()
}

/// Relies on `crossbeam_channel::Receiver::try_recv`: it never blocks or
/// panics; it yields a queued job if one is available right now, and nothing
/// on a queue that is momentarily empty or disconnected.
#[verifier::external_body]
fn try_recv_job(rx: &Receiver<String>) -> (job: Option<String>) {
    rx.try_recv().ok()
}

/// Directory names excluded from traversal by convention: version-control
/// metadata and the package cache.
pub open spec fn is_skip_name(name: Seq<char>) -> bool {
    name == ".git"@ || name == ".cargo"@
}

/// The project-manifest marker: a file of this name makes its directory a
/// project root.
pub open spec fn is_manifest_name(name: Seq<char>) -> bool {
    name == "Cargo.toml"@
}

/// One entry of a scanned directory, as handed in by the caller that listed
/// it: the entry's bare name, its full path, and whether it is a directory.
pub struct Entry {
    pub name: String,
    pub path: String,
    pub is_dir: bool,
}

/// What classification decides for one directory: the subdirectory paths to
/// enqueue as new jobs, and whether the directory is a project root.
pub struct Classification {
    pub subdirs: Vec<String>,
    pub is_project_root: bool,
}

/// The views of a sequence of strings.
pub open spec fn views_of(s: Seq<String>) -> Seq<Seq<char>> {
    s.map_values(|x: String| x@)
}

/// The paths among `entries` that become jobs: each subdirectory whose name
/// is not on the skip-list, in entry order.
pub open spec fn spec_jobs(entries: Seq<Entry>) -> Seq<Seq<char>>
    decreases entries.len(),
{
    if entries.len() == 0 {
        Seq::empty()
    } else {
        let rest = spec_jobs(entries.drop_last());
        let e = entries.last();
        if e.is_dir && !is_skip_name(e.name@) {
            rest.push(e.path@)
        } else {
            rest
        }
    }
}

/// Whether some file entry is the project-manifest marker.
pub open spec fn spec_has_manifest(entries: Seq<Entry>) -> bool {
    exists|i: int|
        0 <= i < entries.len() && !entries[i].is_dir && is_manifest_name(entries[i].name@)
}

/// Classify one directory's entries: subdirectories not on the skip-list
/// become jobs, and a file named like the project manifest marks a project
/// root. Entries are never reordered.
pub fn classify_entries(entries: &Vec<Entry>) -> (c: Classification)
    ensures
        views_of(c.subdirs@) == spec_jobs(entries@),
        c.is_project_root == spec_has_manifest(entries@),
{
    let git_name = String::from_str(".git");
    let cargo_name = String::from_str(".cargo");
    let manifest_name = String::from_str("Cargo.toml");
    let mut subdirs: Vec<String> = Vec::new();
    let mut found_manifest = false;
    let mut i: usize = 0;
    while i < entries.len()
        invariant
            0 <= i <= entries@.len(),
            git_name@ == ".git"@,
            cargo_name@ == ".cargo"@,
            manifest_name@ == "Cargo.toml"@,
            views_of(subdirs@) == spec_jobs(entries@.take(i as int)),
            found_manifest == spec_has_manifest(entries@.take(i as int)),
        decreases entries@.len() - i,
    {
        let ghost pre = entries@.take(i as int);
        let ghost cur = entries@.take(i as int + 1);
        proof {
            assert(cur.drop_last() =~= pre);
            assert(cur.last() == entries@[i as int]);
        }
        let e = &entries[i];
        if e.is_dir {
            if !(e.name == git_name || e.name == cargo_name) {
                subdirs.push(e.path.clone());
            }
        } else {
            if e.name == manifest_name {
                found_manifest = true;
            }
        }
        proof {
            assert(views_of(subdirs@) =~= spec_jobs(cur));
            if found_manifest == spec_has_manifest(pre) && spec_has_manifest(pre) {
                let j = choose|j: int|
                    0 <= j < pre.len() && !pre[j].is_dir && is_manifest_name(pre[j].name@);
                assert(0 <= j < cur.len() && !cur[j].is_dir && is_manifest_name(cur[j].name@));
            }
            if !entries@[i as int].is_dir && is_manifest_name(entries@[i as int].name@) {
                assert(0 <= i < cur.len() && !cur[i as int].is_dir && is_manifest_name(
                    cur[i as int].name@,
                ));
            }
            assert(found_manifest == spec_has_manifest(cur));
        }
        i += 1;
    }
    proof {
        assert(entries@.take(entries@.len() as int) =~= entries@);
    }
    Classification { subdirs, is_project_root: found_manifest }
}

/// Skip-list respected, one direction: every job produced by classification
/// comes from a subdirectory entry whose name is not on the skip-list. A
/// directory named `.git` or `.cargo` is never turned into a job, and — since
/// only jobs are ever scanned — nothing beneath it can contribute a result.
pub proof fn lemma_skip_list_respected(entries: Seq<Entry>, p: Seq<char>)
    requires
        spec_jobs(entries).contains(p),
    ensures
        exists|i: int|
            0 <= i < entries.len() && entries[i].is_dir && !is_skip_name(entries[i].name@)
                && entries[i].path@ == p,
    decreases entries.len(),
{
    let e = entries.last();
    if e.is_dir && !is_skip_name(e.name@) && e.path@ == p && spec_jobs(entries).last() == p {
        assert(entries[entries.len() - 1] == e);
    }
    if spec_jobs(entries.drop_last()).contains(p) {
        lemma_skip_list_respected(entries.drop_last(), p);
        let i = choose|i: int|
            0 <= i < entries.drop_last().len() && entries.drop_last()[i].is_dir && !is_skip_name(
                entries.drop_last()[i].name@,
            ) && entries.drop_last()[i].path@ == p;
        assert(entries[i] == entries.drop_last()[i]);
    } else {
        assert(spec_jobs(entries).len() > 0 && spec_jobs(entries).last() == p) by {
            let k = choose|k: int| 0 <= k < spec_jobs(entries).len() && spec_jobs(entries)[k] == p;
            if !(e.is_dir && !is_skip_name(e.name@)) {
                assert(spec_jobs(entries) == spec_jobs(entries.drop_last()));
            } else {
                if k < spec_jobs(entries.drop_last()).len() {
                    assert(spec_jobs(entries.drop_last())[k] == p);
                }
            }
        }
    }
}

/// Skip-list respected, other direction: every subdirectory entry not on the
/// skip-list does become a job.
pub proof fn lemma_unskipped_becomes_job(entries: Seq<Entry>, i: int)
    requires
        0 <= i < entries.len(),
        entries[i].is_dir,
        !is_skip_name(entries[i].name@),
    ensures
        spec_jobs(entries).contains(entries[i].path@),
    decreases entries.len(),
{
    if i == entries.len() - 1 {
        assert(spec_jobs(entries).last() == entries[i].path@);
    } else {
        lemma_unskipped_becomes_job(entries.drop_last(), i);
        let rest = spec_jobs(entries.drop_last());
        let k = choose|k: int| 0 <= k < rest.len() && rest[k] == entries.drop_last()[i].path@;
        assert(spec_jobs(entries)[k] == entries[i].path@);
    }
}

/// The progress counters of a fresh scan, behind a notifying lock whose
/// invariant is exactly [`Progress::wf`]: the root directory is the first
/// counted unit of work.
pub fn scan_progress(notify_tx: NotifySender) -> (lock: NotifyRwLock<Progress>)
    ensures
        forall|p: Progress| lock.inv(p) == p.wf(),
{
    NotifyRwLock::new_with_inv(notify_tx, Progress::new_scan(), Ghost(|p: Progress| p.wf()))
}

/// Enqueue the discovered subdirectories as new jobs. Each job's unit of
/// work is counted in `total` under the progress lock — firing a change
/// notification — strictly before the job is sent to the queue, so a worker
/// can never observe a job that is not yet counted and `scanned` can never
/// transiently reach `total` while work remains outstanding.
pub fn publish_jobs(
    progress: &NotifyRwLock<Progress>,
    job_tx: &Sender<String>,
    jobs: &Vec<String>,
)
    requires
        forall|p: Progress| progress.inv(p) == p.wf(),
{
    let mut i: usize = 0;
    while i < jobs.len()
        invariant
            forall|p: Progress| progress.inv(p) == p.wf(),
        decreases jobs@.len() - i,
    {
        let (p, guard) = progress.write();
        guard.release(p.count_discovered());
        let _ = send_job(job_tx, jobs[i].clone());
        i += 1;
    }
}

/// One scheduling decision of a scan worker.
pub enum WorkerPoll {
    /// A job is available: scan this directory next.
    Work(String),
    /// No job is available right now, but counted work is still outstanding:
    /// poll again.
    Idle,
    /// Every counted unit of work is done: the scan is complete and the
    /// worker stops.
    Done,
}

/// The decision a worker takes after observing the queue and the progress
/// counters: work if a job was taken, stop only on completion, idle
/// otherwise.
pub fn poll_decision(job: Option<String>, p: &Progress) -> (r: WorkerPoll)
    ensures
        r == match job {
            Option::Some(path) => WorkerPoll::Work(path),
            Option::None => if p.scanned == p.total {
                WorkerPoll::Done
            } else {
                WorkerPoll::Idle
            },
        },
{
    match job {
        Option::Some(path) => WorkerPoll::Work(path),
        Option::None => {
            if p.is_finished() {
                WorkerPoll::Done
            } else {
                WorkerPoll::Idle
            }
        },
    }
}

/// One worker scheduling step: take an available job from the queue, or read
/// the progress counters under the lock and decide between stopping and
/// polling again, per [`poll_decision`].
pub fn worker_poll(job_rx: &Receiver<String>, progress: &NotifyRwLock<Progress>) -> (r: WorkerPoll)
    requires
        forall|p: Progress| progress.inv(p) == p.wf(),
{
    let job = try_recv_job(job_rx);
    match job {
        Option::Some(path) => WorkerPoll::Work(path),
        Option::None => {
            let guard = progress.read();
            let decision = poll_decision(Option::None, guard.borrow());
            guard.release();
            decision
        },
    }
}

/// One update to a scan's accounting, as performed under the progress lock:
/// the discovery of a new unit of work (counted and enqueued in that order,
/// which is what lets one step model both), or the completion of one.
pub enum ScanStep {
    Discover,
    Finish,
}

/// A scan's abstract accounting state: `total` and `scanned` as the progress
/// counters hold them, and `pending`, the units counted but not yet
/// completed — jobs sitting in the queue or being scanned right now.
pub struct ScanModel {
    pub total: nat,
    pub scanned: nat,
    pub pending: nat,
}

/// The accounting at the start of a scan: the root directory is counted and
/// outstanding.
pub open spec fn scan_init() -> ScanModel {
    ScanModel { total: 1, scanned: 0, pending: 1 }
}

/// The accounting invariant: every counted unit is either done or
/// outstanding.
pub open spec fn scan_inv(m: ScanModel) -> bool {
    m.total == m.scanned + m.pending
}

/// How one accounting update changes the state. A unit can only be finished
/// while one is outstanding.
pub open spec fn scan_step(m: ScanModel, s: ScanStep) -> ScanModel {
    match s {
        ScanStep::Discover => ScanModel {
            total: m.total + 1,
            scanned: m.scanned,
            pending: m.pending + 1,
        },
        ScanStep::Finish => if m.pending > 0 {
            ScanModel {
                total: m.total,
                scanned: m.scanned + 1,
                pending: (m.pending - 1) as nat,
            }
        } else {
            m
        },
    }
}

/// The accounting after a whole history of updates.
pub open spec fn scan_run(m: ScanModel, steps: Seq<ScanStep>) -> ScanModel
    decreases steps.len(),
{
    if steps.len() == 0 {
        m
    } else {
        scan_step(scan_run(m, steps.drop_last()), steps.last())
    }
}

/// Job counting precedes visibility: because a discovered unit enters
/// `total` and the outstanding set together — the counter is bumped before
/// the job can be observed — the accounting invariant survives any history of
/// updates, and so `scanned == total` holds exactly when nothing is
/// outstanding. A worker that observes `scanned == total` is therefore never
/// observing a transient state with work still pending.
pub proof fn lemma_scan_accounting(m: ScanModel, steps: Seq<ScanStep>)
    requires
        scan_inv(m),
    ensures
        scan_inv(scan_run(m, steps)),
        scan_run(m, steps).scanned == scan_run(m, steps).total <==> scan_run(
            m,
            steps,
        ).pending == 0,
    decreases steps.len(),
{
    if steps.len() > 0 {
        lemma_scan_accounting(m, steps.drop_last());
    }
}

/// Progress monotonicity: over any history of accounting updates, `total`
/// and `scanned` never decrease. Applied to every prefix of a scan's
/// history, this is the monotonicity of the two counters over the scan's
/// life.
pub proof fn lemma_scan_monotone(m: ScanModel, steps: Seq<ScanStep>)
    ensures
        scan_run(m, steps).total >= m.total,
        scan_run(m, steps).scanned >= m.scanned,
    decreases steps.len(),
{
    if steps.len() > 0 {
        lemma_scan_monotone(m, steps.drop_last());
    }
}

/// At completion the counters agree: a scan ends when nothing is
/// outstanding, and then `scanned == total` by the accounting invariant.
pub proof fn lemma_finished_exactly(m: ScanModel, steps: Seq<ScanStep>)
    requires
        scan_inv(m),
        scan_run(m, steps).pending == 0,
    ensures
        scan_run(m, steps).scanned == scan_run(m, steps).total,
{
    lemma_scan_accounting(m, steps);
}

} // verus!
