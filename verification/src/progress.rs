//! The `{total, scanned}` pair tracking discovered-vs-completed work units
//! for one scan or one delete pass.
//!
//! `total` counts work units the moment they are discovered, `scanned` counts
//! them once they are done. Both are monotonically non-decreasing over the
//! life of one pass, and `scanned <= total` holds in every correctly
//! synchronized view; the accounting lemmas in [`crate::scan`] make both
//! facts precise over whole histories of updates.

use crate::notify_rw_lock::NotifyRwLock;
use vstd::prelude::*;

verus! {

/// Discovered-vs-completed work counters for one scan or delete pass.
#[derive(Clone, Copy)]
pub struct Progress {
    pub total: usize,
    pub scanned: usize,
}

impl Progress {
    /// The invariant every correctly synchronized view satisfies: completed
    /// work never exceeds discovered work.
    pub open spec fn wf(self) -> bool {
        self.scanned <= self.total
    }

    /// Counters at the start of a scan: the root directory itself is the
    /// first discovered unit of work, and nothing is done yet.
    pub fn new_scan() -> (p: Progress)
        ensures
            p.total == 1,
            p.scanned == 0,
            p.wf(),
    {
        Progress { total: 1, scanned: 0 }
    }

    /// Counters at the start of a delete pass over `n` selected items.
    pub fn new_delete(n: usize) -> (p: Progress)
        ensures
            p.total == n,
            p.scanned == 0,
            p.wf(),
    {
        Progress { total: n, scanned: 0 }
    }

    /// One newly discovered unit of work: `total` grows by one (saturating at
    /// the representable maximum), `scanned` is untouched.
    pub fn count_discovered(self) -> (p: Progress)
        ensures
            p.total == if self.total < usize::MAX {
                self.total + 1
            } else {
                self.total as int
            },
            p.scanned == self.scanned,
            self.total <= p.total,
            self.wf() ==> p.wf(),
    {
        if self.total < usize::MAX {
            Progress { total: self.total + 1, scanned: self.scanned }
        } else {
            self
        }
    }

    /// One unit of work completed: `scanned` grows by one. A completed unit
    /// was always counted first, so a well-formed view has `scanned < total`
    /// here; a view that does not is left unchanged rather than driven past
    /// `total`.
    pub fn complete_one(self) -> (p: Progress)
        ensures
            p.scanned == if self.scanned < self.total {
                self.scanned + 1
            } else {
                self.scanned as int
            },
            p.total == self.total,
            self.scanned <= p.scanned,
            self.wf() ==> p.wf(),
    {
        if self.scanned < self.total {
            Progress { total: self.total, scanned: self.scanned + 1 }
        } else {
            self
        }
    }

    /// Whether the pass this counter tracks has completed every discovered
    /// unit of work.
    pub fn is_finished(&self) -> (b: bool)
        ensures
            b == (self.scanned == self.total),
    {
        self.scanned == self.total
    }

    /// Completion ratio in percent, truncated; an empty pass reads as zero.
    pub fn percent(&self) -> (r: u16)
        requires
            self.wf(),
        ensures
            r == if self.total == 0 {
                0int
            } else {
                (self.scanned as int * 100) / (self.total as int)
            },
            r <= 100,
    {
        if self.total == 0 {
            0
        } else {
            let wide: u128 = (self.scanned as u128) * 100;
            let pct: u128 = wide / (self.total as u128);
            proof {
                let s = self.scanned as int;
                let t = self.total as int;
                assert(s * 100 <= t * 100) by (nonlinear_arith)
                    requires s <= t;
                vstd::arithmetic::div_mod::lemma_div_is_ordered(s * 100, t * 100, t);
                vstd::arithmetic::div_mod::lemma_div_multiples_vanish(100, t);
            }
            pct as u16
        }
    }
}

/// Mark one unit of work done under the progress lock, firing a change
/// notification: called once per scanned directory during a scan — after its
/// entries are classified or its listing failed, project root or not — and
/// once per item during a delete pass.
pub fn note_one_done(progress: &NotifyRwLock<Progress>)
    requires
        forall|p: Progress| progress.inv(p) == p.wf(),
{
    let (p, guard) = progress.write();
    guard.release(p.complete_one());
}

/// The character of one decimal digit.
pub open spec fn spec_digit(d: nat) -> char {
    if d == 0 {
        '0'
    } else if d == 1 {
        '1'
    } else if d == 2 {
        '2'
    } else if d == 3 {
        '3'
    } else if d == 4 {
        '4'
    } else if d == 5 {
        '5'
    } else if d == 6 {
        '6'
    } else if d == 7 {
        '7'
    } else if d == 8 {
        '8'
    } else {
        '9'
    }
}

/// The decimal digits of `n`, most significant first, without leading zeros
/// (a single zero for zero itself).
pub open spec fn spec_dec(n: nat) -> Seq<char>
    decreases n,
{
    if n < 10 {
        seq![spec_digit(n)]
    } else {
        spec_dec(n / 10).push(spec_digit(n % 10))
    }
}

/// `n` spaces.
pub open spec fn spec_spaces(n: nat) -> Seq<char>
    decreases n,
{
    if n == 0 {
        Seq::empty()
    } else {
        spec_spaces((n - 1) as nat).push(' ')
    }
}

/// Right-aligned in a column of width six: shorter texts get spaces in
/// front, longer ones are kept whole.
pub open spec fn spec_pad6(s: Seq<char>) -> Seq<char> {
    if s.len() >= 6 {
        s
    } else {
        spec_spaces((6 - s.len()) as nat) + s
    }
}

fn digit_str(d: usize) -> (s: &'static str)
    requires
        d < 10,
    ensures
        s@ == seq![spec_digit(d as nat)],
{
    let s = match d {
        0 => "0",
        1 => "1",
        2 => "2",
        3 => "3",
        4 => "4",
        5 => "5",
        6 => "6",
        7 => "7",
        8 => "8",
        _ => "9",
    };
    proof {
        reveal_strlit("0");
        reveal_strlit("1");
        reveal_strlit("2");
        reveal_strlit("3");
        reveal_strlit("4");
        reveal_strlit("5");
        reveal_strlit("6");
        reveal_strlit("7");
        reveal_strlit("8");
        reveal_strlit("9");
        assert(s@ =~= seq![spec_digit(d as nat)]);
    }
    s
}

/// `n` in decimal.
pub fn to_decimal(n: usize) -> (s: String)
    ensures
        s@ == spec_dec(n as nat),
    decreases n,
{
    if n < 10 {
        String::from_str(digit_str(n))
    } else {
        proof {
            assert(n / 10 < n) by (nonlinear_arith)
                requires n >= 10;
        }
        let mut s = to_decimal(n / 10);
        s.append(digit_str(n % 10));
        proof {
            assert(spec_dec(n as nat / 10) + seq![spec_digit(n as nat % 10)] =~= spec_dec(
                n as nat,
            ));
        }
        s
    }
}

/// `s` right-aligned in a column of width six.
pub fn pad6(s: String) -> (t: String)
    ensures
        t@ == spec_pad6(s@),
{
    let n = s.as_str().unicode_len();
    let mut t = String::new();
    let mut k: usize = 0;
    let missing: usize = if n >= 6 {
        0
    } else {
        6 - n
    };
    while k < missing
        invariant
            k <= missing,
            t@ == spec_spaces(k as nat),
        decreases missing - k,
    {
        t.append(" ");
        proof {
            reveal_strlit(" ");
            assert(spec_spaces(k as nat) + " "@ =~= spec_spaces(k as nat + 1));
        }
        k += 1;
    }
    t.append(s.as_str());
    proof {
        if s@.len() >= 6 {
            assert(spec_spaces(0) + s@ =~= s@);
        }
    }
    t
}

/// What a caller renders for a scan's progress: `Finished` once every unit
/// is done, otherwise the scanned and total counts in fixed-width columns.
pub fn progress_text(p: &Progress) -> (s: String)
    ensures
        p.scanned == p.total ==> s@ == "Finished"@,
        p.scanned != p.total ==> s@ == "Scanning "@ + spec_pad6(spec_dec(p.scanned as nat))
            + " / "@ + spec_pad6(spec_dec(p.total as nat)),
{
    if p.scanned == p.total {
        String::from_str("Finished")
    } else {
        let mut s = String::from_str("Scanning ");
        let scanned = pad6(to_decimal(p.scanned));
        s.append(scanned.as_str());
        s.append(" / ");
        let total = pad6(to_decimal(p.total));
        s.append(total.as_str());
        s
    }
}

/// What a caller renders for a delete pass's progress: a prompt to dismiss
/// the pass once every item is done, otherwise the counts in fixed-width
/// columns, marked `(dry-run)` when no filesystem mutation is performed.
pub fn delete_progress_text(p: &Progress, dry_run: bool) -> (s: String)
    ensures
        p.scanned == p.total ==> s@ == "Finished Please Push 'd'"@,
        p.scanned != p.total ==> s@ == "Deleting "@ + spec_pad6(spec_dec(p.scanned as nat))
            + " / "@ + spec_pad6(spec_dec(p.total as nat)) + " "@ + if dry_run {
            "(dry-run)"@
        } else {
            ""@
        },
{
    if p.scanned == p.total {
        String::from_str("Finished Please Push 'd'")
    } else {
        let mut s = String::from_str("Deleting ");
        let scanned = pad6(to_decimal(p.scanned));
        s.append(scanned.as_str());
        s.append(" / ");
        let total = pad6(to_decimal(p.total));
        s.append(total.as_str());
        s.append(" ");
        if dry_run {
            s.append("(dry-run)");
        } else {
            s.append("");
        }
        s
    }
}

} // verus!
