//! The accounting of the cleanup engine: totals over the discovered
//! targets, which targets a command acts on, the running tally of a
//! cleanup pass and the summary over several passes.
//!
//! The application walks the target folders and deletes the files; it
//! reports what happened to each file as a [`FileOutcome`].

use vstd::prelude::*;
use crate::targets::{safe_size, safe_size_total, target_views};
use crate::text::string_views;
use crate::types::{CleanupResult, CleanupTarget, CleanupTargetView};

verus! {

// ── Totals over the targets ──────────────────────────────────────────────

/// The summed size of the targets.
pub open spec fn size_total(ts: Seq<CleanupTargetView>) -> nat
    decreases ts.len(),
{
    if ts.len() == 0 {
        0
    } else {
        size_total(ts.drop_last()) + ts.last().size_bytes as nat
    }
}

/// The summed file count of the targets.
pub open spec fn file_total(ts: Seq<CleanupTargetView>) -> nat
    decreases ts.len(),
{
    if ts.len() == 0 {
        0
    } else {
        file_total(ts.drop_last()) + ts.last().file_count as nat
    }
}

pub proof fn lemma_totals_prefix(ts: Seq<CleanupTargetView>, i: int)
    requires
        0 <= i <= ts.len(),
    ensures
        size_total(ts.take(i)) <= size_total(ts),
        file_total(ts.take(i)) <= file_total(ts),
    decreases ts.len() - i,
{
    if i < ts.len() {
        lemma_totals_prefix(ts, i + 1);
        assert(ts.take(i + 1).drop_last() =~= ts.take(i));
    } else {
        assert(ts.take(i) =~= ts);
    }
}

/// The safe targets never weigh more than all the targets.
pub proof fn lemma_safe_within_total(ts: Seq<CleanupTargetView>)
    ensures
        safe_size_total(ts) <= size_total(ts),
    decreases ts.len(),
{
    if ts.len() > 0 {
        lemma_safe_within_total(ts.drop_last());
    }
}

/// What the cleanup screen reports about the targets found.
pub struct CleanupTotals {
    pub total_size: u64,
    pub total_files: usize,
    pub safe_size: u64,
}

impl CleanupTotals {
    /// The note on administrator rights is shown when some of the space
    /// found is not safe to delete.
    pub fn needs_admin_note(&self) -> (b: bool)
        ensures
            b == (self.total_size != self.safe_size),
    {
        self.total_size != self.safe_size
    }
}

/// The total size, total file count and safe size of the targets.
pub fn cleanup_totals(targets: &Vec<CleanupTarget>) -> (t: CleanupTotals)
    requires
        size_total(target_views(targets@)) <= u64::MAX,
        file_total(target_views(targets@)) <= usize::MAX,
    ensures
        t.total_size == size_total(target_views(targets@)),
        t.total_files == file_total(target_views(targets@)),
        t.safe_size == safe_size_total(target_views(targets@)),
        t.safe_size <= t.total_size,
{
    let ghost views = target_views(targets@);
    let mut size: u64 = 0;
    let mut files: usize = 0;
    let mut i: usize = 0;
    while i < targets.len()
        invariant
            i <= targets.len(),
            views == target_views(targets@),
            size_total(views) <= u64::MAX,
            file_total(views) <= usize::MAX,
            size == size_total(views.take(i as int)),
            files == file_total(views.take(i as int)),
        decreases targets.len() - i,
    {
        assert(views.take(i + 1).drop_last() =~= views.take(i as int));
        proof {
            lemma_totals_prefix(views, i + 1);
        }
        size = size + targets[i].size_bytes;
        files = files + targets[i].file_count;
        i = i + 1;
    }
    assert(views.take(i as int) =~= views);
    proof {
        lemma_safe_within_total(views);
    }
    let safe = safe_size(targets);
    CleanupTotals { total_size: size, total_files: files, safe_size: safe }
}

// ── What a command acts on ───────────────────────────────────────────────

/// The positions of the safe targets, in order.
pub open spec fn safe_positions(ts: Seq<CleanupTargetView>) -> Seq<usize>
    decreases ts.len(),
{
    if ts.len() == 0 {
        seq![]
    } else if ts.last().is_safe {
        safe_positions(ts.drop_last()).push((ts.len() - 1) as usize)
    } else {
        safe_positions(ts.drop_last())
    }
}

/// The positions of the safe targets are exactly the safe ones: each names
/// a safe target, they strictly increase, and no safe target is missing.
pub proof fn lemma_safe_positions_exact(ts: Seq<CleanupTargetView>)
    requires
        ts.len() <= usize::MAX,
    ensures
        forall|k: int|
            0 <= k < safe_positions(ts).len() ==> #[trigger] safe_positions(ts)[k] < ts.len()
                && ts[safe_positions(ts)[k] as int].is_safe,
        forall|k: int, l: int|
            0 <= k < l < safe_positions(ts).len() ==> #[trigger] safe_positions(ts)[k]
                < #[trigger] safe_positions(ts)[l],
        forall|i: int| 0 <= i < ts.len() && (#[trigger] ts[i]).is_safe ==> safe_positions(ts).contains(
            i as usize,
        ),
    decreases ts.len(),
{
    if ts.len() > 0 {
        let rest = ts.drop_last();
        lemma_safe_positions_exact(rest);
        let sp = safe_positions(ts);
        let rp = safe_positions(rest);
        assert forall|k: int| 0 <= k < rp.len() implies #[trigger] rp[k] < rest.len() && ts[rp[k] as int].is_safe by {
            assert(rest[rp[k] as int] == ts[rp[k] as int]);
        }
        assert forall|i: int| 0 <= i < ts.len() && (#[trigger] ts[i]).is_safe implies sp.contains(i as usize) by {
            if i < ts.len() - 1 {
                assert(rest[i] == ts[i]);
                assert(rp.contains(i as usize));
                let w = choose|w: int| 0 <= w < rp.len() && rp[w] == i as usize;
                assert(sp[w] == rp[w]);
            } else {
                assert(ts.last() == ts[i]);
                assert(sp[sp.len() - 1] == i as usize);
            }
        }
    }
}

/// The positions of the targets that "delete all" and the dry run act on:
/// the safe ones, in order.
pub fn safe_indices(targets: &Vec<CleanupTarget>) -> (idx: Vec<usize>)
    ensures
        idx@ == safe_positions(target_views(targets@)),
        forall|k: int|
            0 <= k < idx@.len() ==> #[trigger] idx@[k] < targets@.len() && targets@[idx@[k] as int].is_safe,
        forall|k: int, l: int| 0 <= k < l < idx@.len() ==> #[trigger] idx@[k] < #[trigger] idx@[l],
        forall|i: int| 0 <= i < targets@.len() && (#[trigger] targets@[i]).is_safe ==> idx@.contains(
            i as usize,
        ),
{
    let ghost views = target_views(targets@);
    let mut idx: Vec<usize> = Vec::new();
    let mut i: usize = 0;
    while i < targets.len()
        invariant
            i <= targets.len(),
            views == target_views(targets@),
            idx@ == safe_positions(views.take(i as int)),
        decreases targets.len() - i,
    {
        assert(views.take(i + 1).drop_last() =~= views.take(i as int));
        if targets[i].is_safe {
            idx.push(i);
        }
        i = i + 1;
    }
    assert(views.take(i as int) =~= views);
    proof {
        lemma_safe_positions_exact(views);
        assert forall|k: int| 0 <= k < idx@.len() implies #[trigger] idx@[k] < targets@.len()
            && targets@[idx@[k] as int].is_safe by {
            assert(views[idx@[k] as int] == targets@[idx@[k] as int]@);
        }
        assert forall|i: int| 0 <= i < targets@.len() && (#[trigger] targets@[i]).is_safe implies idx@.contains(
            i as usize,
        ) by {
            assert(views[i] == targets@[i]@);
        }
    }
    idx
}

/// The targets at the given positions.
pub open spec fn selected(ts: Seq<CleanupTargetView>, idx: Seq<usize>) -> Seq<CleanupTargetView> {
    idx.map_values(|i: usize| ts[i as int])
}

/// The summed size of the targets at the given positions.
pub fn selection_size(targets: &Vec<CleanupTarget>, indices: &Vec<usize>) -> (size: u64)
    requires
        forall|k: int| 0 <= k < indices@.len() ==> #[trigger] indices@[k] < targets@.len(),
        size_total(selected(target_views(targets@), indices@)) <= u64::MAX,
    ensures
        size == size_total(selected(target_views(targets@), indices@)),
{
    let ghost sel = selected(target_views(targets@), indices@);
    let mut size: u64 = 0;
    let mut k: usize = 0;
    while k < indices.len()
        invariant
            k <= indices.len(),
            sel == selected(target_views(targets@), indices@),
            forall|j: int| 0 <= j < indices@.len() ==> #[trigger] indices@[j] < targets@.len(),
            size_total(sel) <= u64::MAX,
            size == size_total(sel.take(k as int)),
        decreases indices.len() - k,
    {
        assert(sel.take(k + 1).drop_last() =~= sel.take(k as int));
        proof {
            lemma_totals_prefix(sel, k + 1);
        }
        let i = indices[k];
        size = size + targets[i].size_bytes;
        k = k + 1;
    }
    assert(sel.take(k as int) =~= sel);
    size
}

// ── A cleanup pass ───────────────────────────────────────────────────────

/// The most error messages a cleanup pass keeps.
pub const MAX_KEPT_ERRORS: usize = 5;

/// What became of one regular file found under a target.
#[derive(Debug, Clone)]
pub enum FileOutcome {
    /// Its metadata could not be read; it is left alone and not counted.
    Unreadable,
    /// It was deleted (or, in a dry run, would be): its size is freed.
    Freed(u64),
    /// Deleting it failed, with this message.
    Failed(String),
}

/// The counters of a cleanup pass.
pub struct PassTally {
    pub freed_bytes: nat,
    pub files_deleted: nat,
    pub files_failed: nat,
    pub errors: Seq<Seq<char>>,
}

/// The counters that a cleanup result holds.
pub open spec fn pass_tally_of(r: CleanupResult) -> PassTally {
    PassTally {
        freed_bytes: r.freed_bytes as nat,
        files_deleted: r.files_deleted as nat,
        files_failed: r.files_failed as nat,
        errors: string_views(r.errors@),
    }
}

/// The counters after one more file: a freed file adds its size and counts
/// as deleted; a failure counts as failed, and its message is kept while
/// fewer than five are.
pub open spec fn after_outcome(t: PassTally, o: FileOutcome) -> PassTally {
    match o {
        FileOutcome::Unreadable => t,
        FileOutcome::Freed(size) => PassTally {
            freed_bytes: t.freed_bytes + size as nat,
            files_deleted: t.files_deleted + 1,
            ..t
        },
        FileOutcome::Failed(message) => PassTally {
            files_failed: t.files_failed + 1,
            errors: if t.errors.len() < MAX_KEPT_ERRORS {
                t.errors.push(message@)
            } else {
                t.errors
            },
            ..t
        },
    }
}

/// The counters after a whole pass, starting from zero.
pub open spec fn pass_tally(outcomes: Seq<FileOutcome>) -> PassTally
    decreases outcomes.len(),
{
    if outcomes.len() == 0 {
        PassTally { freed_bytes: 0, files_deleted: 0, files_failed: 0, errors: seq![] }
    } else {
        after_outcome(pass_tally(outcomes.drop_last()), outcomes.last())
    }
}

/// The summed size of the freed files.
pub open spec fn freed_size(outcomes: Seq<FileOutcome>) -> nat
    decreases outcomes.len(),
{
    if outcomes.len() == 0 {
        0
    } else {
        freed_size(outcomes.drop_last()) + match outcomes.last() {
            FileOutcome::Freed(size) => size as nat,
            _ => 0,
        }
    }
}

/// How many files had readable metadata.
pub open spec fn readable_count(outcomes: Seq<FileOutcome>) -> nat
    decreases outcomes.len(),
{
    if outcomes.len() == 0 {
        0
    } else {
        readable_count(outcomes.drop_last()) + match outcomes.last() {
            FileOutcome::Unreadable => 0nat,
            _ => 1nat,
        }
    }
}

/// The messages of all the failures, in order.
pub open spec fn failure_messages(outcomes: Seq<FileOutcome>) -> Seq<Seq<char>>
    decreases outcomes.len(),
{
    if outcomes.len() == 0 {
        seq![]
    } else {
        match outcomes.last() {
            FileOutcome::Failed(message) => failure_messages(outcomes.drop_last()).push(message@),
            _ => failure_messages(outcomes.drop_last()),
        }
    }
}

/// Over a whole pass: the freed bytes are the sizes of the freed files,
/// every readable file is counted as deleted or failed, and the kept error
/// messages are the first five failures (all of them if fewer).
pub proof fn lemma_pass_tally(outcomes: Seq<FileOutcome>)
    ensures
        pass_tally(outcomes).freed_bytes == freed_size(outcomes),
        pass_tally(outcomes).files_deleted + pass_tally(outcomes).files_failed == readable_count(
            outcomes,
        ),
        pass_tally(outcomes).errors == failure_messages(outcomes).take(
            if failure_messages(outcomes).len() < MAX_KEPT_ERRORS {
                failure_messages(outcomes).len() as int
            } else {
                MAX_KEPT_ERRORS as int
            },
        ),
        pass_tally(outcomes).errors.len() <= MAX_KEPT_ERRORS,
    decreases outcomes.len(),
{
    if outcomes.len() == 0 {
        assert(failure_messages(outcomes).take(0) =~= Seq::<Seq<char>>::empty());
    } else {
        let prev = outcomes.drop_last();
        lemma_pass_tally(prev);
        let fm = failure_messages(prev);
        match outcomes.last() {
            FileOutcome::Failed(message) => {
                if fm.len() < MAX_KEPT_ERRORS {
                    assert(fm.take(fm.len() as int) =~= fm);
                    assert(fm.push(message@).take(fm.len() as int + 1) =~= fm.push(message@));
                } else {
                    assert(fm.push(message@).take(MAX_KEPT_ERRORS as int) =~= fm.take(
                        MAX_KEPT_ERRORS as int,
                    ));
                }
            },
            _ => {},
        }
    }
}

impl CleanupResult {
    /// The result of a cleanup pass over the target `target_id` before any
    /// file has been handled.
    pub fn new(target_id: String) -> (r: CleanupResult)
        ensures
            r.target_id@ == target_id@,
            pass_tally_of(r) == pass_tally(Seq::<FileOutcome>::empty()),
    {
        let r = CleanupResult {
            target_id,
            freed_bytes: 0,
            files_deleted: 0,
            files_failed: 0,
            errors: Vec::new(),
        };
        assert(string_views(r.errors@) =~= Seq::<Seq<char>>::empty());
        r
    }

    /// Accounts for one more file (see [`after_outcome`]).
    pub fn record(&mut self, outcome: FileOutcome)
        requires
            match outcome {
                FileOutcome::Freed(size) => old(self).freed_bytes + size <= u64::MAX
                    && old(self).files_deleted < usize::MAX,
                FileOutcome::Failed(_) => old(self).files_failed < usize::MAX,
                FileOutcome::Unreadable => true,
            },
        ensures
            final(self).target_id == old(self).target_id,
            pass_tally_of(*final(self)) == after_outcome(pass_tally_of(*old(self)), outcome),
    {
        match outcome {
            FileOutcome::Unreadable => {},
            FileOutcome::Freed(size) => {
                self.freed_bytes = self.freed_bytes + size;
                self.files_deleted = self.files_deleted + 1;
            },
            FileOutcome::Failed(message) => {
                self.files_failed = self.files_failed + 1;
                if self.errors.len() < MAX_KEPT_ERRORS {
                    let ghost before = self.errors@;
                    self.errors.push(message);
                    assert(string_views(self.errors@) =~= string_views(before).push(
                        self.errors@[before.len() as int]@,
                    ));
                }
            },
        }
    }
}

/// Whether the progress line is redrawn before handling file `i` of
/// `total`: every hundredth file and the last one.
pub fn progress_due(i: usize, total: usize) -> (due: bool)
    requires
        i < total,
    ensures
        due == (i % 100 == 0 || i == total - 1),
{
    i % 100 == 0 || i == total - 1
}

// ── Summary over several passes ──────────────────────────────────────────

/// What the summary after a cleanup reports.
pub struct CleanupSummary {
    pub total_freed: u64,
    pub total_deleted: usize,
    pub total_failed: usize,
    /// The first five error messages over all passes, in order.
    pub first_errors: Vec<String>,
}

pub open spec fn freed_sum(rs: Seq<CleanupResult>) -> nat
    decreases rs.len(),
{
    if rs.len() == 0 {
        0
    } else {
        freed_sum(rs.drop_last()) + rs.last().freed_bytes as nat
    }
}

pub open spec fn deleted_sum(rs: Seq<CleanupResult>) -> nat
    decreases rs.len(),
{
    if rs.len() == 0 {
        0
    } else {
        deleted_sum(rs.drop_last()) + rs.last().files_deleted as nat
    }
}

pub open spec fn failed_sum(rs: Seq<CleanupResult>) -> nat
    decreases rs.len(),
{
    if rs.len() == 0 {
        0
    } else {
        failed_sum(rs.drop_last()) + rs.last().files_failed as nat
    }
}

/// The error messages of all the passes, in order.
pub open spec fn all_errors(rs: Seq<CleanupResult>) -> Seq<Seq<char>>
    decreases rs.len(),
{
    if rs.len() == 0 {
        seq![]
    } else {
        all_errors(rs.drop_last()) + string_views(rs.last().errors@)
    }
}

proof fn lemma_sums_prefix(rs: Seq<CleanupResult>, i: int)
    requires
        0 <= i <= rs.len(),
    ensures
        freed_sum(rs.take(i)) <= freed_sum(rs),
        deleted_sum(rs.take(i)) <= deleted_sum(rs),
        failed_sum(rs.take(i)) <= failed_sum(rs),
    decreases rs.len() - i,
{
    if i < rs.len() {
        lemma_sums_prefix(rs, i + 1);
        assert(rs.take(i + 1).drop_last() =~= rs.take(i));
    } else {
        assert(rs.take(i) =~= rs);
    }
}

/// Totals over the cleanup passes and their first five error messages.
pub fn summarize_results(results: &Vec<CleanupResult>) -> (s: CleanupSummary)
    requires
        freed_sum(results@) <= u64::MAX,
        deleted_sum(results@) <= usize::MAX,
        failed_sum(results@) <= usize::MAX,
    ensures
        s.total_freed == freed_sum(results@),
        s.total_deleted == deleted_sum(results@),
        s.total_failed == failed_sum(results@),
        string_views(s.first_errors@) == all_errors(results@).take(
            if all_errors(results@).len() < 5 {
                all_errors(results@).len() as int
            } else {
                5
            },
        ),
{
    let ghost rs = results@;
    let mut freed: u64 = 0;
    let mut deleted: usize = 0;
    let mut failed: usize = 0;
    let mut errors: Vec<String> = Vec::new();
    let mut i: usize = 0;
    assert(rs.take(0) =~= Seq::<CleanupResult>::empty());
    assert(string_views(errors@) =~= Seq::<Seq<char>>::empty());
    while i < results.len()
        invariant
            i <= results.len(),
            rs == results@,
            freed_sum(rs) <= u64::MAX,
            deleted_sum(rs) <= usize::MAX,
            failed_sum(rs) <= usize::MAX,
            freed == freed_sum(rs.take(i as int)),
            deleted == deleted_sum(rs.take(i as int)),
            failed == failed_sum(rs.take(i as int)),
            errors@.len() <= 5,
            string_views(errors@) == all_errors(rs.take(i as int)).take(
                if all_errors(rs.take(i as int)).len() < 5 {
                    all_errors(rs.take(i as int)).len() as int
                } else {
                    5
                },
            ),
        decreases results.len() - i,
    {
        let ghost prior = all_errors(rs.take(i as int));
        assert(rs.take(i + 1).drop_last() =~= rs.take(i as int));
        assert(rs.take(i + 1).last() == rs[i as int]);
        proof {
            lemma_sums_prefix(rs, i + 1);
        }
        freed = freed + results[i].freed_bytes;
        deleted = deleted + results[i].files_deleted;
        failed = failed + results[i].files_failed;
        let ghost mine = string_views(results[i as int].errors@);
        let mut k: usize = 0;
        while k < results[i].errors.len() && errors.len() < 5
            invariant
                i < results.len(),
                rs == results@,
                mine == string_views(rs[i as int].errors@),
                k <= mine.len(),
                errors@.len() <= 5,
                errors@.len() < 5 ==> string_views(errors@) == (prior + mine.take(k as int)),
                string_views(errors@) == (prior + mine.take(k as int)).take(
                    if (prior + mine.take(k as int)).len() < 5 {
                        (prior + mine.take(k as int)).len() as int
                    } else {
                        5
                    },
                ),
            decreases mine.len() - k,
        {
            let ghost before = string_views(errors@);
            errors.push(results[i].errors[k].clone());
            assert(mine.take(k + 1) =~= mine.take(k as int).push(mine[k as int]));
            assert(string_views(errors@) =~= before.push(mine[k as int]));
            assert(prior + mine.take(k + 1) =~= (prior + mine.take(k as int)).push(mine[k as int]));
            k = k + 1;
        }
        proof {
            let upto = prior + mine.take(k as int);
            let whole = prior + mine;
            assert(all_errors(rs.take(i + 1)) =~= whole);
            if errors@.len() < 5 {
                assert(k == mine.len());
                assert(mine.take(k as int) =~= mine);
            } else {
                assert(upto.len() >= 5);
                assert(whole.take(5) =~= upto.take(5));
            }
        }
        i = i + 1;
    }
    assert(rs.take(i as int) =~= rs);
    CleanupSummary {
        total_freed: freed,
        total_deleted: deleted,
        total_failed: failed,
        first_errors: errors,
    }
}

} // verus!
