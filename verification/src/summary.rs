//! Per-repository outcomes and their aggregation into the run
//! summary.
//!
//! Workers return one outcome per repository; a single collector
//! merges them, so no lock guards the counters. A repository on the
//! ignore list is dropped before any work is dispatched for it and
//! never counts as processed; every synchronized or failed
//! repository counts, and every failure is kept with the
//! repository's full name and the underlying cause.

use vstd::prelude::*;

use crate::mirror::{is_terminal, MirrorPhase};
use crate::repo::Repo;

verus! {

/// Why a repository was skipped without being processed.
#[derive(Clone, Copy, Debug, PartialEq, Eq, Structural)]
pub enum SkipReason {
    /// Its full name is on the ignore list.
    IgnoreListed,
}

/// One recorded failure: the repository's full name and the failure
/// text.
#[derive(Clone, Debug)]
pub struct SyncFailure {
    pub full_name: String,
    pub message: String,
}

/// The outcome of one repository's synchronization attempt.
#[derive(Clone, Debug)]
pub enum SyncOutcome {
    /// The mirror was brought up to date (or was benignly left
    /// alone).
    Synced,
    /// The repository was not processed at all.
    Skipped(SkipReason),
    /// The synchronization failed.
    Failed(SyncFailure),
}

/// Whether `full_name` occurs among `names`.
pub open spec fn name_listed(names: Seq<String>, full_name: Seq<char>) -> bool {
    exists|i: int| 0 <= i < names.len() && names[i]@ == full_name
}

/// Whether the repository's full name is on the ignore list.
pub fn is_ignored(repo: &Repo, ignore: &Vec<String>) -> (b: bool)
    ensures
        b == name_listed(ignore@, repo.full_name@),
{
    let n = ignore.len();
    let mut i: usize = 0;
    while i < n
        invariant
            0 <= i <= n == ignore@.len(),
            forall|j: int| 0 <= j < i ==> ignore@[j]@ != repo.full_name@,
        decreases n - i,
    {
        if ignore[i].eq(&repo.full_name) {
            return true;
        }
        i += 1;
    }
    false
}

/// The repositories of `repos` that are not ignored, in their
/// original order.
pub open spec fn spec_screen(repos: Seq<Repo>, ignore: Seq<String>) -> Seq<Repo>
    decreases repos.len(),
{
    if repos.len() == 0 {
        Seq::empty()
    } else {
        let rest = spec_screen(repos.drop_last(), ignore);
        if name_listed(ignore, repos.last().full_name@) {
            rest
        } else {
            rest.push(repos.last())
        }
    }
}

/// Drops every ignored repository from a batch before it is
/// dispatched, keeping the others in order.
pub fn plan_batch(repos: Vec<Repo>, ignore: &Vec<String>) -> (kept: Vec<Repo>)
    ensures
        kept@ == spec_screen(repos@, ignore@),
{
    let mut kept: Vec<Repo> = Vec::new();
    let mut rest = repos;
    let ghost all = rest@;
    let total: usize = rest.len();
    let mut i: usize = 0;
    proof {
        assert(all.take(0) =~= Seq::<Repo>::empty());
    }
    while rest.len() > 0
        invariant
            rest@ == all.skip(i as int),
            0 <= i <= all.len() == total,
            i == all.len() - rest@.len(),
            kept@ == spec_screen(all.take(i as int), ignore@),
        decreases rest@.len(),
    {
        let r = rest.remove(0);
        proof {
            assert(r == all[i as int]);
            assert(rest@ =~= all.skip(i as int + 1));
            assert(all.take(i as int + 1).drop_last() =~= all.take(i as int));
            assert(all.take(i as int + 1).last() == all[i as int]);
        }
        if !is_ignored(&r, ignore) {
            kept.push(r);
        }
        i += 1;
    }
    proof {
        assert(all.take(all.len() as int) =~= all);
    }
    kept
}

/// An ignored repository is never in the dispatched batch: nothing
/// with its full name survives the screening.
pub proof fn lemma_ignored_never_dispatched(repos: Seq<Repo>, ignore: Seq<String>, full_name: Seq<
    char,
>)
    requires
        name_listed(ignore, full_name),
    ensures
        forall|j: int| 0 <= j < spec_screen(repos, ignore).len() ==> (#[trigger] spec_screen(
            repos,
            ignore,
        )[j]).full_name@ != full_name,
    decreases repos.len(),
{
    if repos.len() > 0 {
        lemma_ignored_never_dispatched(repos.drop_last(), ignore, full_name);
        let scr = spec_screen(repos, ignore);
        let rest = spec_screen(repos.drop_last(), ignore);
        assert forall|j: int| 0 <= j < scr.len() implies (#[trigger] scr[j]).full_name@
            != full_name by {
            if j < rest.len() {
                assert(scr[j] == rest[j]);
            } else {
                assert(scr[j] == repos.last());
            }
        }
    }
}

/// How many of the outcomes were processed: every synchronized or
/// failed repository counts, a skipped one does not.
pub open spec fn processed_of(os: Seq<SyncOutcome>) -> int
    decreases os.len(),
{
    if os.len() == 0 {
        0
    } else {
        processed_of(os.drop_last()) + (if os.last() is Skipped {
            0int
        } else {
            1int
        })
    }
}

/// How many of the outcomes were skipped.
pub open spec fn skipped_of(os: Seq<SyncOutcome>) -> int
    decreases os.len(),
{
    if os.len() == 0 {
        0
    } else {
        skipped_of(os.drop_last()) + (if os.last() is Skipped {
            1int
        } else {
            0int
        })
    }
}

/// The failures among the outcomes, in order.
pub open spec fn failures_of(os: Seq<SyncOutcome>) -> Seq<SyncFailure>
    decreases os.len(),
{
    if os.len() == 0 {
        Seq::empty()
    } else {
        let rest = failures_of(os.drop_last());
        match os.last() {
            SyncOutcome::Failed(f) => rest.push(f),
            _ => rest,
        }
    }
}

/// The failure text of one repository's synchronization:
/// `[<full name>] failed sync - <cause>`.
pub open spec fn spec_failure_message(full_name: Seq<char>, cause: Seq<char>) -> Seq<char> {
    "["@ + full_name + "] failed sync - "@ + cause
}

/// Builds the failure record for one repository from the underlying
/// cause.
pub fn failure_for(full_name: &str, cause: &str) -> (f: SyncFailure)
    ensures
        f.full_name@ == full_name@,
        f.message@ == spec_failure_message(full_name@, cause@),
{
    let mut m = String::new();
    m.append("[");
    m.append(full_name);
    m.append("] failed sync - ");
    m.append(cause);
    proof {
        assert(m@ =~= spec_failure_message(full_name@, cause@));
    }
    SyncFailure { full_name: String::from_str(full_name), message: m }
}

/// The outcome of one synchronization that ran to its end: success
/// when the machine is done — a benign empty-remote end included —
/// and a tagged failure otherwise.
pub fn outcome_for(repo: &Repo, end: MirrorPhase) -> (o: SyncOutcome)
    requires
        is_terminal(end),
    ensures
        end is Done ==> o == SyncOutcome::Synced,
        end matches MirrorPhase::Failed(cause) ==> (o matches SyncOutcome::Failed(f)
            && f.full_name@ == repo.full_name@ && f.message@ == spec_failure_message(
            repo.full_name@,
            cause@,
        )),
{
    match end {
        MirrorPhase::Failed(cause) => SyncOutcome::Failed(
            failure_for(repo.full_name.as_str(), cause.as_str()),
        ),
        _ => SyncOutcome::Synced,
    }
}

/// The aggregate of one run: how many repositories were processed,
/// and which failed with what cause.
pub struct RunSummary {
    pub processed: u64,
    pub failures: Vec<SyncFailure>,
}

impl RunSummary {
    /// An empty summary: nothing processed, nothing failed.
    pub fn new() -> (s: RunSummary)
        ensures
            s.processed == 0,
            s.failures@ == Seq::<SyncFailure>::empty(),
    {
        let s = RunSummary { processed: 0, failures: Vec::new() };
        proof {
            assert(s.failures@ =~= Seq::<SyncFailure>::empty());
        }
        s
    }

    /// Records one outcome: a skipped repository changes nothing, a
    /// synchronized one counts as processed, a failed one counts as
    /// processed and keeps its failure.
    pub fn record(&mut self, outcome: SyncOutcome)
        requires
            old(self).processed < u64::MAX,
        ensures
            match outcome {
                SyncOutcome::Skipped(_) => final(self).processed == old(self).processed && final(self).failures@ == old(self).failures@,
                SyncOutcome::Synced => final(self).processed == old(self).processed + 1 && final(self).failures@ == old(self).failures@,
                SyncOutcome::Failed(f) => final(self).processed == old(self).processed + 1 && final(self).failures@ == old(self).failures@.push(f),
            },
    {
        match outcome {
            SyncOutcome::Skipped(_) => {
            },
            SyncOutcome::Synced => {
                self.processed = self.processed + 1;
            },
            SyncOutcome::Failed(f) => {
                self.processed = self.processed + 1;
                self.failures.push(f);
            },
        }
    }

    /// Records a failure that arose before any synchronization was
    /// dispatched (a failed explicit lookup): it is kept, but counts
    /// nothing as processed.
    pub fn add_failure(&mut self, f: SyncFailure)
        ensures
            final(self).processed == old(self).processed,
            final(self).failures@ == old(self).failures@.push(f),
    {
        self.failures.push(f);
    }

    /// Merges another summary into this one: the counts add and the
    /// failures concatenate.
    pub fn merge(&mut self, other: RunSummary)
        requires
            old(self).processed + other.processed <= u64::MAX,
        ensures
            final(self).processed == old(self).processed + other.processed,
            final(self).failures@ == old(self).failures@ + other.failures@,
    {
        self.processed = self.processed + other.processed;
        let mut rest = other.failures;
        let ghost more = rest@;
        let ghost start = self.failures@;
        let total: usize = rest.len();
        let mut i: usize = 0;
        proof {
            assert(self.failures@ =~= start + more.take(0));
        }
        while rest.len() > 0
            invariant
                rest@ == more.skip(i as int),
                0 <= i <= more.len() == total,
                self.failures@ == start + more.take(i as int),
                self.processed == old(self).processed + other.processed,
            decreases rest@.len(),
        {
            let f = rest.remove(0);
            proof {
                assert(f == more[i as int]);
                assert(rest@ =~= more.skip(i as int + 1));
            }
            self.failures.push(f);
            proof {
                assert(start + more.take(i as int + 1) =~= (start + more.take(i as int)).push(f));
            }
            i += 1;
        }
        proof {
            assert(more.take(more.len() as int) =~= more);
        }
    }

    /// Whether any failure was recorded; the run's exit status is
    /// bad exactly then.
    pub fn has_failures(&self) -> (b: bool)
        ensures
            b == (self.failures@.len() > 0),
    {
        self.failures.len() > 0
    }
}

/// Builds the summary of a batch of outcomes: the processed count
/// and the failure list are exactly those of the outcomes.
pub fn summarize(outcomes: Vec<SyncOutcome>) -> (s: RunSummary)
    ensures
        s.processed == processed_of(outcomes@),
        s.failures@ == failures_of(outcomes@),
{
    let ghost all = outcomes@;
    let mut rest = outcomes;
    let mut s = RunSummary::new();
    let total: usize = rest.len();
    let mut i: usize = 0;
    proof {
        lemma_processed_bounds(all.take(0));
        assert(all.take(0) =~= Seq::<SyncOutcome>::empty());
    }
    while rest.len() > 0
        invariant
            rest@ == all.skip(i as int),
            0 <= i <= all.len() == total,
            s.processed == processed_of(all.take(i as int)),
            s.failures@ == failures_of(all.take(i as int)),
        decreases rest@.len(),
    {
        let o = rest.remove(0);
        proof {
            assert(o == all[i as int]);
            assert(rest@ =~= all.skip(i as int + 1));
            assert(all.take(i as int + 1).drop_last() =~= all.take(i as int));
            assert(all.take(i as int + 1).last() == all[i as int]);
            lemma_processed_bounds(all.take(i as int));
            lemma_processed_bounds(all.take(i as int + 1));
        }
        s.record(o);
        i += 1;
    }
    proof {
        assert(all.take(all.len() as int) =~= all);
    }
    s
}

/// The counts are internally consistent: processed and skipped
/// outcomes partition the batch, and there are never more failures
/// than processed repositories.
pub proof fn lemma_processed_bounds(os: Seq<SyncOutcome>)
    ensures
        0 <= processed_of(os),
        0 <= skipped_of(os),
        processed_of(os) + skipped_of(os) == os.len(),
        failures_of(os).len() <= processed_of(os),
    decreases os.len(),
{
    if os.len() > 0 {
        lemma_processed_bounds(os.drop_last());
    }
}

/// Merging the summaries of two batches gives the summary of the
/// two batches together: outcomes may be collected in any grouping
/// — one worker's results at a time — without changing the counts
/// or losing a failure.
pub proof fn lemma_summary_merge(a: Seq<SyncOutcome>, b: Seq<SyncOutcome>)
    ensures
        processed_of(a + b) == processed_of(a) + processed_of(b),
        skipped_of(a + b) == skipped_of(a) + skipped_of(b),
        failures_of(a + b) == failures_of(a) + failures_of(b),
    decreases b.len(),
{
    if b.len() == 0 {
        assert(a + b =~= a);
        assert(failures_of(a) + failures_of(b) =~= failures_of(a));
    } else {
        lemma_summary_merge(a, b.drop_last());
        assert((a + b).drop_last() =~= a + b.drop_last());
        assert((a + b).last() == b.last());
        match b.last() {
            SyncOutcome::Failed(f) => {
                assert(failures_of(a) + failures_of(b) =~= (failures_of(a) + failures_of(
                    b.drop_last(),
                )).push(f));
            },
            _ => {
            },
        }
    }
}

} // verus!
