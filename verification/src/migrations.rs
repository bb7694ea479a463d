//! Bringing the schema up to date: which embedded steps to apply, in which
//! order, and how a run ends.
//!
//! A step is known by its version. The program embeds a fixed sequence of
//! steps, and the store keeps a list of the versions that it has applied. A
//! run applies the embedded steps that the list lacks, in their embedded
//! order, and stops at the first one that fails.
//!
//! Applying a step is the store's work. This module decides: `apply_pending`
//! starts a run, a `PendingRun` names the step to apply next, and the caller
//! reports how it went with `PendingRun::on_result`. A step counts as
//! succeeded once the store has both executed it and recorded its version.

use vstd::prelude::*;

verus! {

/// Why the schema could not be brought up to date. Either way the schema may
/// be incomplete and the program must not go on to serve requests.
#[derive(Clone, Copy, Debug, PartialEq, Eq, Structural)]
pub enum MigrationError {
    /// The embedded steps or the store's record of applied versions could
    /// not be read, so no run was started. The caller reports this; a run
    /// that has started never ends with it.
    Unreadable,
    /// The embedded sequence names one version twice, so it has no strict
    /// order.
    DuplicateVersion,
    /// The store failed to apply a step, after `applied` steps of this run
    /// had succeeded.
    StepFailed { applied: usize },
}

/// The texts of a list of versions.
pub open spec fn texts(versions: Seq<String>) -> Seq<Seq<char>> {
    versions.map_values(|version: String| version@)
}

/// The embedded steps that are not recorded as applied, in embedded order.
pub open spec fn pending(steps: Seq<Seq<char>>, applied: Seq<Seq<char>>) -> Seq<Seq<char>> {
    steps.filter(|version: Seq<char>| !applied.contains(version))
}

/// The record of applied versions after a run that started from `applied`
/// and in which every step succeeded.
pub open spec fn record_after(steps: Seq<Seq<char>>, applied: Seq<Seq<char>>) -> Seq<Seq<char>> {
    applied + pending(steps, applied)
}

/// A run in progress: the steps it set out to apply and how many of them
/// have succeeded. At least one is left.
pub struct RunView {
    pub plan: Seq<Seq<char>>,
    pub position: nat,
}

/// Where a run stands.
pub enum ProgressView {
    /// The step `plan[position]` is to be applied next.
    Run(RunView),
    /// The run is over, with the number of steps it applied or the reason it
    /// stopped.
    Finished(Result<usize, MigrationError>),
}

/// Where a run stands that has applied the first `position` steps of `plan`.
pub open spec fn progress_at(plan: Seq<Seq<char>>, position: nat) -> ProgressView {
    if position < plan.len() {
        ProgressView::Run(RunView { plan, position })
    } else {
        ProgressView::Finished(Ok(plan.len() as usize))
    }
}

/// Where a run starts: nowhere if a version is embedded twice, otherwise
/// before the first pending step.
pub open spec fn start(steps: Seq<Seq<char>>, applied: Seq<Seq<char>>) -> ProgressView {
    if steps.no_duplicates() {
        progress_at(pending(steps, applied), 0)
    } else {
        ProgressView::Finished(Err(MigrationError::DuplicateVersion))
    }
}

/// Where a run stands after the store has reported on the step it was asked
/// to apply.
pub open spec fn step(run: RunView, succeeded: bool) -> ProgressView {
    if succeeded {
        progress_at(run.plan, run.position + 1)
    } else {
        ProgressView::Finished(Err(MigrationError::StepFailed { applied: run.position as usize }))
    }
}

/// A run that has at least one step left to apply.
#[derive(Debug)]
pub struct PendingRun {
    plan: Vec<String>,
    position: usize,
}

/// Where a run stands: what the caller has to do next.
#[derive(Debug)]
pub enum Progress {
    /// Apply the step whose version `PendingRun::version` gives, then report
    /// with `PendingRun::on_result`.
    Run(PendingRun),
    /// Nothing is left to do. `Ok` carries the number of steps that this run
    /// applied.
    Finished(Result<usize, MigrationError>),
}

impl View for PendingRun {
    type V = RunView;

    closed spec fn view(&self) -> RunView {
        RunView { plan: texts(self.plan@), position: self.position as nat }
    }
}

impl View for Progress {
    type V = ProgressView;

    open spec fn view(&self) -> ProgressView {
        match self {
            Progress::Run(run) => ProgressView::Run(run@),
            Progress::Finished(outcome) => ProgressView::Finished(*outcome),
        }
    }
}

/// Whether `version` is among `versions`.
fn contains_version(versions: &Vec<String>, version: &String) -> (found: bool)
    ensures
        found == texts(versions@).contains(version@),
{
    let mut i: usize = 0;
    while i < versions.len()
        invariant
            i <= versions.len(),
            forall|k: int| 0 <= k < i ==> texts(versions@)[k] != version@,
        decreases versions.len() - i,
    {
        if versions[i] == *version {
            assert(texts(versions@)[i as int] == version@);
            return true;
        }
        i += 1;
    }
    false
}

/// Whether some version occurs twice in `versions`.
fn has_duplicate(versions: &Vec<String>) -> (found: bool)
    ensures
        found == !texts(versions@).no_duplicates(),
{
    let ghost all = texts(versions@);
    let mut i: usize = 0;
    while i < versions.len()
        invariant
            i <= versions.len(),
            all == texts(versions@),
            forall|a: int, b: int| 0 <= a < i && 0 <= b < all.len() && a != b ==> all[a] != all[b],
        decreases versions.len() - i,
    {
        let mut j: usize = i + 1;
        while j < versions.len()
            invariant
                i < j <= versions.len(),
                all == texts(versions@),
                forall|b: int| i < b < j ==> all[i as int] != all[b],
            decreases versions.len() - j,
        {
            if versions[i] == versions[j] {
                assert(all[i as int] == all[j as int]);
                return true;
            }
            j += 1;
        }
        i += 1;
    }
    false
}

/// The steps of `steps` that `applied` lacks, in order.
fn plan_pending(steps: &Vec<String>, applied: &Vec<String>) -> (plan: Vec<String>)
    ensures
        texts(plan@) == pending(texts(steps@), texts(applied@)),
{
    let ghost all = texts(steps@);
    let ghost wanted = |version: Seq<char>| !texts(applied@).contains(version);
    let mut plan: Vec<String> = Vec::new();
    let mut i: usize = 0;
    proof {
        reveal(Seq::filter);
        assert(all.take(0) =~= Seq::empty());
        assert(texts(plan@) =~= Seq::empty());
    }
    while i < steps.len()
        invariant
            i <= steps.len(),
            all == texts(steps@),
            wanted == |version: Seq<char>| !texts(applied@).contains(version),
            texts(plan@) == all.take(i as int).filter(wanted),
        decreases steps.len() - i,
    {
        proof {
            reveal(Seq::filter);
            assert(all.take(i + 1).drop_last() =~= all.take(i as int));
            assert(all.take(i + 1).last() == steps[i as int]@);
        }
        if !contains_version(applied, &steps[i]) {
            let ghost before = texts(plan@);
            plan.push(steps[i].clone());
            assert(texts(plan@) =~= before.push(steps[i as int]@));
        }
        i += 1;
    }
    assert(all.take(steps.len() as int) =~= all);
    plan
}

/// Starts a run: compares the embedded steps with the versions that the
/// store has recorded as applied.
///
/// A sequence that embeds a version twice is refused. If no step is pending
/// the run is over at once, with no step applied. Otherwise the answer is a
/// run that stands before the first pending step.
pub fn apply_pending(steps: &Vec<String>, applied: &Vec<String>) -> (progress: Progress)
    ensures
        progress@ == start(texts(steps@), texts(applied@)),
{
    if has_duplicate(steps) {
        return Progress::Finished(Err(MigrationError::DuplicateVersion));
    }
    let plan = plan_pending(steps, applied);
    if plan.len() == 0 {
        Progress::Finished(Ok(0))
    } else {
        Progress::Run(PendingRun { plan, position: 0 })
    }
}

impl PendingRun {
    /// A pending run has a step left to apply.
    #[verifier::type_invariant]
    pub open spec fn step_left(self) -> bool {
        self@.position < self@.plan.len()
    }

    /// The version of the step to apply now.
    pub fn version(&self) -> (version: &String)
        ensures
            self@.position < self@.plan.len(),
            version@ == self@.plan[self@.position as int],
    {
        proof {
            use_type_invariant(self);
            assert(texts(self.plan@).len() == self.plan.len());
        }
        &self.plan[self.position]
    }

    /// The number of steps of this run that have succeeded so far.
    pub fn applied_count(&self) -> (count: usize)
        ensures
            count == self@.position,
    {
        self.position
    }

    /// Takes the store's report on the step that `version` named.
    ///
    /// After a success the run moves on to the next pending step, or ends
    /// with the number of steps it applied when that was the last one. A
    /// failure ends the run: no later step is attempted.
    pub fn on_result(self, succeeded: bool) -> (progress: Progress)
        ensures
            progress@ == step(self@, succeeded),
    {
        proof {
            use_type_invariant(&self);
            assert(texts(self.plan@).len() == self.plan.len());
        }
        let PendingRun { plan, position } = self;
        if !succeeded {
            Progress::Finished(Err(MigrationError::StepFailed { applied: position }))
        } else if position + 1 < plan.len() {
            Progress::Run(PendingRun { plan, position: position + 1 })
        } else {
            Progress::Finished(Ok(plan.len()))
        }
    }
}

/// Runs the embedded steps against a record that is held in memory, where
/// applying a step is nothing but recording its version.
///
/// A sequence that embeds a version twice is refused and the record stays as
/// it is. Otherwise every pending step is recorded, in embedded order behind
/// what was recorded before, and the answer is the number of steps that were
/// pending.
pub fn run_migrations(steps: &Vec<String>, record: &mut Vec<String>) -> (outcome: Result<
    usize,
    MigrationError,
>)
    ensures
        texts(steps@).no_duplicates() ==> {
            &&& outcome == Ok::<usize, MigrationError>(
                pending(texts(steps@), texts(old(record)@)).len() as usize,
            )
            &&& texts(final(record)@) == record_after(texts(steps@), texts(old(record)@))
        },
        !texts(steps@).no_duplicates() ==> {
            &&& outcome == Err::<usize, MigrationError>(MigrationError::DuplicateVersion)
            &&& texts(final(record)@) == texts(old(record)@)
        },
{
    let ghost before = texts(record@);
    let ghost plan = pending(texts(steps@), before);
    let ghost mut done: nat = 0;
    proof {
        texts(steps@).lemma_filter_len(|version: Seq<char>| !before.contains(version));
        assert(texts(steps@).len() == steps.len());
        assert(before + plan.take(0) =~= before);
    }
    let mut progress = apply_pending(steps, record);
    loop
        invariant
            before == texts(old(record)@),
            plan == pending(texts(steps@), before),
            plan.len() <= usize::MAX,
            done <= plan.len(),
            texts(steps@).no_duplicates() ==> progress@ == progress_at(plan, done),
            texts(steps@).no_duplicates() ==> texts(record@) == before + plan.take(done as int),
            !texts(steps@).no_duplicates() ==> progress@ == ProgressView::Finished(
                Err(MigrationError::DuplicateVersion),
            ),
            !texts(steps@).no_duplicates() ==> texts(record@) == before,
        decreases plan.len() - done,
    {
        match progress {
            Progress::Finished(outcome) => {
                assert(plan.take(plan.len() as int) =~= plan);
                return outcome;
            },
            Progress::Run(run) => {
                let ghost recorded = texts(record@);
                record.push(run.version().clone());
                proof {
                    assert(texts(record@) =~= recorded.push(plan[done as int]));
                    assert(plan.take(done as int + 1) =~= plan.take(done as int).push(plan[done as int]));
                    assert(before + plan.take(done as int + 1) =~= (before + plan.take(done as int)).push(
                        plan[done as int],
                    ));
                    done = done + 1;
                }
                progress = run.on_result(true);
            },
        }
    }
}

} // verus!
