//! What holds of every run of the schema steps: what a run plans, and that a
//! run after a successful run finds nothing to do.

use vstd::prelude::*;
use crate::migrations::{pending, progress_at, record_after, start, ProgressView, RunView};

verus! {

/// A filter that nothing passes keeps nothing.
proof fn lemma_filter_none<A>(items: Seq<A>, wanted: spec_fn(A) -> bool)
    requires
        forall|i: int| 0 <= i < items.len() ==> !wanted(#[trigger] items[i]),
    ensures
        items.filter(wanted) == Seq::<A>::empty(),
    decreases items.len(),
{
    reveal(Seq::filter);
    if items.len() > 0 {
        let earlier = items.drop_last();
        assert forall|i: int| 0 <= i < earlier.len() implies !wanted(#[trigger] earlier[i]) by {
            assert(earlier[i] == items[i]);
        }
        lemma_filter_none(earlier, wanted);
    }
}

/// A filter that everything passes keeps everything.
proof fn lemma_filter_all<A>(items: Seq<A>, wanted: spec_fn(A) -> bool)
    requires
        forall|i: int| 0 <= i < items.len() ==> wanted(#[trigger] items[i]),
    ensures
        items.filter(wanted) == items,
    decreases items.len(),
{
    reveal(Seq::filter);
    if items.len() > 0 {
        let earlier = items.drop_last();
        assert forall|i: int| 0 <= i < earlier.len() implies wanted(#[trigger] earlier[i]) by {
            assert(earlier[i] == items[i]);
        }
        lemma_filter_all(earlier, wanted);
        assert(earlier.push(items.last()) =~= items);
    }
}

/// What a filter keeps comes from the sequence it filtered.
proof fn lemma_filter_from<A>(items: Seq<A>, wanted: spec_fn(A) -> bool, kept: A)
    requires
        items.filter(wanted).contains(kept),
    ensures
        items.contains(kept),
        wanted(kept),
    decreases items.len(),
{
    reveal(Seq::filter);
    if items.len() > 0 {
        let earlier = items.drop_last();
        let at = choose|i: int| 0 <= i < items.filter(wanted).len() && items.filter(wanted)[i] == kept;
        if wanted(items.last()) && at == earlier.filter(wanted).len() {
            assert(items[items.len() - 1] == kept);
        } else {
            assert(earlier.filter(wanted)[at] == kept);
            lemma_filter_from(earlier, wanted, kept);
            let source = choose|i: int| 0 <= i < earlier.len() && earlier[i] == kept;
            assert(items[source] == kept);
        }
    }
}

/// The plan of a run is exactly the embedded steps that the record lacks: a
/// version is planned if and only if it is embedded and not recorded.
pub proof fn lemma_pending_are_the_missing_steps(
    steps: Seq<Seq<char>>,
    applied: Seq<Seq<char>>,
    version: Seq<char>,
)
    ensures
        pending(steps, applied).contains(version) <==> steps.contains(version) && !applied.contains(
            version,
        ),
        pending(steps, applied).len() <= steps.len(),
{
    let wanted = |version: Seq<char>| !applied.contains(version);
    steps.lemma_filter_len(wanted);
    if pending(steps, applied).contains(version) {
        lemma_filter_from(steps, wanted, version);
    }
    if steps.contains(version) && !applied.contains(version) {
        let at = choose|i: int| 0 <= i < steps.len() && steps[i] == version;
        steps.lemma_filter_contains(wanted, at);
    }
}

/// A run keeps the embedded order: of two planned steps, the one that is
/// planned earlier is embedded earlier. So when no version is embedded
/// twice, none is planned twice.
pub proof fn lemma_pending_keep_the_embedded_order(
    steps: Seq<Seq<char>>,
    applied: Seq<Seq<char>>,
    a: int,
    b: int,
)
    requires
        0 <= a < b < pending(steps, applied).len(),
    ensures
        exists|i: int, j: int|
            0 <= i < j < steps.len() && #[trigger] steps[i] == pending(steps, applied)[a]
                && #[trigger] steps[j] == pending(steps, applied)[b],
        steps.no_duplicates() ==> pending(steps, applied)[a] != pending(steps, applied)[b],
    decreases steps.len(),
{
    reveal(Seq::filter);
    let wanted = |version: Seq<char>| !applied.contains(version);
    let plan = steps.filter(wanted);
    let earlier = steps.drop_last();
    let earlier_plan = earlier.filter(wanted);
    let last = steps.len() - 1;
    if b < earlier_plan.len() {
        lemma_pending_keep_the_embedded_order(earlier, applied, a, b);
        let (i, j) = choose|i: int, j: int|
            0 <= i < j < earlier.len() && #[trigger] earlier[i] == earlier_plan[a]
                && #[trigger] earlier[j] == earlier_plan[b];
        assert(steps[i] == plan[a] && steps[j] == plan[b]);
    } else {
        assert(earlier_plan.contains(earlier_plan[a]));
        lemma_filter_from(earlier, wanted, earlier_plan[a]);
        let i = choose|i: int| 0 <= i < earlier.len() && earlier[i] == earlier_plan[a];
        assert(steps[i] == plan[a] && steps[last] == plan[b]);
    }
}

/// On the first run ever, when nothing is recorded, every embedded step is
/// planned, in embedded order.
pub proof fn lemma_first_run_plans_every_step(steps: Seq<Seq<char>>)
    ensures
        pending(steps, Seq::empty()) == steps,
        steps.no_duplicates() ==> start(steps, Seq::empty()) == progress_at(steps, 0),
{
    let nothing = Seq::<Seq<char>>::empty();
    lemma_filter_all(steps, |version: Seq<char>| !nothing.contains(version));
}

/// A run goes through its plan one step at a time: while steps are left it
/// asks for the next one, a success moves it on by one step, and after the
/// last step it ends with the number of steps in the plan.
pub proof fn lemma_run_applies_plan_in_order(plan: Seq<Seq<char>>, done: nat)
    requires
        done < plan.len(),
        plan.len() <= usize::MAX,
    ensures
        progress_at(plan, done) == ProgressView::Run(RunView { plan, position: done }),
        crate::migrations::step(RunView { plan, position: done }, true) == progress_at(
            plan,
            done + 1,
        ),
        progress_at(plan, plan.len()) == ProgressView::Finished(Ok(plan.len() as usize)),
{
}

/// Running twice is running once: after a run in which every step succeeded,
/// the next run against the same store plans nothing, ends at once without
/// an error and with no step applied, and leaves the record as it is.
pub proof fn lemma_second_run_is_a_no_op(steps: Seq<Seq<char>>, applied: Seq<Seq<char>>)
    requires
        steps.no_duplicates(),
    ensures
        pending(steps, record_after(steps, applied)) == Seq::<Seq<char>>::empty(),
        start(steps, record_after(steps, applied)) == ProgressView::Finished(Ok(0)),
        record_after(steps, record_after(steps, applied)) == record_after(steps, applied),
{
    let recorded = record_after(steps, applied);
    let first_plan = pending(steps, applied);
    let wanted = |version: Seq<char>| !recorded.contains(version);
    assert forall|i: int| 0 <= i < steps.len() implies !wanted(#[trigger] steps[i]) by {
        lemma_pending_are_the_missing_steps(steps, applied, steps[i]);
        if applied.contains(steps[i]) {
            let at = choose|k: int| 0 <= k < applied.len() && applied[k] == steps[i];
            assert(recorded[at] == steps[i]);
        } else {
            assert(first_plan.contains(steps[i]));
            let at = choose|k: int| 0 <= k < first_plan.len() && first_plan[k] == steps[i];
            assert(recorded[applied.len() + at] == steps[i]);
        }
    }
    lemma_filter_none(steps, wanted);
    assert(recorded + Seq::<Seq<char>>::empty() =~= recorded);
}

} // verus!
