//! Execution of a plan in distributed mode.

use crate::coordinator::publication::{PlanCancellation, PublicationFailure, PublicationProblem};
use crate::coordinator::task_spawner::{make_task_key, LocalStage};
use crate::error::{DistributedError, PlanError};
use crate::plan_telemetry::PlanPublicationOutcome;
use crate::task_key::TaskKey;
use crate::text::push_decimal;
use std::sync::Arc;
use vstd::prelude::*;
use vstd::string::*;

verus! {

/// How the publication of the plans of a query stands.
#[derive(Debug)]
pub enum PublicationWait<F> {
    /// This many plans are not acknowledged yet.
    Waiting(usize),
    /// Every plan is acknowledged.
    Published,
    /// A plan could not be published.
    Failed(F),
}

impl<F> PublicationWait<F> {
    /// How publication stands before any of `plans` plans is acknowledged.
    pub open spec fn started(plans: usize) -> PublicationWait<F> {
        if plans == 0 {
            PublicationWait::Published
        } else {
            PublicationWait::Waiting(plans)
        }
    }

    /// How publication stands once one more plan has ended with `result`.
    pub open spec fn after(self, result: Result<(), F>) -> PublicationWait<F> {
        match self {
            PublicationWait::Waiting(plans) => match result {
                Ok(_) => if plans > 1 {
                    PublicationWait::Waiting((plans - 1) as usize)
                } else {
                    PublicationWait::Published
                },
                Err(error) => PublicationWait::Failed(error),
            },
            _ => self,
        }
    }

    /// How publication stands once plans have ended with `results`, in the order in which they
    /// ended.
    pub open spec fn after_all(self, results: Seq<Result<(), F>>) -> PublicationWait<F>
        decreases results.len(),
    {
        if results.len() == 0 {
            self
        } else {
            self.after_all(results.drop_last()).after(results.last())
        }
    }

    /// Starts to wait for `plans` plans.
    pub fn await_plan_publications(plans: usize) -> (r: Self)
        ensures
            r == Self::started(plans),
    {
        if plans == 0 {
            PublicationWait::Published
        } else {
            PublicationWait::Waiting(plans)
        }
    }

    /// One more plan has ended with `result`.
    pub fn on_publication(self, result: Result<(), F>) -> (r: Self)
        ensures
            r == self.after(result),
    {
        match self {
            PublicationWait::Waiting(plans) => match result {
                Ok(_) => if plans > 1 {
                    PublicationWait::Waiting(plans - 1)
                } else {
                    PublicationWait::Published
                },
                Err(error) => PublicationWait::Failed(error),
            },
            other => other,
        }
    }
}

proof fn lemma_all_acknowledged<F>(plans: usize, results: Seq<Result<(), F>>)
    requires
        results.len() <= plans,
        forall|i: int| 0 <= i < results.len() ==> #[trigger] results[i] is Ok,
    ensures
        PublicationWait::<F>::started(plans).after_all(results) == PublicationWait::<F>::started(
            (plans - results.len()) as usize,
        ),
    decreases results.len(),
{
    if results.len() > 0 {
        let before = results.drop_last();
        assert forall|i: int| 0 <= i < before.len() implies #[trigger] before[i] is Ok by {
            assert(results[i] is Ok);
        }
        lemma_all_acknowledged(plans, before);
        assert(results[results.len() - 1] is Ok);
    }
}

proof fn lemma_settled_stays<F>(wait: PublicationWait<F>, results: Seq<Result<(), F>>)
    requires
        !(wait is Waiting),
    ensures
        wait.after_all(results) == wait,
    decreases results.len(),
{
    if results.len() > 0 {
        lemma_settled_stays(wait, results.drop_last());
    }
}

proof fn lemma_after_all_splits<F>(
    wait: PublicationWait<F>,
    first: Seq<Result<(), F>>,
    second: Seq<Result<(), F>>,
)
    ensures
        wait.after_all(first + second) == wait.after_all(first).after_all(second),
    decreases second.len(),
{
    if second.len() > 0 {
        assert((first + second).drop_last() =~= first + second.drop_last());
        lemma_after_all_splits(wait, first, second.drop_last());
    } else {
        assert(first + second =~= first);
    }
}

/// Publication waits for every plan: as long as all plans that have ended were acknowledged, it
/// is complete exactly when no plan is left.
pub proof fn waits_for_every_plan<F>(plans: usize, results: Seq<Result<(), F>>)
    requires
        results.len() <= plans,
        forall|i: int| 0 <= i < results.len() ==> #[trigger] results[i] is Ok,
    ensures
        ({
            let wait = PublicationWait::<F>::started(plans).after_all(results);
            &&& wait is Published <==> results.len() == plans
            &&& results.len() < plans ==> wait == PublicationWait::<F>::Waiting(
                (plans - results.len()) as usize,
            )
        }),
{
    lemma_all_acknowledged(plans, results);
}

/// Publication fails with the first plan that could not be published, however many plans are
/// still pending, and nothing that comes later changes that.
pub proof fn first_failure_decides<F>(plans: usize, results: Seq<Result<(), F>>, first: int)
    requires
        0 <= first < results.len(),
        first < plans,
        results[first] is Err,
        forall|i: int| 0 <= i < first ==> #[trigger] results[i] is Ok,
    ensures
        PublicationWait::<F>::started(plans).after_all(results) == PublicationWait::<F>::Failed(
            results[first]->Err_0,
        ),
{
    let start = PublicationWait::<F>::started(plans);
    let acknowledged = results.take(first);
    let failed = results.take(first + 1);
    let rest = results.skip(first + 1);
    lemma_all_acknowledged(plans, acknowledged);
    assert(failed.drop_last() =~= acknowledged);
    assert(start.after_all(failed) == PublicationWait::<F>::Failed(results[first]->Err_0));
    assert(failed + rest =~= results);
    lemma_after_all_splits(start, failed, rest);
    lemma_settled_stays(start.after_all(failed), rest);
}

/// How the measurements of a query call what came of publishing its plans, once that is settled.
pub open spec fn query_outcome<E>(wait: PublicationWait<PublicationFailure<E>>) -> Option<
    PlanPublicationOutcome,
> {
    match wait {
        PublicationWait::Waiting(_) => None,
        PublicationWait::Published => Some(PlanPublicationOutcome::Success),
        PublicationWait::Failed(failure) => Some(
            crate::coordinator::publication::outcome_of(failure.problem),
        ),
    }
}

impl<E> PublicationWait<PublicationFailure<E>> {
    /// How the measurements of the query call what came of publishing its plans, once that is
    /// settled.
    pub fn outcome(&self) -> (r: Option<PlanPublicationOutcome>)
        ensures
            r == query_outcome(*self),
    {
        match self {
            PublicationWait::Waiting(_) => None,
            PublicationWait::Published => Some(PlanPublicationOutcome::Success),
            PublicationWait::Failed(failure) => Some(failure.problem.outcome()),
        }
    }
}

/// A query is called a success exactly when each of its plans is acknowledged. Otherwise it is
/// called after the first plan that could not be published, however the others end.
pub proof fn outcome_tells_how_publication_went<E>(
    plans: usize,
    results: Seq<Result<(), PublicationFailure<E>>>,
)
    requires
        results.len() <= plans,
    ensures
        ({
            let outcome = query_outcome(
                PublicationWait::<PublicationFailure<E>>::started(plans).after_all(results),
            );
            &&& outcome == Some(PlanPublicationOutcome::Success) <==> results.len() == plans
                && forall|i: int| 0 <= i < results.len() ==> #[trigger] results[i] is Ok
            &&& forall|first: int| #[trigger]
                fails_first(results, first) ==> outcome == Some(
                    crate::coordinator::publication::outcome_of(results[first]->Err_0.problem),
                )
        }),
{
    if forall|i: int| 0 <= i < results.len() ==> #[trigger] results[i] is Ok {
        waits_for_every_plan(plans, results);
    } else {
        lemma_some_fails_first(results);
    }
    assert forall|first: int| #[trigger] fails_first(results, first) implies query_outcome(
        PublicationWait::<PublicationFailure<E>>::started(plans).after_all(results),
    ) == Some(crate::coordinator::publication::outcome_of(results[first]->Err_0.problem)) by {
        first_failure_decides(plans, results, first);
    }
}

/// How a query is called once it is settled how the publication of its plans went: a success where
/// all were acknowledged, timed out or cancelled where the plan that failed was, and nothing more
/// special for any other failure. As long as one is waited for, it is not called anything.
pub proof fn queries_are_called_after_their_publication<E>(
    wait: PublicationWait<PublicationFailure<E>>,
    r: Option<PlanPublicationOutcome>,
)
    requires
        call_ensures(PublicationWait::<PublicationFailure<E>>::outcome, (&wait,), r),
    ensures
        r is None <==> wait is Waiting,
        r == Some(PlanPublicationOutcome::Success) <==> wait is Published,
        r == Some(PlanPublicationOutcome::PublicationTimeout) <==> (
        wait matches PublicationWait::Failed(failure) && failure.problem is TimedOut),
        r == Some(PlanPublicationOutcome::Cancellation) <==> (
        wait matches PublicationWait::Failed(failure) && failure.problem is Abandoned),
{
}

/// Whether the plan that ended at position `first` is the first that could not be published.
pub open spec fn fails_first<F>(results: Seq<Result<(), F>>, first: int) -> bool {
    &&& 0 <= first < results.len()
    &&& results[first] is Err
    &&& forall|i: int| 0 <= i < first ==> #[trigger] results[i] is Ok
}

proof fn lemma_some_fails_first<F>(results: Seq<Result<(), F>>)
    requires
        exists|i: int| 0 <= i < results.len() && #[trigger] results[i] is Err,
    ensures
        exists|first: int| #[trigger] fails_first(results, first),
    decreases results.len(),
{
    let i = choose|i: int| 0 <= i < results.len() && #[trigger] results[i] is Err;
    if forall|k: int| 0 <= k < i ==> #[trigger] results[k] is Ok {
        assert(fails_first(results, i));
    } else {
        let k = choose|k: int| 0 <= k < i && #[trigger] results[k] is Err;
        let before = results.take(i);
        assert(before[k] is Err);
        lemma_some_fails_first(before);
        let first = choose|first: int| #[trigger] fails_first(before, first);
        assert(results[first] == before[first]);
        assert forall|j: int| 0 <= j < first implies #[trigger] results[j] is Ok by {
            assert(before[j] is Ok);
        }
        assert(fails_first(results, first));
    }
}

proof fn lemma_waits<F>(
    plans: usize,
    results: Seq<Result<(), F>>,
    waits: Seq<PublicationWait<F>>,
    k: int,
)
    requires
        waits.len() == results.len() + 1,
        call_ensures(PublicationWait::<F>::await_plan_publications, (plans,), waits[0]),
        forall|i: int|
            0 <= i < results.len() ==> call_ensures(
                PublicationWait::<F>::on_publication,
                (waits[i], #[trigger] results[i]),
                waits[i + 1],
            ),
        0 <= k <= results.len(),
    ensures
        waits[k] == PublicationWait::<F>::started(plans).after_all(results.take(k)),
    decreases k,
{
    if k > 0 {
        lemma_waits(plans, results, waits, k - 1);
        assert(results.take(k).drop_last() =~= results.take(k - 1));
        assert(results.take(k).last() == results[k - 1]);
        assert(call_ensures(
            PublicationWait::<F>::on_publication,
            (waits[k - 1], results[k - 1]),
            waits[k],
        ));
    }
}

/// The wait for the publication of `plans` plans, call by call: it goes on as long as no plan has
/// failed and one is left, it ends well with the last acknowledgement, and it fails with the first
/// plan that could not be published before that.
pub proof fn publications_are_awaited<F>(
    plans: usize,
    results: Seq<Result<(), F>>,
    waits: Seq<PublicationWait<F>>,
)
    requires
        waits.len() == results.len() + 1,
        call_ensures(PublicationWait::<F>::await_plan_publications, (plans,), waits[0]),
        forall|i: int|
            0 <= i < results.len() ==> call_ensures(
                PublicationWait::<F>::on_publication,
                (waits[i], #[trigger] results[i]),
                waits[i + 1],
            ),
    ensures
        forall|k: int|
            0 <= k <= results.len() && (forall|i: int|
                0 <= i < k ==> #[trigger] results[i] is Ok) ==> #[trigger] waits[k] == if k
                < plans {
                PublicationWait::<F>::Waiting((plans - k) as usize)
            } else {
                PublicationWait::<F>::Published
            },
        forall|k: int, first: int|
            0 <= first < k <= results.len() && first < plans && #[trigger] fails_first(
                results,
                first,
            ) ==> #[trigger] waits[k] == PublicationWait::<F>::Failed(results[first]->Err_0),
{
    assert forall|k: int|
        0 <= k <= results.len() && (forall|i: int|
            0 <= i < k ==> #[trigger] results[i] is Ok) implies #[trigger] waits[k] == if k
        < plans {
        PublicationWait::<F>::Waiting((plans - k) as usize)
    } else {
        PublicationWait::<F>::Published
    } by {
        lemma_waits(plans, results, waits, k);
        if k <= plans {
            lemma_all_acknowledged(plans, results.take(k));
        } else {
            let start = PublicationWait::<F>::started(plans);
            let first = results.take(plans as int);
            let rest = results.take(k).skip(plans as int);
            lemma_all_acknowledged(plans, first);
            assert(first + rest =~= results.take(k));
            lemma_after_all_splits(start, first, rest);
            lemma_settled_stays(start.after_all(first), rest);
        }
    }
    assert forall|k: int, first: int|
        0 <= first < k <= results.len() && first < plans && #[trigger] fails_first(
            results,
            first,
        ) implies #[trigger] waits[k] == PublicationWait::<F>::Failed(results[first]->Err_0) by {
        lemma_waits(plans, results, waits, k);
        let prefix = results.take(k);
        assert(prefix[first] == results[first]);
        assert forall|i: int| 0 <= i < first implies #[trigger] prefix[i] is Ok by {
            assert(results[i] is Ok);
        }
        first_failure_decides(plans, prefix, first);
    }
}

/// What happens while a prepared plan is executed.
pub enum ExecutionEvent<B, E> {
    /// The publication of a plan has ended.
    Publication(Result<(), PublicationFailure<E>>),
    /// The execution of the head stage has started, or it could not.
    HeadStarted(Result<(), E>),
    /// The head stage has produced something.
    Batch(B),
    /// Nobody wants the output any more.
    OutputClosed,
    /// The head stage has produced everything.
    HeadEnded,
}

/// What the execution of a prepared plan does next.
pub enum ExecutionAction<B, E> {
    /// Wait for the next event.
    Wait,
    /// Finish the measurements with this outcome, withdraw every plan, and end with this error.
    CancelPublished {
        outcome: PlanPublicationOutcome,
        error: E,
        cancellations: Vec<PlanCancellation>,
    },
    /// Finish the measurements with this outcome, let feeds start, and execute the head stage.
    ExecuteHead { outcome: PlanPublicationOutcome },
    /// Pass on what the head stage has produced.
    Forward(B),
    /// End.
    Finish(Result<(), E>),
}

/// How far the execution of a prepared plan has come.
#[derive(Clone, Copy, Debug, PartialEq, Eq, Structural)]
pub enum ExecutionStep {
    /// Plans are being published.
    Publishing,
    /// The head stage is being started.
    Starting,
    /// The head stage is running.
    Running,
    /// Nothing is left to do.
    Ended,
}

/// How far execution has come, and how many plans are not acknowledged, once `event` has happened.
pub open spec fn execution_after<B, E>(
    state: (ExecutionStep, usize),
    event: ExecutionEvent<B, E>,
) -> (ExecutionStep, usize) {
    match (state.0, event) {
        (ExecutionStep::Publishing, ExecutionEvent::Publication(Ok(_))) => if state.1 == 1 {
            (ExecutionStep::Starting, 0)
        } else {
            (ExecutionStep::Publishing, (state.1 - 1) as usize)
        },
        (ExecutionStep::Publishing, ExecutionEvent::Publication(Err(_))) => (
            ExecutionStep::Ended,
            state.1,
        ),
        (ExecutionStep::Starting, ExecutionEvent::HeadStarted(Ok(_))) => (
            ExecutionStep::Running,
            state.1,
        ),
        (ExecutionStep::Starting, ExecutionEvent::HeadStarted(Err(_))) => (
            ExecutionStep::Ended,
            state.1,
        ),
        (ExecutionStep::Running, ExecutionEvent::OutputClosed) | (
            ExecutionStep::Running,
            ExecutionEvent::HeadEnded,
        ) => (ExecutionStep::Ended, state.1),
        _ => state,
    }
}

/// The same once all of `events` have happened to a plan with this many task plans.
pub open spec fn execution_after_all<B, E>(
    plans: usize,
    events: Seq<ExecutionEvent<B, E>>,
) -> (ExecutionStep, usize)
    decreases events.len(),
{
    if events.len() == 0 {
        if plans == 0 {
            (ExecutionStep::Starting, 0)
        } else {
            (ExecutionStep::Publishing, plans)
        }
    } else {
        execution_after(execution_after_all(plans, events.drop_last()), events.last())
    }
}

/// Whether a plan could not be published.
pub open spec fn publication_failed<B, E>(event: ExecutionEvent<B, E>) -> bool {
    event matches ExecutionEvent::Publication(Err(_))
}

/// How many plans were acknowledged.
pub open spec fn acknowledged<B, E>(events: Seq<ExecutionEvent<B, E>>) -> nat
    decreases events.len(),
{
    if events.len() == 0 {
        0
    } else {
        acknowledged(events.drop_last()) + if events.last() matches ExecutionEvent::Publication(
            Ok(_),
        ) {
            1nat
        } else {
            0
        }
    }
}

proof fn lemma_publishing_counts<B, E>(plans: usize, events: Seq<ExecutionEvent<B, E>>)
    ensures
        ({
            let state = execution_after_all(plans, events);
            &&& state.0 == ExecutionStep::Publishing ==> state.1 > 0 && state.1 + acknowledged(
                events,
            ) == plans && forall|i: int|
                0 <= i < events.len() ==> !publication_failed(#[trigger] events[i])
            &&& state.0 == ExecutionStep::Starting || state.0 == ExecutionStep::Running
                ==> acknowledged(events) >= plans && forall|i: int|
                0 <= i < events.len() && publication_failed(#[trigger] events[i])
                    ==> acknowledged(events.take(i)) >= plans
        }),
    decreases events.len(),
{
    if events.len() > 0 {
        let before = events.drop_last();
        lemma_publishing_counts(plans, before);
        let state = execution_after_all(plans, events);
        let earlier = execution_after_all(plans, before);
        if state.0 == ExecutionStep::Publishing {
            assert forall|i: int| 0 <= i < events.len() implies !publication_failed(
                #[trigger] events[i],
            ) by {
                if i < before.len() {
                    assert(!publication_failed(before[i]));
                }
            }
        }
        if state.0 == ExecutionStep::Starting || state.0 == ExecutionStep::Running {
            assert forall|i: int|
                0 <= i < events.len()
                    && publication_failed(#[trigger] events[i]) implies acknowledged(
                events.take(i),
            ) >= plans by {
                if i < before.len() {
                    assert(publication_failed(before[i]));
                    assert(before.take(i) =~= events.take(i));
                } else {
                    assert(events.take(i) =~= before);
                }
            }
        }
    }
}

/// The head stage is not executed before every plan is acknowledged, nor when a plan could not
/// be published before that.
pub proof fn head_waits_for_every_plan<B, E>(plans: usize, events: Seq<ExecutionEvent<B, E>>)
    requires
        execution_after_all(plans, events).0 == ExecutionStep::Starting || execution_after_all(
            plans,
            events,
        ).0 == ExecutionStep::Running,
    ensures
        acknowledged(events) >= plans,
        forall|i: int|
            0 <= i < events.len() && publication_failed(#[trigger] events[i]) ==> acknowledged(
                events.take(i),
            ) >= plans,
{
    lemma_publishing_counts(plans, events);
}

/// Whether every plan whose publication has ended was published.
pub open spec fn none_failed<B, E>(events: Seq<ExecutionEvent<B, E>>) -> bool {
    forall|i: int| 0 <= i < events.len() ==> !publication_failed(#[trigger] events[i])
}

/// Whether all of `plans` plans were acknowledged at some time before which none had failed.
pub open spec fn all_published<B, E>(plans: int, events: Seq<ExecutionEvent<B, E>>) -> bool {
    exists|k: int|
        0 <= k <= events.len() && acknowledged(#[trigger] events.take(k)) >= plans && none_failed(
            events.take(k),
        )
}

/// Whether all of `plans` plans were published, and the head stage was not heard of since.
pub open spec fn head_is_due<B, E>(plans: int, events: Seq<ExecutionEvent<B, E>>) -> bool {
    &&& all_published(plans, events)
    &&& forall|m: int|
        0 <= m < events.len() && #[trigger] events[m] is HeadStarted ==> !all_published(
            plans,
            events.take(m),
        )
}

/// Whether the head stage was started at position `h`, and neither has it ended since, nor has
/// anybody closed its output.
pub open spec fn head_runs_since<B, E>(
    plans: int,
    events: Seq<ExecutionEvent<B, E>>,
    h: int,
) -> bool {
    &&& 0 <= h < events.len()
    &&& events[h] matches ExecutionEvent::HeadStarted(Ok(_))
    &&& head_is_due(plans, events.take(h))
    &&& forall|m: int|
        h < m < events.len() ==> !(#[trigger] events[m] is OutputClosed) && !(events[m]
            is HeadEnded)
}

/// Whether the head stage is running.
pub open spec fn head_is_running<B, E>(plans: int, events: Seq<ExecutionEvent<B, E>>) -> bool {
    exists|h: int| #[trigger] head_runs_since(plans, events, h)
}

proof fn lemma_published_stays<B, E>(plans: int, events: Seq<ExecutionEvent<B, E>>)
    requires
        events.len() > 0,
    ensures
        all_published(plans, events.drop_last()) ==> all_published(plans, events),
        all_published(plans, events) <==> all_published(plans, events.drop_last()) || (acknowledged(
            events,
        ) >= plans && none_failed(events)),
{
    let before = events.drop_last();
    if all_published(plans, before) {
        let k = choose|k: int|
            0 <= k <= before.len() && acknowledged(#[trigger] before.take(k)) >= plans
                && none_failed(before.take(k));
        assert(before.take(k) =~= events.take(k));
    }
    if acknowledged(events) >= plans && none_failed(events) {
        assert(events.take(events.len() as int) =~= events);
    }
    if all_published(plans, events) {
        let k = choose|k: int|
            0 <= k <= events.len() && acknowledged(#[trigger] events.take(k)) >= plans
                && none_failed(events.take(k));
        if k < events.len() {
            assert(before.take(k) =~= events.take(k));
        } else {
            assert(events.take(k) =~= events);
        }
    }
}

proof fn lemma_none_failed_step<B, E>(events: Seq<ExecutionEvent<B, E>>)
    requires
        events.len() > 0,
    ensures
        none_failed(events) <==> none_failed(events.drop_last()) && !publication_failed(
            events.last(),
        ),
{
    let before = events.drop_last();
    if none_failed(events) {
        assert forall|i: int| 0 <= i < before.len() implies !publication_failed(
            #[trigger] before[i],
        ) by {
            assert(!publication_failed(events[i]));
        }
        assert(!publication_failed(events[events.len() - 1]));
    }
    if none_failed(before) && !publication_failed(events.last()) {
        assert forall|i: int| 0 <= i < events.len() implies !publication_failed(
            #[trigger] events[i],
        ) by {
            if i < before.len() {
                assert(!publication_failed(before[i]));
            }
        }
    }
}

proof fn lemma_due_step<B, E>(plans: int, events: Seq<ExecutionEvent<B, E>>)
    requires
        events.len() > 0,
    ensures
        head_is_due(plans, events) <==> all_published(plans, events) && (!all_published(
            plans,
            events.drop_last(),
        ) || head_is_due(plans, events.drop_last()) && !(events.last() is HeadStarted)),
{
    let before = events.drop_last();
    let last = events.len() - 1;
    assert(events.take(last) =~= before);
    lemma_published_stays(plans, events);
    if head_is_due(plans, events) && all_published(plans, before) {
        assert forall|m: int|
            0 <= m < before.len() && #[trigger] before[m] is HeadStarted implies !all_published(
            plans,
            before.take(m),
        ) by {
            assert(events[m] is HeadStarted);
            assert(before.take(m) =~= events.take(m));
        }
        assert(events.last() is HeadStarted ==> events[last] is HeadStarted);
    }
    if all_published(plans, events) && (!all_published(plans, before) || head_is_due(plans, before)
        && !(events.last() is HeadStarted)) {
        assert forall|m: int|
            0 <= m < events.len() && #[trigger] events[m] is HeadStarted implies !all_published(
            plans,
            events.take(m),
        ) by {
            if m < last {
                assert(before[m] is HeadStarted);
                assert(before.take(m) =~= events.take(m));
                if !all_published(plans, before) && all_published(plans, before.take(m)) {
                    lemma_prefix_published(plans, before, m);
                }
            }
        }
    }
}

proof fn lemma_prefix_published<B, E>(plans: int, events: Seq<ExecutionEvent<B, E>>, m: int)
    requires
        0 <= m <= events.len(),
        all_published(plans, events.take(m)),
    ensures
        all_published(plans, events),
{
    let prefix = events.take(m);
    let k = choose|k: int|
        0 <= k <= prefix.len() && acknowledged(#[trigger] prefix.take(k)) >= plans && none_failed(
            prefix.take(k),
        );
    assert(prefix.take(k) =~= events.take(k));
}

proof fn lemma_running_step<B, E>(plans: int, events: Seq<ExecutionEvent<B, E>>)
    requires
        events.len() > 0,
    ensures
        head_is_running(plans, events) <==> if events.last() matches ExecutionEvent::HeadStarted(
            Ok(_),
        ) {
            head_is_due(plans, events.drop_last()) || head_is_running(plans, events.drop_last())
        } else {
            head_is_running(plans, events.drop_last()) && !(events.last() is OutputClosed)
                && !(events.last() is HeadEnded)
        },
{
    let before = events.drop_last();
    let last = events.len() - 1;
    assert(events.take(last) =~= before);
    if head_is_running(plans, events) {
        let h = choose|h: int| #[trigger] head_runs_since(plans, events, h);
        if h < last {
            assert(before.take(h) =~= events.take(h));
            assert forall|m: int| h < m < before.len() implies !(#[trigger] before[m]
                is OutputClosed) && !(before[m] is HeadEnded) by {
                assert(!(events[m] is OutputClosed));
            }
            assert(head_runs_since(plans, before, h));
            assert(!(events[last] is OutputClosed));
        }
    }
    if head_is_running(plans, before) && !(events.last() is OutputClosed) && !(events.last()
        is HeadEnded) {
        let h = choose|h: int| #[trigger] head_runs_since(plans, before, h);
        assert(before.take(h) =~= events.take(h));
        assert forall|m: int| h < m < events.len() implies !(#[trigger] events[m] is OutputClosed)
            && !(events[m] is HeadEnded) by {
            if m < last {
                assert(!(before[m] is OutputClosed));
            }
        }
        assert(head_runs_since(plans, events, h));
    }
    if head_is_due(plans, before) && events.last() matches ExecutionEvent::HeadStarted(Ok(_)) {
        assert(head_runs_since(plans, events, last));
    }
}

proof fn lemma_due_or_running<B, E>(plans: int, events: Seq<ExecutionEvent<B, E>>)
    ensures
        head_is_running(plans, events) ==> all_published(plans, events) && !head_is_due(
            plans,
            events,
        ),
{
    if head_is_running(plans, events) {
        let h = choose|h: int| #[trigger] head_runs_since(plans, events, h);
        lemma_prefix_published(plans, events, h);
        assert(events[h] is HeadStarted);
    }
}

/// How far an execution has come follows from what has happened, and from nothing else: plans are
/// being published as long as none has failed and fewer than `plans` are acknowledged; the head
/// stage is being started once the last of them is, and runs from the time at which it was started
/// to its end. An execution ends only with a plan that could not be published, a head stage that
/// could not be started, an output that was closed, or the end of the head stage.
#[verifier::rlimit(60)]
pub proof fn execution_goes_by_what_happened<B, E>(
    plans: usize,
    events: Seq<ExecutionEvent<B, E>>,
)
    ensures
        ({
            let step = execution_after_all(plans, events).0;
            &&& step == ExecutionStep::Publishing <==> none_failed(events) && acknowledged(events)
                < plans
            &&& step == ExecutionStep::Starting <==> head_is_due(plans as int, events)
            &&& step == ExecutionStep::Running <==> head_is_running(plans as int, events)
            &&& none_failed(events) && acknowledged(events) >= plans && (forall|i: int|
                0 <= i < events.len() ==> !(#[trigger] events[i] is HeadStarted)) ==> step
                == ExecutionStep::Starting
            &&& step == ExecutionStep::Ended ==> exists|i: int|
                0 <= i < events.len() && (publication_failed(#[trigger] events[i]) || (
                events[i] matches ExecutionEvent::HeadStarted(Err(_))) || events[i] is OutputClosed
                    || events[i] is HeadEnded)
        }),
    decreases events.len(),
{
    let n = plans as int;
    lemma_publishing_counts(plans, events);
    if events.len() == 0 {
        assert(events.take(0) =~= events);
        if plans == 0 {
            assert(acknowledged(events.take(0)) >= n && none_failed(events.take(0)));
        }
        assert(!head_is_running(n, events));
        assert(all_published(n, events) ==> plans == 0) by {
            if all_published(n, events) {
                let k = choose|k: int|
                    0 <= k <= events.len() && acknowledged(#[trigger] events.take(k)) >= n
                        && none_failed(events.take(k));
                assert(events.take(k) =~= events);
            }
        }
    } else {
        let before = events.drop_last();
        let event = events.last();
        execution_goes_by_what_happened(plans, before);
        lemma_publishing_counts(plans, before);
        lemma_published_stays(n, events);
        lemma_none_failed_step(events);
        lemma_due_step(n, events);
        lemma_running_step(n, events);
        lemma_due_or_running(n, before);
        lemma_due_or_running(n, events);
        lemma_published_unless_failed(n, before);
        lemma_published_unless_failed(n, events);
        if execution_after_all(plans, events).0 == ExecutionStep::Ended {
            if execution_after_all(plans, before).0 == ExecutionStep::Ended {
                let i = choose|i: int|
                    0 <= i < before.len() && (publication_failed(#[trigger] before[i]) || (
                    before[i] matches ExecutionEvent::HeadStarted(Err(_))) || before[i]
                        is OutputClosed || before[i] is HeadEnded);
                assert(events[i] == before[i]);
            } else {
                assert(events[events.len() - 1] == event);
            }
        }
    }
}

proof fn lemma_published_unless_failed<B, E>(plans: int, events: Seq<ExecutionEvent<B, E>>)
    ensures
        none_failed(events) ==> (all_published(plans, events) <==> acknowledged(events) >= plans),
{
    assert(events.take(events.len() as int) =~= events);
    if all_published(plans, events) {
        let k = choose|k: int|
            0 <= k <= events.len() && acknowledged(#[trigger] events.take(k)) >= plans
                && none_failed(events.take(k));
        lemma_acknowledged_grows(events, k);
    }
}

proof fn lemma_acknowledged_grows<B, E>(events: Seq<ExecutionEvent<B, E>>, k: int)
    requires
        0 <= k <= events.len(),
    ensures
        acknowledged(events.take(k)) <= acknowledged(events),
    decreases events.len(),
{
    if k < events.len() {
        lemma_acknowledged_grows(events.drop_last(), k);
        assert(events.drop_last().take(k) =~= events.take(k));
    } else {
        assert(events.take(k) =~= events);
    }
}

/// Executes a prepared plan.
pub struct PlanExecution {
    step: ExecutionStep,
    pending: usize,
    cancellations: Vec<PlanCancellation>,
}

impl PlanExecution {
    /// How far execution has come.
    pub closed spec fn step(&self) -> ExecutionStep {
        self.step
    }

    /// How many plans are not acknowledged yet.
    pub closed spec fn pending(&self) -> usize {
        self.pending
    }

    /// What withdraws the plans that were sent.
    pub closed spec fn cancellations(&self) -> Seq<PlanCancellation> {
        self.cancellations@
    }

    /// What holds between two events: the head stage is neither started nor running while a plan
    /// is not acknowledged.
    pub open spec fn wf(&self) -> bool {
        &&& self.step() == ExecutionStep::Publishing <==> self.pending() > 0 && self.step()
            != ExecutionStep::Ended
        &&& self.step() == ExecutionStep::Starting || self.step() == ExecutionStep::Running
            ==> self.pending() == 0
    }

    /// Starts to execute a plan whose task plans are being published. `cancellations` withdraw
    /// what was sent, and as many plans are waited for.
    pub fn begin<B, E>(cancellations: Vec<PlanCancellation>) -> (r: (
        Self,
        ExecutionAction<B, E>,
    ))
        ensures
            r.0.wf(),
            r.0.pending() == cancellations@.len(),
            r.0.cancellations() == cancellations@,
            (r.0.step(), r.0.pending()) == execution_after_all::<B, E>(
                cancellations@.len() as usize,
                Seq::empty(),
            ),
            r.1 == if cancellations@.len() == 0 {
                ExecutionAction::<B, E>::ExecuteHead { outcome: PlanPublicationOutcome::Success }
            } else {
                ExecutionAction::<B, E>::Wait
            },
    {
        match PublicationWait::<PublicationFailure<E>>::await_plan_publications(
            cancellations.len(),
        ) {
            PublicationWait::Waiting(pending) => (
                PlanExecution { step: ExecutionStep::Publishing, pending, cancellations },
                ExecutionAction::Wait,
            ),
            _ => (
                PlanExecution { step: ExecutionStep::Starting, pending: 0, cancellations },
                ExecutionAction::ExecuteHead { outcome: PlanPublicationOutcome::Success },
            ),
        }
    }

    /// Decides what follows on `event`.
    pub fn on_event<B, E>(&mut self, event: ExecutionEvent<B, E>) -> (action: ExecutionAction<B, E>)
        requires
            old(self).wf(),
        ensures
            final(self).wf(),
            (final(self).step(), final(self).pending()) == execution_after(
                (old(self).step(), old(self).pending()),
                event,
            ),
            action is CancelPublished || final(self).cancellations() == old(self).cancellations(),
            match (old(self).step(), event) {
                (ExecutionStep::Publishing, ExecutionEvent::Publication(Ok(_))) => action
                    == if old(self).pending() == 1 {
                    ExecutionAction::<B, E>::ExecuteHead {
                        outcome: PlanPublicationOutcome::Success,
                    }
                } else {
                    ExecutionAction::<B, E>::Wait
                },
                (ExecutionStep::Publishing, ExecutionEvent::Publication(Err(failure))) => {
                    action matches ExecutionAction::CancelPublished {
                        outcome,
                        error,
                        cancellations,
                    } && outcome == crate::coordinator::publication::outcome_of(failure.problem)
                        && error == failure.error && cancellations@ == old(self).cancellations()
                },
                (ExecutionStep::Starting, ExecutionEvent::HeadStarted(Err(error))) => action
                    == ExecutionAction::<B, E>::Finish(Err(error)),
                (ExecutionStep::Running, ExecutionEvent::Batch(batch)) => action
                    == ExecutionAction::<B, E>::Forward(batch),
                (ExecutionStep::Running, ExecutionEvent::OutputClosed) | (
                    ExecutionStep::Running,
                    ExecutionEvent::HeadEnded,
                ) => action == ExecutionAction::<B, E>::Finish(Ok(())),
                _ => action is Wait,
            },
    {
        match (self.step, event) {
            (ExecutionStep::Publishing, ExecutionEvent::Publication(result)) => {
                let wait = PublicationWait::Waiting(self.pending).on_publication(result);
                let outcome = wait.outcome();
                match (wait, outcome) {
                    (PublicationWait::Waiting(pending), _) => {
                        self.pending = pending;
                        ExecutionAction::Wait
                    },
                    (PublicationWait::Published, Some(outcome)) => {
                        self.pending = 0;
                        self.step = ExecutionStep::Starting;
                        ExecutionAction::ExecuteHead { outcome }
                    },
                    (PublicationWait::Failed(failure), Some(outcome)) => {
                        self.step = ExecutionStep::Ended;
                        let mut cancellations: Vec<PlanCancellation> = Vec::new();
                        std::mem::swap(&mut cancellations, &mut self.cancellations);
                        ExecutionAction::CancelPublished {
                            outcome,
                            error: failure.error,
                            cancellations,
                        }
                    },
                    _ => ExecutionAction::Wait,
                }
            },
            (ExecutionStep::Starting, ExecutionEvent::HeadStarted(result)) => match result {
                Ok(_) => {
                    self.step = ExecutionStep::Running;
                    ExecutionAction::Wait
                },
                Err(error) => {
                    self.step = ExecutionStep::Ended;
                    ExecutionAction::Finish(Err(error))
                },
            },
            (ExecutionStep::Running, ExecutionEvent::Batch(batch)) => ExecutionAction::Forward(
                batch,
            ),
            (ExecutionStep::Running, ExecutionEvent::OutputClosed) | (
                ExecutionStep::Running,
                ExecutionEvent::HeadEnded,
            ) => {
                self.step = ExecutionStep::Ended;
                ExecutionAction::Finish(Ok(()))
            },
            _ => ExecutionAction::Wait,
        }
    }
}

proof fn lemma_execution_state<B, E>(
    cancellations: Vec<PlanCancellation>,
    begun: (PlanExecution, ExecutionAction<B, E>),
    calls: Seq<&mut PlanExecution>,
    events: Seq<ExecutionEvent<B, E>>,
    actions: Seq<ExecutionAction<B, E>>,
    i: int,
)
    requires
        call_ensures(PlanExecution::begin::<B, E>, (cancellations,), begun),
        calls.len() == events.len(),
        actions.len() == events.len(),
        calls.len() > 0 ==> *calls[0] == begun.0,
        forall|k: int|
            0 <= k < calls.len() ==> call_ensures(
                PlanExecution::on_event::<B, E>,
                (#[trigger] calls[k], events[k]),
                actions[k],
            ),
        forall|k: int| 0 < k < calls.len() ==> *(#[trigger] calls[k]) == *final(calls[k - 1]),
        0 <= i < calls.len(),
    ensures
        (calls[i].step(), calls[i].pending()) == execution_after_all::<B, E>(
            cancellations@.len() as usize,
            events.take(i),
        ),
        calls[i].wf(),
        calls[i].step() != ExecutionStep::Ended ==> calls[i].cancellations() == cancellations@,
    decreases i,
{
    if i == 0 {
        assert(events.take(0) =~= Seq::empty());
    } else {
        lemma_execution_state(cancellations, begun, calls, events, actions, i - 1);
        assert(call_ensures(
            PlanExecution::on_event::<B, E>,
            (calls[i - 1], events[i - 1]),
            actions[i - 1],
        ));
        assert(*calls[i] == *final(calls[i - 1]));
        assert(events.take(i).drop_last() =~= events.take(i - 1));
        assert(events.take(i).last() == events[i - 1]);
    }
}

/// What is done over the whole execution of a query, call by call: the head stage is executed on
/// the last acknowledgement if no plan has failed before it, and at once where there are no plans;
/// the first plan that fails before that withdraws every plan and ends the query with its error;
/// what the head stage produces is passed on from its start to its end; and nothing else is done.
#[verifier::rlimit(60)]
pub proof fn queries_are_executed_in_order<B, E>(
    cancellations: Vec<PlanCancellation>,
    begun: (PlanExecution, ExecutionAction<B, E>),
    calls: Seq<&mut PlanExecution>,
    events: Seq<ExecutionEvent<B, E>>,
    actions: Seq<ExecutionAction<B, E>>,
)
    requires
        call_ensures(PlanExecution::begin::<B, E>, (cancellations,), begun),
        calls.len() == events.len(),
        actions.len() == events.len(),
        calls.len() > 0 ==> *calls[0] == begun.0,
        forall|k: int|
            0 <= k < calls.len() ==> call_ensures(
                PlanExecution::on_event::<B, E>,
                (#[trigger] calls[k], events[k]),
                actions[k],
            ),
        forall|k: int| 0 < k < calls.len() ==> *(#[trigger] calls[k]) == *final(calls[k - 1]),
    ensures
        begun.1 == if cancellations@.len() == 0 {
            ExecutionAction::<B, E>::ExecuteHead { outcome: PlanPublicationOutcome::Success }
        } else {
            ExecutionAction::<B, E>::Wait
        },
        forall|i: int|
            0 <= i < events.len() ==> ({
                let plans = cancellations@.len() as int;
                let before = events.take(i);
                match events[i] {
                    ExecutionEvent::Publication(Ok(_)) => #[trigger] actions[i] == if none_failed(
                        before,
                    ) && acknowledged(before) + 1 == plans {
                        ExecutionAction::<B, E>::ExecuteHead {
                            outcome: PlanPublicationOutcome::Success,
                        }
                    } else {
                        ExecutionAction::<B, E>::Wait
                    },
                    ExecutionEvent::Publication(Err(failure)) => if none_failed(before)
                        && acknowledged(before) < plans {
                        actions[i] matches ExecutionAction::CancelPublished {
                            outcome,
                            error,
                            cancellations: withdrawn,
                        } && error == failure.error && withdrawn@ == cancellations@ && outcome == (
                        match failure.problem {
                            PublicationProblem::TimedOut =>
                            PlanPublicationOutcome::PublicationTimeout,
                            PublicationProblem::Abandoned => PlanPublicationOutcome::Cancellation,
                            PublicationProblem::Unresolved(_) => PlanPublicationOutcome::Other,
                            PublicationProblem::Rejected(_) => PlanPublicationOutcome::Other,
                        })
                    } else {
                        actions[i] is Wait
                    },
                    ExecutionEvent::HeadStarted(Ok(_)) => actions[i] is Wait,
                    ExecutionEvent::HeadStarted(Err(error)) => actions[i] == if head_is_due(
                        plans,
                        before,
                    ) {
                        ExecutionAction::<B, E>::Finish(Err(error))
                    } else {
                        ExecutionAction::<B, E>::Wait
                    },
                    ExecutionEvent::Batch(batch) => actions[i] == if head_is_running(
                        plans,
                        before,
                    ) {
                        ExecutionAction::<B, E>::Forward(batch)
                    } else {
                        ExecutionAction::<B, E>::Wait
                    },
                    ExecutionEvent::OutputClosed | ExecutionEvent::HeadEnded => actions[i]
                        == if head_is_running(plans, before) {
                        ExecutionAction::<B, E>::Finish(Ok(()))
                    } else {
                        ExecutionAction::<B, E>::Wait
                    },
                }
            }),
{
    let plans = cancellations@.len() as usize;
    assert(cancellations.len() == plans);
    assert forall|i: int| #![trigger actions[i]] 0 <= i < events.len() implies ({
        let before = events.take(i);
        let state = execution_after_all::<B, E>(plans, before);
        &&& (calls[i].step(), calls[i].pending()) == state
        &&& call_ensures(PlanExecution::on_event::<B, E>, (calls[i], events[i]), actions[i])
        &&& calls[i].wf()
        &&& calls[i].step() != ExecutionStep::Ended ==> calls[i].cancellations() == cancellations@
        &&& state.0 == ExecutionStep::Publishing <==> none_failed(before) && acknowledged(before)
            < plans
        &&& state.0 == ExecutionStep::Publishing ==> state.1 + acknowledged(before) == plans
        &&& state.0 == ExecutionStep::Starting <==> head_is_due(plans as int, before)
        &&& state.0 == ExecutionStep::Running <==> head_is_running(plans as int, before)
    }) by {
        lemma_execution_state(cancellations, begun, calls, events, actions, i);
        execution_goes_by_what_happened(plans, events.take(i));
        lemma_publishing_counts(plans, events.take(i));
    }
}

/// What the end of a coordinator task means for its query: `Err` with a text where the task did
/// not run to its end.
pub fn coordinator_task_ended<E>(ended: Result<Result<(), E>, String>) -> (r: Result<
    (),
    DistributedError<E>,
>)
    ensures
        match ended {
            Ok(Ok(_)) => r is Ok,
            Ok(Err(error)) => r == Err::<(), _>(DistributedError::Source(error)),
            Err(reason) => r matches Err(DistributedError::Plan(error)) && error@
                == crate::error::PlanErrorView::Internal("Coordinator task failed: "@ + reason@),
        },
{
    match ended {
        Ok(Ok(_)) => Ok(()),
        Ok(Err(error)) => Err(DistributedError::Source(error)),
        Err(reason) => {
            let mut message = "Coordinator task failed: ".to_string();
            message.append(reason.as_str());
            Err(DistributedError::Plan(PlanError::Internal(message)))
        },
    }
}

/// What the slot of the prepared plan holds after an attempt to execute that has prepared this
/// plan, or none.
pub open spec fn held_after<P>(held: Option<P>, prepared: Option<P>) -> Option<P> {
    match prepared {
        Some(plan) => Some(plan),
        None => held,
    }
}

/// What the slot of a new node holds after all of these attempts.
pub open spec fn held_after_all<P>(attempts: Seq<Option<P>>) -> Option<P>
    decreases attempts.len(),
{
    if attempts.len() == 0 {
        None
    } else {
        held_after(held_after_all(attempts.drop_last()), attempts.last())
    }
}

/// Whether the attempt at position `i` is the latest that has prepared a plan.
pub open spec fn is_latest<P>(attempts: Seq<Option<P>>, i: int) -> bool {
    &&& 0 <= i < attempts.len()
    &&& attempts[i] is Some
    &&& forall|k: int| i < k < attempts.len() ==> #[trigger] attempts[k] is None
}

proof fn lemma_latest_is_held<P>(attempts: Seq<Option<P>>, i: int)
    requires
        is_latest(attempts, i),
    ensures
        held_after_all(attempts) == attempts[i],
    decreases attempts.len(),
{
    let last = attempts.len() - 1;
    if i < last {
        let before = attempts.drop_last();
        assert(attempts[last] is None);
        assert forall|k: int| i < k < before.len() implies #[trigger] before[k] is None by {
            assert(attempts[k] is None);
        }
        lemma_latest_is_held(before, i);
    }
}

proof fn lemma_nothing_held<P>(attempts: Seq<Option<P>>)
    ensures
        held_after_all(attempts) is None <==> forall|i: int|
            0 <= i < attempts.len() ==> #[trigger] attempts[i] is None,
    decreases attempts.len(),
{
    if attempts.len() > 0 {
        let before = attempts.drop_last();
        let last = attempts.len() - 1;
        lemma_nothing_held(before);
        assert(attempts[last] == attempts.last());
        assert forall|i: int| 0 <= i < last implies before[i] == #[trigger] attempts[i] by {}
        if held_after_all(before) is Some {
            let i = choose|i: int| 0 <= i < before.len() && #[trigger] before[i] is Some;
            assert(attempts[i] is Some);
        }
    }
}

/// After any number of attempts to execute, there is a prepared plan exactly when one of them has
/// prepared one, and it is the one of the latest of those. An attempt that fails leaves it in
/// place.
pub proof fn latest_prepared_plan_is_held<P>(attempts: Seq<Option<P>>)
    ensures
        held_after_all(attempts) is None <==> forall|i: int|
            0 <= i < attempts.len() ==> #[trigger] attempts[i] is None,
        forall|i: int| #[trigger]
            is_latest(attempts, i) ==> held_after_all(attempts) == attempts[i],
{
    lemma_nothing_held(attempts);
    assert forall|i: int| #[trigger] is_latest(attempts, i) implies held_after_all(attempts)
        == attempts[i] by {
        lemma_latest_is_held(attempts, i);
    }
}

/// Holds the plan that was prepared last.
pub struct PreparedPlanSlot<P> {
    plan: Option<P>,
}

impl<P> PreparedPlanSlot<P> {
    /// The plan that was prepared last.
    pub closed spec fn plan(&self) -> Option<P> {
        self.plan
    }

    /// Nothing was prepared yet.
    pub fn new() -> (r: Self)
        ensures
            r.plan() == held_after_all(Seq::<Option<P>>::empty()),
    {
        PreparedPlanSlot { plan: None }
    }

    /// A plan was prepared for execution, together with what its execution needs; or it could not
    /// be, and then the one that was prepared before it stays in place.
    pub fn on_prepared<R, E>(&mut self, prepared: Result<(P, R), E>) -> (r: Result<R, E>)
        ensures
            match prepared {
                Ok((plan, rest)) => final(self).plan() == held_after(old(self).plan(), Some(plan))
                    && r == Ok::<R, E>(rest),
                Err(error) => final(self).plan() == held_after(old(self).plan(), None)
                    && r == Err::<R, E>(error),
            },
    {
        match prepared {
            Ok((plan, rest)) => {
                self.plan = Some(plan);
                Ok(rest)
            },
            Err(error) => Err(error),
        }
    }

    /// The plan that was prepared last. It is an error to ask before any was.
    pub fn prepared_plan(&self) -> (r: Result<&P, PlanError>)
        ensures
            match self.plan() {
                Some(plan) => r matches Ok(p) && *p == plan,
                None => r matches Err(error) && error@ == crate::error::PlanErrorView::Internal(
                    "No prepared plan found. Was execute() called?"@,
                ),
            },
    {
        match &self.plan {
            Some(plan) => Ok(plan),
            None => Err(
                PlanError::Internal("No prepared plan found. Was execute() called?".to_string()),
            ),
        }
    }
}

/// A plan that was prepared is the one that is found afterwards, until another one is prepared. An
/// attempt that prepares none passes its error on and changes nothing.
pub proof fn prepared_plans_are_found<P, R, E>(
    slot: &mut PreparedPlanSlot<P>,
    prepared: Result<(P, R), E>,
    r: Result<R, E>,
    found_before: Result<&P, PlanError>,
    found_after: Result<&P, PlanError>,
)
    requires
        call_ensures(PreparedPlanSlot::<P>::prepared_plan, (&*slot,), found_before),
        call_ensures(PreparedPlanSlot::<P>::on_prepared::<R, E>, (slot, prepared), r),
        call_ensures(PreparedPlanSlot::<P>::prepared_plan, (&*final(slot),), found_after),
    ensures
        match prepared {
            Ok((plan, rest)) => r == Ok::<R, E>(rest) && (found_after matches Ok(p) && *p == plan),
            Err(error) => r == Err::<R, E>(error) && (found_before is Ok <==> found_after is Ok)
                && (found_before matches Ok(p) ==> *p == *found_after->Ok_0),
        },
        found_after matches Err(error) ==> error@ == crate::error::PlanErrorView::Internal(
            "No prepared plan found. Was execute() called?"@,
        ),
{
}

/// Executes a plan of type `P` in distributed mode. The slot `S` of the prepared plan and the
/// metrics `X` are shared by all nodes that were made from one another.
pub struct DistributedExec<P, S, X, T> {
    plan: P,
    prepared_plan: Arc<S>,
    metrics: Arc<X>,
    metrics_store: Option<Arc<T>>,
}

/// What has to be waited for until the metrics of a query are complete.
pub enum MetricsWait {
    /// Nothing.
    Ready,
    /// The metrics of these tasks.
    Tasks(Vec<TaskKey>),
}

/// The keys of all tasks of a stage.
pub open spec fn stage_keys(stage: LocalStage) -> Seq<crate::task_key::TaskKeyView> {
    Seq::new(
        stage.tasks as nat,
        |i: int|
            crate::coordinator::task_spawner::stage_task_key(
                stage.query_id,
                stage.num,
                i as usize,
            ),
    )
}

/// The keys of all tasks of `stages`.
pub open spec fn query_keys(stages: Seq<LocalStage>) -> Seq<crate::task_key::TaskKeyView>
    decreases stages.len(),
{
    if stages.len() == 0 {
        Seq::empty()
    } else {
        query_keys(stages.drop_last()) + stage_keys(stages.last())
    }
}

/// What `keys` say.
pub open spec fn key_views(keys: Seq<TaskKey>) -> Seq<crate::task_key::TaskKeyView> {
    keys.map_values(|key: TaskKey| key@)
}

/// The keys of all tasks of `stages`.
fn expected_keys(stages: &Vec<LocalStage>) -> (r: Vec<TaskKey>)
    ensures
        key_views(r@) == query_keys(stages@),
{
    let mut keys: Vec<TaskKey> = Vec::new();
    assert(key_views(keys@) =~= query_keys(stages@.take(0)));
    let mut s: usize = 0;
    while s < stages.len()
        invariant
            s <= stages@.len(),
            key_views(keys@) == query_keys(stages@.take(s as int)),
        decreases stages@.len() - s,
    {
        let stage = stages[s];
        let ghost before = key_views(keys@);
        let mut i: usize = 0;
        while i < stage.tasks
            invariant
                i <= stage.tasks,
                key_views(keys@) == before + stage_keys(stage).take(i as int),
            decreases stage.tasks - i,
        {
            let ghost earlier = keys@;
            keys.push(make_task_key(stage.query_id, stage.num, i));
            assert(key_views(keys@) =~= key_views(earlier).push(stage_keys(stage)[i as int]));
            assert(stage_keys(stage).take(i + 1) =~= stage_keys(stage).take(i as int).push(
                stage_keys(stage)[i as int],
            ));
            i += 1;
        }
        proof {
            assert(stage_keys(stage).take(stage.tasks as int) =~= stage_keys(stage));
            let next = stages@.take(s + 1);
            assert(next.drop_last() =~= stages@.take(s as int));
            assert(next.last() == stage);
        }
        s += 1;
    }
    assert(stages@.take(stages@.len() as int) =~= stages@);
    keys
}

/// Whether nothing more is to come: every expected task has reported its metrics, or its channel
/// was closed without them, as it is for a task that was never executed.
pub open spec fn settled(
    expected: Seq<crate::task_key::TaskKeyView>,
    reported: Seq<crate::task_key::TaskKeyView>,
    closed: Seq<crate::task_key::TaskKeyView>,
) -> bool {
    forall|i: int|
        0 <= i < expected.len() ==> reported.contains(#[trigger] expected[i]) || closed.contains(
            expected[i],
        )
}

/// Tasks that were never executed do not hold up the wait for metrics: it ends when the channels of
/// all tasks that have not reported are closed, and whatever comes after that does not reopen it.
pub proof fn closed_channels_end_the_wait(
    expected: Seq<crate::task_key::TaskKeyView>,
    reported: Seq<crate::task_key::TaskKeyView>,
    closed: Seq<crate::task_key::TaskKeyView>,
    reported_later: Seq<crate::task_key::TaskKeyView>,
    closed_later: Seq<crate::task_key::TaskKeyView>,
)
    requires
        forall|key: crate::task_key::TaskKeyView| #[trigger]
            expected.contains(key) && !reported.contains(key) ==> closed.contains(key),
    ensures
        settled(expected, reported, closed),
        settled(expected, reported + reported_later, closed + closed_later),
{
    let all_reported = reported + reported_later;
    let all_closed = closed + closed_later;
    assert forall|i: int| 0 <= i < expected.len() implies (reported.contains(#[trigger] expected[i])
        || closed.contains(expected[i])) && (all_reported.contains(expected[i])
        || all_closed.contains(expected[i])) by {
        assert(expected.contains(expected[i]));
        if reported.contains(expected[i]) {
            let k = choose|k: int| 0 <= k < reported.len() && reported[k] == expected[i];
            assert(all_reported[k] == expected[i]);
        } else {
            let k = choose|k: int| 0 <= k < closed.len() && closed[k] == expected[i];
            assert(all_closed[k] == expected[i]);
        }
    }
}

/// Whether `key` is one of `keys`.
fn is_among(key: &TaskKey, keys: &Vec<TaskKey>) -> (r: bool)
    ensures
        r == key_views(keys@).contains(key@),
{
    let mut i: usize = 0;
    while i < keys.len()
        invariant
            i <= keys@.len(),
            forall|k: int| 0 <= k < i ==> (#[trigger] keys@[k])@ != key@,
        decreases keys@.len() - i,
    {
        if keys[i].same(key) {
            assert(key_views(keys@)[i as int] == key@);
            return true;
        }
        i += 1;
    }
    assert forall|k: int| 0 <= k < key_views(keys@).len() implies #[trigger] key_views(keys@)[k]
        != key@ by {
        assert(keys@[k]@ != key@);
    }
    false
}

/// Whether nothing more is to come from the expected tasks: each has reported its metrics, or its
/// channel was closed without them.
pub fn all_settled(
    expected: &Vec<TaskKey>,
    reported: &Vec<TaskKey>,
    closed: &Vec<TaskKey>,
) -> (r: bool)
    ensures
        r == settled(key_views(expected@), key_views(reported@), key_views(closed@)),
{
    let mut i: usize = 0;
    while i < expected.len()
        invariant
            i <= expected@.len(),
            forall|k: int|
                0 <= k < i ==> key_views(reported@).contains(#[trigger] key_views(expected@)[k])
                    || key_views(closed@).contains(key_views(expected@)[k]),
        decreases expected@.len() - i,
    {
        assert(key_views(expected@)[i as int] == expected@[i as int]@);
        if !is_among(&expected[i], reported) && !is_among(&expected[i], closed) {
            return false;
        }
        i += 1;
    }
    true
}

impl<P, S, X, T> DistributedExec<P, S, X, T> {
    /// The plan that is executed.
    pub closed spec fn plan(&self) -> P {
        self.plan
    }

    /// Where the prepared plan is kept.
    pub closed spec fn slot(&self) -> Arc<S> {
        self.prepared_plan
    }

    /// The metrics of this node.
    pub closed spec fn metrics(&self) -> Arc<X> {
        self.metrics
    }

    /// Where the metrics of the tasks are collected, if they are.
    pub closed spec fn store(&self) -> Option<Arc<T>> {
        self.metrics_store
    }

    /// Executes `plan`, without collecting the metrics of its tasks.
    pub fn new(plan: P, prepared_plan: S, metrics: X) -> (r: Self)
        ensures
            r.plan() == plan,
            *r.slot() == prepared_plan,
            *r.metrics() == metrics,
            r.store() is None,
    {
        DistributedExec {
            plan,
            prepared_plan: Arc::new(prepared_plan),
            metrics: Arc::new(metrics),
            metrics_store: None,
        }
    }

    /// Collects the metrics of the tasks in a fresh store, or stops collecting them.
    pub fn with_metrics_collection(self, enabled: bool, fresh: T) -> (r: Self)
        ensures
            r.plan() == self.plan(),
            r.slot() == self.slot(),
            r.metrics() == self.metrics(),
            enabled ==> (r.store() matches Some(store) && *store == fresh),
            !enabled ==> r.store() is None,
    {
        DistributedExec {
            metrics_store: if enabled {
                Some(Arc::new(fresh))
            } else {
                None
            },
            ..self
        }
    }

    /// What has to be waited for until the metrics of all tasks of `stages` are complete.
    pub fn wait_for_metrics(&self, stages: &Vec<LocalStage>) -> (r: MetricsWait)
        ensures
            self.store() is None || query_keys(stages@).len() == 0 <==> r is Ready,
            r matches MetricsWait::Tasks(keys) ==> key_views(keys@) == query_keys(stages@),
    {
        if self.metrics_store.is_none() {
            return MetricsWait::Ready;
        }
        let keys = expected_keys(stages);
        assert(key_views(keys@).len() == keys@.len());
        if keys.len() == 0 {
            return MetricsWait::Ready;
        }
        MetricsWait::Tasks(keys)
    }

    /// The name of this node.
    pub fn name(&self) -> (r: &'static str)
        ensures
            r@ == "DistributedExec"@,
    {
        "DistributedExec"
    }

    /// The plan that is executed, as the only child of this node.
    pub fn child(&self) -> (r: &P)
        ensures
            *r == self.plan(),
    {
        &self.plan
    }

    /// Where the prepared plan is kept.
    pub fn prepared_slot(&self) -> (r: &Arc<S>)
        ensures
            *r == self.slot(),
    {
        &self.prepared_plan
    }

    /// The metrics of this node.
    pub fn metrics_set(&self) -> (r: &Arc<X>)
        ensures
            *r == self.metrics(),
    {
        &self.metrics
    }

    /// Where the metrics of the tasks are collected, if they are.
    pub fn metrics_store(&self) -> (r: &Option<Arc<T>>)
        ensures
            *r == self.store(),
    {
        &self.metrics_store
    }

    /// This node over another plan. There has to be exactly one. The new node shares the prepared
    /// plan, the metrics and the store with this one.
    pub fn with_new_children(&self, children: Vec<P>) -> (r: Result<Self, PlanError>)
        ensures
            if children@.len() == 1 {
                r matches Ok(node) && node.plan() == children@[0] && node.slot() == self.slot()
                    && node.metrics() == self.metrics() && node.store() == self.store()
            } else {
                r matches Err(error) && error@ == crate::error::PlanErrorView::Internal(
                    "Expected exactly 1 child, got "@ + crate::text::decimal(
                        children@.len() as nat,
                    ),
                )
            },
    {
        let mut children = children;
        let count: usize = children.len();
        let plan = match children.pop() {
            Some(plan) if count == 1 => plan,
            _ => {
                let mut message = "Expected exactly 1 child, got ".to_string();
                push_decimal(&mut message, count as u64);
                return Err(PlanError::Internal(message));
            },
        };
        let metrics_store = match &self.metrics_store {
            Some(store) => Some(store.clone()),
            None => None,
        };
        Ok(
            DistributedExec {
                plan,
                prepared_plan: self.prepared_plan.clone(),
                metrics: self.metrics.clone(),
                metrics_store,
            },
        )
    }

    /// Whether this partition can be executed. Workers are assigned on execution, so there is
    /// only one partition.
    pub fn execute(&self, partition: usize) -> (r: Result<(), PlanError>)
        ensures
            r is Ok <==> partition == 0,
            r matches Err(error) ==> error@ == crate::error::PlanErrorView::Execution(
                "DistributedExec must only have 1 partition, but it was called with partition index "@
                    + crate::text::decimal(partition as nat),
            ),
    {
        if partition > 0 {
            let mut message =
                "DistributedExec must only have 1 partition, but it was called with partition index ".to_string();
            push_decimal(&mut message, partition as u64);
            return Err(PlanError::Execution(message));
        }
        Ok(())
    }
}

/// Whether `keys` holds the key of task `i` of the stage at position `s`, behind those of all tasks
/// before it.
pub open spec fn awaits_task(
    keys: Seq<TaskKey>,
    stages: Seq<LocalStage>,
    s: int,
    i: int,
) -> bool {
    let at = task_count(stages.take(s)) + i;
    &&& 0 <= at < keys.len()
    &&& keys[at].query_id@ == crate::ids::id_bytes(stages[s].query_id)
    &&& keys[at].stage_id == stages[s].num
    &&& keys[at].task_number == i
}

/// How many tasks `stages` have.
pub open spec fn task_count(stages: Seq<LocalStage>) -> int
    decreases stages.len(),
{
    if stages.len() == 0 {
        0
    } else {
        task_count(stages.drop_last()) + stages.last().tasks
    }
}

proof fn lemma_task_counts(stages: Seq<LocalStage>)
    ensures
        query_keys(stages).len() == task_count(stages),
        forall|s: int| 0 <= s <= stages.len() ==> 0 <= #[trigger] task_count(stages.take(s))
            <= task_count(stages),
    decreases stages.len(),
{
    assert(stages.take(stages.len() as int) =~= stages);
    if stages.len() > 0 {
        let before = stages.drop_last();
        lemma_task_counts(before);
        assert forall|s: int| 0 <= s <= stages.len() implies 0 <= #[trigger] task_count(
            stages.take(s),
        ) <= task_count(stages) by {
            if s < stages.len() {
                assert(before.take(s) =~= stages.take(s));
            }
            assert(before.take(before.len() as int) =~= before);
        }
    }
}

proof fn lemma_key_of_task(stages: Seq<LocalStage>, s: int, i: int)
    requires
        0 <= s < stages.len(),
        0 <= i < stages[s].tasks,
    ensures
        0 <= task_count(stages.take(s)) + i < query_keys(stages).len(),
        query_keys(stages)[task_count(stages.take(s)) + i]
            == crate::coordinator::task_spawner::stage_task_key(
            stages[s].query_id,
            stages[s].num,
            i as usize,
        ),
    decreases stages.len(),
{
    let before = stages.drop_last();
    lemma_task_counts(stages);
    lemma_task_counts(before);
    if s < before.len() {
        lemma_key_of_task(before, s, i);
        assert(before.take(s) =~= stages.take(s));
    } else {
        assert(stages.take(s) =~= before);
    }
}

/// The metrics of all tasks of all stages are waited for, and of no others: stage by stage, and
/// within a stage from its first task to its last. Nothing is waited for where no metrics are
/// collected, or where there are no tasks.
pub proof fn metrics_of_every_task_are_awaited<P, S, X, T>(
    node: &DistributedExec<P, S, X, T>,
    stages: &Vec<LocalStage>,
    store: &Option<Arc<T>>,
    r: MetricsWait,
)
    requires
        call_ensures(DistributedExec::<P, S, X, T>::metrics_store, (node,), store),
        call_ensures(DistributedExec::<P, S, X, T>::wait_for_metrics, (node, stages), r),
    ensures
        r is Ready <==> *store is None || task_count(stages@) == 0,
        r matches MetricsWait::Tasks(keys) ==> keys@.len() == task_count(stages@) && forall|
            s: int,
            i: int,
        |
            0 <= s < stages@.len() && 0 <= i < stages@[s].tasks ==> #[trigger] awaits_task(
                keys@,
                stages@,
                s,
                i,
            ),
{
    lemma_task_counts(stages@);
    if let MetricsWait::Tasks(keys) = r {
        assert(key_views(keys@).len() == keys@.len());
        assert forall|s: int, i: int|
            0 <= s < stages@.len() && 0 <= i < stages@[s].tasks implies #[trigger] awaits_task(
            keys@,
            stages@,
            s,
            i,
        ) by {
            lemma_key_of_task(stages@, s, i);
            let at = task_count(stages@.take(s)) + i;
            assert(key_views(keys@)[at] == keys@[at]@);
        }
    }
}

/// Whether one of `keys` is `key`.
pub open spec fn is_one_of(key: crate::task_key::TaskKeyView, keys: Seq<TaskKey>) -> bool {
    exists|j: int| 0 <= j < keys.len() && (#[trigger] keys[j])@ == key
}

proof fn lemma_is_one_of(key: crate::task_key::TaskKeyView, keys: Seq<TaskKey>)
    ensures
        key_views(keys).contains(key) <==> is_one_of(key, keys),
{
    if key_views(keys).contains(key) {
        let j = choose|j: int| 0 <= j < key_views(keys).len() && key_views(keys)[j] == key;
        assert(keys[j]@ == key);
    }
    if is_one_of(key, keys) {
        let j = choose|j: int| 0 <= j < keys.len() && (#[trigger] keys[j])@ == key;
        assert(key_views(keys)[j] == key);
    }
}

/// The wait for metrics is over exactly when each task that was waited for has reported them, or
/// has closed its channel.
pub proof fn the_wait_ends_with_the_last_task(
    expected: &Vec<TaskKey>,
    reported: &Vec<TaskKey>,
    closed: &Vec<TaskKey>,
    r: bool,
)
    requires
        call_ensures(all_settled, (expected, reported, closed), r),
    ensures
        r <==> forall|i: int|
            0 <= i < expected@.len() ==> is_one_of((#[trigger] expected@[i])@, reported@)
                || is_one_of(expected@[i]@, closed@),
{
    let wanted = key_views(expected@);
    assert forall|i: int| 0 <= i < wanted.len() implies (#[trigger] wanted[i]) == expected@[i]@ && (
    key_views(reported@).contains(wanted[i]) <==> is_one_of(expected@[i]@, reported@)) && (
    key_views(closed@).contains(wanted[i]) <==> is_one_of(expected@[i]@, closed@)) by {
        lemma_is_one_of(wanted[i], reported@);
        lemma_is_one_of(wanted[i], closed@);
    }
    if r {
        assert forall|i: int| 0 <= i < expected@.len() implies is_one_of(
            (#[trigger] expected@[i])@,
            reported@,
        ) || is_one_of(expected@[i]@, closed@) by {
            assert(wanted[i] == expected@[i]@);
        }
    }
}

/// A node in distributed mode has one partition and one child. One that is made from another over a
/// new child shares everything else with it, and collecting metrics anew changes nothing but where
/// they are collected.
pub proof fn nodes_share_what_they_have<P, S, X, T>(
    node: &DistributedExec<P, S, X, T>,
    partition: usize,
    executed: Result<(), PlanError>,
    children: Vec<P>,
    r: Result<DistributedExec<P, S, X, T>, PlanError>,
    enabled: bool,
    fresh: T,
    collecting: DistributedExec<P, S, X, T>,
)
    requires
        call_ensures(DistributedExec::<P, S, X, T>::execute, (node, partition), executed),
        call_ensures(
            DistributedExec::<P, S, X, T>::with_new_children,
            (node, children),
            r,
        ),
        call_ensures(
            DistributedExec::<P, S, X, T>::with_metrics_collection,
            (*node, enabled, fresh),
            collecting,
        ),
    ensures
        executed is Ok <==> partition == 0,
        executed matches Err(error) ==> error@ == crate::error::PlanErrorView::Execution(
            "DistributedExec must only have 1 partition, but it was called with partition index "@
                + crate::text::decimal(partition as nat),
        ),
        r is Ok <==> children@.len() == 1,
        r matches Err(error) ==> error@ == crate::error::PlanErrorView::Internal(
            "Expected exactly 1 child, got "@ + crate::text::decimal(children@.len()),
        ),
        r matches Ok(other) ==> other.plan() == children@[0] && other.slot() == node.slot()
            && other.metrics() == node.metrics() && other.store() == node.store(),
        collecting.plan() == node.plan(),
        collecting.slot() == node.slot(),
        collecting.metrics() == node.metrics(),
        collecting.store() is Some <==> enabled,
        collecting.store() matches Some(store) ==> *store == fresh,
{
}

/// A query fails with a task of its coordinator exactly where the task has failed or has not run to
/// its end, and then with that error.
pub proof fn coordinator_tasks_fail_their_query<E>(
    ended: Result<Result<(), E>, String>,
    r: Result<(), DistributedError<E>>,
)
    requires
        call_ensures(coordinator_task_ended::<E>, (ended,), r),
    ensures
        r is Ok <==> (ended matches Ok(Ok(_))),
        ended matches Ok(Err(error)) ==> r == Err::<(), _>(DistributedError::Source(error)),
        ended matches Err(reason) ==> (r matches Err(DistributedError::Plan(error)) && error@
            == crate::error::PlanErrorView::Internal("Coordinator task failed: "@ + reason@)),
{
}

} // verus!
