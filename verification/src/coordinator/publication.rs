//! Publication of one task plan on one worker, and its withdrawal.

use crate::error::{DistributedError, PlanError, PLAN_PUBLICATION_ERROR_PREFIX};
use crate::messages::{CancelPlanRequest, CoordinatorToWorker, CoordinatorToWorkerMsg};
use crate::plan_telemetry::{
    PlanPublicationOutcome, PublishedTaskPlanTelemetry, SerializedTaskPlanTelemetry,
};
use crate::status::RpcStatus;
use crate::task_key::TaskKey;
use crate::text::{parse_decimal, push_decimal, push_hex16};
use std::time::Duration;
use vstd::prelude::*;
use vstd::string::*;

verus! {

/// How long the coordinator waits for a worker to acknowledge a task plan.
pub const PLAN_PUBLICATION_TIMEOUT_SECS: u64 = 30;

/// How long the coordinator waits for each step of the withdrawal of a task plan.
pub const PLAN_CANCELLATION_TIMEOUT_SECS: u64 = 5;

/// Why a task plan was not published.
#[derive(Debug)]
pub enum PublicationProblem {
    /// No channel to the worker could be had, for this reason.
    Unresolved(String),
    /// The worker did not accept the plan, for this reason.
    Rejected(String),
    /// The worker did not acknowledge the plan in time.
    TimedOut,
    /// The task that publishes the plan ended before the worker answered.
    Abandoned,
}

/// What a problem is called inside messages.
pub open spec fn problem_text(problem: PublicationProblem) -> Seq<char> {
    match problem {
        PublicationProblem::Unresolved(_) => "failed"@,
        PublicationProblem::Rejected(_) => "failed"@,
        PublicationProblem::TimedOut => "timeout after "@ + crate::text::decimal(
            PLAN_PUBLICATION_TIMEOUT_SECS as nat,
        ) + "s"@,
        PublicationProblem::Abandoned => "task ended without acknowledgement"@,
    }
}

/// How far publication had come when a problem arose.
pub open spec fn phase_text(problem: PublicationProblem) -> Seq<char> {
    match problem {
        PublicationProblem::Unresolved(reason) => "resolving worker channel: "@ + reason@,
        PublicationProblem::Rejected(reason) =>
        "waiting for CoordinatorChannel acknowledgement: "@ + reason@,
        PublicationProblem::TimedOut =>
        "resolving worker and waiting for CoordinatorChannel acknowledgement, last_completed_phase=plan serialized"@,
        PublicationProblem::Abandoned =>
        "waiting for CoordinatorChannel acknowledgement, last_completed_phase=plan serialized"@,
    }
}

/// The message of a failed publication.
pub open spec fn publication_text(
    problem: Seq<char>,
    key: crate::task_key::TaskKeyView,
    plan_fingerprint: u64,
    worker: Seq<char>,
    phase: Seq<char>,
) -> Seq<char> {
    PLAN_PUBLICATION_ERROR_PREFIX@ + " Plan publication "@ + problem + ": task_key="@
        + crate::task_key::task_key_text(key) + ", plan_fingerprint="@ + crate::text::hex(
        plan_fingerprint as nat,
        16,
    ) + ", worker="@ + worker + ", phase="@ + phase
}

/// How the measurements of a query call a problem.
pub open spec fn outcome_of(problem: PublicationProblem) -> PlanPublicationOutcome {
    match problem {
        PublicationProblem::Unresolved(_) => PlanPublicationOutcome::Other,
        PublicationProblem::Rejected(_) => PlanPublicationOutcome::Other,
        PublicationProblem::TimedOut => PlanPublicationOutcome::PublicationTimeout,
        PublicationProblem::Abandoned => PlanPublicationOutcome::Cancellation,
    }
}

/// A task plan that was not published: why not, and the error that its query ends with.
#[derive(Debug)]
pub struct PublicationFailure<E> {
    /// Why the plan was not published.
    pub problem: PublicationProblem,
    /// What the query is told.
    pub error: E,
}

impl PublicationProblem {
    /// How the measurements of a query call this problem.
    pub fn outcome(&self) -> (r: PlanPublicationOutcome)
        ensures
            r == outcome_of(*self),
    {
        match self {
            PublicationProblem::TimedOut => PlanPublicationOutcome::PublicationTimeout,
            PublicationProblem::Abandoned => PlanPublicationOutcome::Cancellation,
            _ => PlanPublicationOutcome::Other,
        }
    }
}

/// A task plan on its way to a worker.
#[derive(Debug)]
pub struct PlanPublication {
    /// The task that the plan is for.
    pub task_key: TaskKey,
    /// Fingerprint of the encoded plan.
    pub plan_fingerprint: u64,
    /// The worker that the plan is sent to.
    pub worker: String,
}

impl PlanPublication {
    /// The message of a publication that failed with `problem`.
    pub open spec fn failure_text(&self, problem: PublicationProblem) -> Seq<char> {
        publication_text(
            problem_text(problem),
            self.task_key@,
            self.plan_fingerprint,
            self.worker@,
            phase_text(problem),
        )
    }

    /// The error of a publication that failed with `problem`.
    pub fn error(&self, problem: &PublicationProblem) -> (r: PlanError)
        ensures
            r@ == crate::error::PlanErrorView::Execution(self.failure_text(*problem)),
    {
        let mut what = String::new();
        let mut phase = String::new();
        match problem {
            PublicationProblem::Unresolved(reason) => {
                what.append("failed");
                phase.append("resolving worker channel: ");
                phase.append(reason.as_str());
            },
            PublicationProblem::Rejected(reason) => {
                what.append("failed");
                phase.append("waiting for CoordinatorChannel acknowledgement: ");
                phase.append(reason.as_str());
            },
            PublicationProblem::TimedOut => {
                what.append("timeout after ");
                push_decimal(&mut what, PLAN_PUBLICATION_TIMEOUT_SECS);
                what.append("s");
                phase.append(
                    "resolving worker and waiting for CoordinatorChannel acknowledgement, last_completed_phase=plan serialized",
                );
            },
            PublicationProblem::Abandoned => {
                what.append("task ended without acknowledgement");
                phase.append(
                    "waiting for CoordinatorChannel acknowledgement, last_completed_phase=plan serialized",
                );
            },
        }
        assert(what@ =~= problem_text(*problem));
        assert(phase@ =~= phase_text(*problem));
        let mut message = PLAN_PUBLICATION_ERROR_PREFIX.to_string();
        message.append(" Plan publication ");
        message.append(what.as_str());
        message.append(": task_key=");
        self.task_key.push_text(&mut message);
        message.append(", plan_fingerprint=");
        push_hex16(&mut message, self.plan_fingerprint);
        message.append(", worker=");
        message.append(self.worker.as_str());
        message.append(", phase=");
        message.append(phase.as_str());
        PlanError::Execution(message)
    }
}

/// What is said about a status: the error that travelled with it where one could be decoded, the
/// status itself otherwise.
pub open spec fn status_reason(
    error: crate::status::RpcStatusView,
    decoded: Option<String>,
) -> Seq<char> {
    match decoded {
        Some(decoded) => decoded@,
        None => crate::status::status_text(error),
    }
}

/// What is said about a status.
fn describe_status(error: &RpcStatus, decoded: Option<String>) -> (r: String)
    ensures
        r@ == status_reason(error@, decoded),
{
    match decoded {
        Some(decoded) => decoded,
        None => error.to_text(),
    }
}

/// The error of a publication that a worker answered with a status. `decoded` is the error that
/// travelled with the status, where there was one.
pub fn plan_publication_status_error(
    error: &RpcStatus,
    decoded: Option<String>,
    task_key: &TaskKey,
    plan_fingerprint: u64,
    worker: &str,
) -> (r: PlanError)
    ensures
        r@ == crate::error::PlanErrorView::Execution(
            publication_text(
                "failed"@,
                task_key@,
                plan_fingerprint,
                worker@,
                "waiting for CoordinatorChannel acknowledgement: "@ + status_reason(
                    error@,
                    decoded,
                ),
            ),
        ),
{
    let publication = PlanPublication {
        task_key: task_key.clone(),
        plan_fingerprint,
        worker: worker.to_string(),
    };
    publication.error(&PublicationProblem::Rejected(describe_status(error, decoded)))
}

/// What a query whose plan was not published is told: that plan publication has failed and how,
/// which task, which plan and which worker it was about, and how far it had come. The error always
/// begins with the marker by which publication errors are known.
pub proof fn publication_errors_tell_what_happened(
    publication: PlanPublication,
    problem: PublicationProblem,
    r: PlanError,
    outcome: PlanPublicationOutcome,
)
    requires
        call_ensures(PlanPublication::error, (&publication, &problem), r),
        call_ensures(PublicationProblem::outcome, (&problem,), outcome),
    ensures
        ({
            let about = ": task_key="@ + crate::task_key::task_key_text(publication.task_key@)
                + ", plan_fingerprint="@ + crate::text::hex(
                publication.plan_fingerprint as nat,
                16,
            ) + ", worker="@ + publication.worker@ + ", phase="@;
            let marker = PLAN_PUBLICATION_ERROR_PREFIX@ + " Plan publication "@;
            match problem {
                PublicationProblem::Unresolved(reason) => outcome == PlanPublicationOutcome::Other
                    && r@ == crate::error::PlanErrorView::Execution(
                    marker + "failed"@ + about + "resolving worker channel: "@ + reason@,
                ),
                PublicationProblem::Rejected(reason) => outcome == PlanPublicationOutcome::Other
                    && r@ == crate::error::PlanErrorView::Execution(
                    marker + "failed"@ + about
                        + "waiting for CoordinatorChannel acknowledgement: "@ + reason@,
                ),
                PublicationProblem::TimedOut => outcome
                    == PlanPublicationOutcome::PublicationTimeout && r@
                    == crate::error::PlanErrorView::Execution(
                    marker + "timeout after "@ + crate::text::decimal(30) + "s"@ + about
                        + "resolving worker and waiting for CoordinatorChannel acknowledgement, last_completed_phase=plan serialized"@,
                ),
                PublicationProblem::Abandoned => outcome == PlanPublicationOutcome::Cancellation
                    && r@ == crate::error::PlanErrorView::Execution(
                    marker + "task ended without acknowledgement"@ + about
                        + "waiting for CoordinatorChannel acknowledgement, last_completed_phase=plan serialized"@,
                ),
            }
        }),
{
    let about = ": task_key="@ + crate::task_key::task_key_text(publication.task_key@)
        + ", plan_fingerprint="@ + crate::text::hex(publication.plan_fingerprint as nat, 16)
        + ", worker="@ + publication.worker@ + ", phase="@;
    let marker = PLAN_PUBLICATION_ERROR_PREFIX@ + " Plan publication "@;
    let text = publication.failure_text(problem);
    match problem {
        PublicationProblem::Unresolved(reason) => {
            assert(text =~= marker + "failed"@ + about + "resolving worker channel: "@ + reason@);
        },
        PublicationProblem::Rejected(reason) => {
            assert(text =~= marker + "failed"@ + about
                + "waiting for CoordinatorChannel acknowledgement: "@ + reason@);
        },
        PublicationProblem::TimedOut => {
            assert(text =~= marker + "timeout after "@ + crate::text::decimal(30) + "s"@ + about
                + "resolving worker and waiting for CoordinatorChannel acknowledgement, last_completed_phase=plan serialized"@);
        },
        PublicationProblem::Abandoned => {
            assert(text =~= marker + "task ended without acknowledgement"@ + about
                + "waiting for CoordinatorChannel acknowledgement, last_completed_phase=plan serialized"@);
        },
    }
}

/// A plan that a worker refuses is reported like any other publication that was rejected, with the
/// error that travelled with the status where one could be decoded, and with the status otherwise.
pub proof fn refusals_are_reported(
    status: &RpcStatus,
    shown: String,
    decoded: Option<String>,
    publication: PlanPublication,
    worker: &str,
    problem: PublicationProblem,
    expected: PlanError,
    r: PlanError,
)
    requires
        call_ensures(RpcStatus::to_text, (status,), shown),
        problem matches PublicationProblem::Rejected(reason) && reason@ == (match decoded {
            Some(decoded) => decoded@,
            None => shown@,
        }),
        publication.worker@ == worker@,
        call_ensures(PlanPublication::error, (&publication, &problem), expected),
        call_ensures(
            plan_publication_status_error,
            (status, decoded, &publication.task_key, publication.plan_fingerprint, worker),
            r,
        ),
    ensures
        r@ == expected@,
{
}

/// How far the task that publishes a plan has come.
#[derive(Clone, Copy, Debug, PartialEq, Eq, Structural)]
pub enum PublicationPhase {
    /// The worker has not answered yet.
    Publishing,
    /// The worker has acknowledged the plan; what it says is passed on.
    Streaming,
    /// Nothing is left to do.
    Finished,
}

/// What happens to the task that publishes a plan.
pub enum PublicationEvent<M, E> {
    /// No channel to the worker could be had.
    Unresolved(String),
    /// The worker answered with a status, from which an error may have been decoded.
    Rejected { status: RpcStatus, decoded: Option<String> },
    /// The worker did not answer in time.
    TimedOut,
    /// The worker acknowledged the plan.
    Acknowledged,
    /// The worker says something.
    Message(M),
    /// The stream from the worker broke, with an error where one could be decoded.
    StreamFailed(Option<E>),
    /// Nobody wants to hear from the worker any more.
    ReceiverDropped,
    /// The worker has nothing more to say.
    StreamEnded,
}

/// What the task that publishes a plan does next.
pub enum PublicationAction<M, E> {
    /// Report the failure to whoever waits for the publication, and end without an error.
    ReportFailure { problem: PublicationProblem, error: PlanError },
    /// Report success, and account for the time and the bytes that it took.
    ReportPublished { plan_bytes: usize },
    /// Pass the message on.
    Forward(M),
    /// End.
    Finish(Result<(), DistributedError<E>>),
    /// Nothing.
    Ignore,
}

/// The task that publishes a plan on a worker.
pub struct PublicationTask {
    publication: PlanPublication,
    plan_size: usize,
    phase: PublicationPhase,
}

/// The phase that follows on `event`.
pub open spec fn phase_after<M, E>(
    phase: PublicationPhase,
    event: PublicationEvent<M, E>,
) -> PublicationPhase {
    match phase {
        PublicationPhase::Publishing => match event {
            PublicationEvent::Unresolved(_) => PublicationPhase::Finished,
            PublicationEvent::Rejected { .. } => PublicationPhase::Finished,
            PublicationEvent::TimedOut => PublicationPhase::Finished,
            PublicationEvent::Acknowledged => PublicationPhase::Streaming,
            _ => phase,
        },
        PublicationPhase::Streaming => match event {
            PublicationEvent::StreamFailed(_) => PublicationPhase::Finished,
            PublicationEvent::ReceiverDropped => PublicationPhase::Finished,
            PublicationEvent::StreamEnded => PublicationPhase::Finished,
            _ => phase,
        },
        PublicationPhase::Finished => phase,
    }
}

/// The phase that follows on all of `events`.
pub open spec fn phase_after_all<M, E>(
    phase: PublicationPhase,
    events: Seq<PublicationEvent<M, E>>,
) -> PublicationPhase
    decreases events.len(),
{
    if events.len() == 0 {
        phase
    } else {
        phase_after(phase_after_all(phase, events.drop_last()), events.last())
    }
}

/// The problem that `event` means for a plan whose worker has not answered yet.
pub open spec fn problem_of<M, E>(
    event: PublicationEvent<M, E>,
    problem: PublicationProblem,
) -> bool {
    match event {
        PublicationEvent::Unresolved(reason) => problem == PublicationProblem::Unresolved(reason),
        PublicationEvent::Rejected { status, decoded } =>
        problem matches PublicationProblem::Rejected(reason) && reason@ == status_reason(
            status@,
            decoded,
        ),
        PublicationEvent::TimedOut => problem == PublicationProblem::TimedOut,
        _ => false,
    }
}

/// Whether `action` is what follows on `event`.
pub open spec fn acts_on<M, E>(
    publication: PlanPublication,
    plan_size: usize,
    phase: PublicationPhase,
    event: PublicationEvent<M, E>,
    action: PublicationAction<M, E>,
) -> bool {
    match phase {
        PublicationPhase::Publishing => match event {
            PublicationEvent::Unresolved(_) | PublicationEvent::Rejected { .. }
            | PublicationEvent::TimedOut => {
                action matches PublicationAction::ReportFailure { problem, error } && problem_of(
                    event,
                    problem,
                ) && error@ == crate::error::PlanErrorView::Execution(
                    publication.failure_text(problem),
                )
            },
            PublicationEvent::Acknowledged => action == PublicationAction::<
                M,
                E,
            >::ReportPublished { plan_bytes: plan_size },
            _ => action is Ignore,
        },
        PublicationPhase::Streaming => match event {
            PublicationEvent::Message(message) => action == PublicationAction::<M, E>::Forward(
                message,
            ),
            PublicationEvent::StreamFailed(Some(error)) => action == PublicationAction::<
                M,
                E,
            >::Finish(Err(DistributedError::Source(error))),
            PublicationEvent::StreamFailed(None) => {
                action matches PublicationAction::Finish(Err(DistributedError::Plan(error)))
                    && error@ == crate::error::PlanErrorView::Execution(
                    "Unknown error on worker to coordinator stream"@,
                )
            },
            PublicationEvent::ReceiverDropped | PublicationEvent::StreamEnded => action
                == PublicationAction::<M, E>::Finish(Ok(())),
            _ => action is Ignore,
        },
        PublicationPhase::Finished => action is Ignore,
    }
}

/// How many nanoseconds a worker reports to have spent on the publication of a plan: none where it
/// says nothing, or nothing that can be read.
pub open spec fn reported_nanos(header: Option<&str>) -> u64 {
    match header {
        Some(header) => match crate::text::decimal_value(header@) {
            Some(nanos) => if nanos <= u64::MAX {
                nanos as u64
            } else {
                0
            },
            None => 0,
        },
        None => 0,
    }
}

/// The coordinator reads back the time that a worker reports.
pub proof fn worker_time_is_read_back(duration: Duration, header: &str)
    requires
        header@ == crate::text::decimal(crate::duration::capped_nanos(duration) as nat),
    ensures
        reported_nanos(Some(header)) == crate::duration::capped_nanos(duration),
{
    crate::text::decimal_round_trip(crate::duration::capped_nanos(duration) as nat);
}

impl PublicationTask {
    /// The plan that is published.
    pub closed spec fn publication(&self) -> PlanPublication {
        self.publication
    }

    /// Number of bytes of the encoded plan.
    pub closed spec fn plan_size(&self) -> usize {
        self.plan_size
    }

    /// How far publication has come.
    pub closed spec fn phase(&self) -> PublicationPhase {
        self.phase
    }

    /// Starts to publish a plan of `plan_size` encoded bytes.
    pub fn new(publication: PlanPublication, plan_size: usize) -> (r: Self)
        ensures
            r.publication() == publication,
            r.plan_size() == plan_size,
            r.phase() == PublicationPhase::Publishing,
    {
        PublicationTask { publication, plan_size, phase: PublicationPhase::Publishing }
    }

    /// What is measured of a plan that took this long to be specialized and serialized.
    pub fn serialized_telemetry(&self, elapsed: Duration) -> (r: SerializedTaskPlanTelemetry)
        ensures
            r.task_key@ == self.publication().task_key@,
            r.serialized_bytes == self.plan_size(),
            r.serialization_duration == elapsed,
    {
        SerializedTaskPlanTelemetry {
            task_key: self.publication.task_key.clone(),
            serialized_bytes: self.plan_size,
            serialization_duration: elapsed,
        }
    }

    /// What is measured of a plan that was acknowledged after this long. `header` is what the
    /// worker says of its own share; the rest of the time was spent on the transfer.
    pub fn published_telemetry(
        &self,
        elapsed: Duration,
        header: Option<&str>,
    ) -> (r: PublishedTaskPlanTelemetry)
        ensures
            r.task_key@ == self.publication().task_key@,
            crate::duration::total_nanos(r.worker_decode_publication_duration)
                == reported_nanos(header),
            crate::duration::total_nanos(r.coordinator_transfer_duration)
                == if crate::duration::total_nanos(elapsed) >= reported_nanos(header) {
                crate::duration::total_nanos(elapsed) - reported_nanos(header)
            } else {
                0
            },
            r.outcome == PlanPublicationOutcome::Success,
    {
        let reported: Option<u64> = match header {
            Some(header) => parse_decimal(header),
            None => None,
        };
        let worker_duration = match reported {
            Some(nanos) => Duration::from_nanos(nanos),
            None => Duration::from_nanos(0),
        };
        PublishedTaskPlanTelemetry {
            task_key: self.publication.task_key.clone(),
            coordinator_transfer_duration: elapsed.saturating_sub(worker_duration),
            worker_decode_publication_duration: worker_duration,
            outcome: PlanPublicationOutcome::Success,
        }
    }

    /// What whoever waits for the publication is told when the task is gone before it has reported
    /// anything.
    pub fn abandoned(&self) -> (r: PlanError)
        ensures
            r@ == crate::error::PlanErrorView::Execution(
                self.publication().failure_text(PublicationProblem::Abandoned),
            ),
    {
        self.publication.error(&PublicationProblem::Abandoned)
    }

    /// Decides what follows on `event`.
    pub fn on_event<M, E>(&mut self, event: PublicationEvent<M, E>) -> (action: PublicationAction<
        M,
        E,
    >)
        ensures
            final(self).publication() == old(self).publication(),
            final(self).plan_size() == old(self).plan_size(),
            final(self).phase() == phase_after(old(self).phase(), event),
            acts_on(
                old(self).publication(),
                old(self).plan_size(),
                old(self).phase(),
                event,
                action,
            ),
    {
        match self.phase {
            PublicationPhase::Publishing => {
                let problem = match event {
                    PublicationEvent::Acknowledged => {
                        self.phase = PublicationPhase::Streaming;
                        return PublicationAction::ReportPublished { plan_bytes: self.plan_size };
                    },
                    PublicationEvent::Unresolved(reason) => PublicationProblem::Unresolved(reason),
                    PublicationEvent::Rejected { status, decoded } => PublicationProblem::Rejected(
                        describe_status(&status, decoded),
                    ),
                    PublicationEvent::TimedOut => PublicationProblem::TimedOut,
                    _ => {
                        return PublicationAction::Ignore;
                    },
                };
                self.phase = PublicationPhase::Finished;
                let error = self.publication.error(&problem);
                PublicationAction::ReportFailure { problem, error }
            },
            PublicationPhase::Streaming => match event {
                PublicationEvent::Message(message) => PublicationAction::Forward(message),
                PublicationEvent::StreamFailed(error) => {
                    self.phase = PublicationPhase::Finished;
                    PublicationAction::Finish(
                        Err(
                            match error {
                                Some(error) => DistributedError::Source(error),
                                None => DistributedError::Plan(
                                    PlanError::Execution(
                                        "Unknown error on worker to coordinator stream".to_string(),
                                    ),
                                ),
                            },
                        ),
                    )
                },
                PublicationEvent::ReceiverDropped | PublicationEvent::StreamEnded => {
                    self.phase = PublicationPhase::Finished;
                    PublicationAction::Finish(Ok(()))
                },
                _ => PublicationAction::Ignore,
            },
            PublicationPhase::Finished => PublicationAction::Ignore,
        }
    }
}

/// Whether the event at position `i` makes the task report how publication went.
pub open spec fn reports_publication_at<M, E>(
    events: Seq<PublicationEvent<M, E>>,
    i: int,
) -> bool {
    &&& 0 <= i < events.len()
    &&& phase_after_all(PublicationPhase::Publishing, events.take(i))
        == PublicationPhase::Publishing
    &&& phase_after_all(PublicationPhase::Publishing, events.take(i + 1))
        != PublicationPhase::Publishing
}

/// A report on the publication is exactly what ends the wait for the worker's answer.
pub proof fn report_ends_the_wait<M, E>(
    publication: PlanPublication,
    plan_size: usize,
    phase: PublicationPhase,
    event: PublicationEvent<M, E>,
    action: PublicationAction<M, E>,
)
    requires
        acts_on(publication, plan_size, phase, event, action),
    ensures
        action is ReportFailure || action is ReportPublished <==> phase
            == PublicationPhase::Publishing && phase_after(phase, event)
            != PublicationPhase::Publishing,
        action is ReportPublished <==> phase == PublicationPhase::Publishing
            && event is Acknowledged,
{
}

proof fn lemma_publishing_prefix<M, E>(events: Seq<PublicationEvent<M, E>>, i: int, j: int)
    requires
        0 <= i <= j <= events.len(),
        phase_after_all(PublicationPhase::Publishing, events.take(j))
            == PublicationPhase::Publishing,
    ensures
        phase_after_all(PublicationPhase::Publishing, events.take(i))
            == PublicationPhase::Publishing,
    decreases j - i,
{
    if i < j {
        assert(events.take(j).drop_last() =~= events.take(j - 1));
        lemma_publishing_prefix(events, i, j - 1);
    }
}

/// Whoever waits for a publication is told at most once how it went, whatever happens.
pub proof fn publication_reported_at_most_once<M, E>(
    events: Seq<PublicationEvent<M, E>>,
    i: int,
    j: int,
)
    requires
        reports_publication_at(events, i),
        reports_publication_at(events, j),
    ensures
        i == j,
{
    if i < j {
        lemma_publishing_prefix(events, i + 1, j);
    }
    if j < i {
        lemma_publishing_prefix(events, j + 1, i);
    }
}

/// Whether `event` is an answer of the worker to a plan, or stands in for one.
pub open spec fn is_answer<M, E>(event: PublicationEvent<M, E>) -> bool {
    event is Unresolved || event is Rejected || event is TimedOut || event is Acknowledged
}

/// Whether `event` ends what a worker says.
pub open spec fn is_farewell<M, E>(event: PublicationEvent<M, E>) -> bool {
    event is StreamFailed || event is ReceiverDropped || event is StreamEnded
}

/// Whether the worker has not answered yet.
pub open spec fn unanswered<M, E>(events: Seq<PublicationEvent<M, E>>) -> bool {
    forall|i: int| 0 <= i < events.len() ==> !is_answer(#[trigger] events[i])
}

/// Whether the first answer, at position `a`, was an acknowledgement, and the worker may have more
/// to say.
pub open spec fn listening_since<M, E>(events: Seq<PublicationEvent<M, E>>, a: int) -> bool {
    &&& 0 <= a < events.len()
    &&& events[a] is Acknowledged
    &&& forall|i: int| 0 <= i < a ==> !is_answer(#[trigger] events[i])
    &&& forall|i: int| a < i < events.len() ==> !is_farewell(#[trigger] events[i])
}

/// Whether the worker has acknowledged the plan and may have more to say.
pub open spec fn listening<M, E>(events: Seq<PublicationEvent<M, E>>) -> bool {
    exists|a: int| #[trigger] listening_since(events, a)
}

proof fn lemma_unanswered_step<M, E>(events: Seq<PublicationEvent<M, E>>)
    requires
        events.len() > 0,
    ensures
        unanswered(events) <==> unanswered(events.drop_last()) && !is_answer(events.last()),
{
    let before = events.drop_last();
    if unanswered(events) {
        assert forall|i: int| 0 <= i < before.len() implies !is_answer(#[trigger] before[i]) by {
            assert(!is_answer(events[i]));
        }
        assert(!is_answer(events[events.len() - 1]));
    }
    if unanswered(before) && !is_answer(events.last()) {
        assert forall|i: int| 0 <= i < events.len() implies !is_answer(#[trigger] events[i]) by {
            if i < before.len() {
                assert(!is_answer(before[i]));
            }
        }
    }
}

proof fn lemma_listening_step<M, E>(events: Seq<PublicationEvent<M, E>>)
    requires
        events.len() > 0,
    ensures
        listening(events) <==> (unanswered(events.drop_last()) && events.last() is Acknowledged)
            || (listening(events.drop_last()) && !is_farewell(events.last())),
        listening(events) ==> !unanswered(events),
{
    let before = events.drop_last();
    let last = events.len() - 1;
    if listening(events) {
        let a = choose|a: int| #[trigger] listening_since(events, a);
        assert(is_answer(events[a]));
        if a < last {
            assert forall|i: int| 0 <= i < a implies !is_answer(#[trigger] before[i]) by {
                assert(!is_answer(events[i]));
            }
            assert forall|i: int| a < i < before.len() implies !is_farewell(
                #[trigger] before[i],
            ) by {
                assert(!is_farewell(events[i]));
            }
            assert(listening_since(before, a));
            assert(!is_farewell(events[last]));
        } else {
            assert forall|i: int| 0 <= i < before.len() implies !is_answer(
                #[trigger] before[i],
            ) by {
                assert(!is_answer(events[i]));
            }
        }
    }
    if unanswered(before) && events.last() is Acknowledged {
        assert forall|i: int| 0 <= i < last implies !is_answer(#[trigger] events[i]) by {
            assert(!is_answer(before[i]));
        }
        assert(listening_since(events, last));
    }
    if listening(before) && !is_farewell(events.last()) {
        let a = choose|a: int| #[trigger] listening_since(before, a);
        assert forall|i: int| 0 <= i < a implies !is_answer(#[trigger] events[i]) by {
            assert(!is_answer(before[i]));
        }
        assert forall|i: int| a < i < events.len() implies !is_farewell(#[trigger] events[i]) by {
            if i < last {
                assert(!is_farewell(before[i]));
            }
        }
        assert(listening_since(events, a));
    }
}

proof fn lemma_phase<M, E>(events: Seq<PublicationEvent<M, E>>)
    ensures
        phase_after_all(PublicationPhase::Publishing, events) == PublicationPhase::Publishing
            <==> unanswered(events),
        phase_after_all(PublicationPhase::Publishing, events) == PublicationPhase::Streaming
            <==> listening(events),
    decreases events.len(),
{
    if events.len() > 0 {
        lemma_phase(events.drop_last());
        lemma_unanswered_step(events);
        lemma_listening_step(events);
        if listening(events.drop_last()) {
            let a = choose|a: int| #[trigger] listening_since(events.drop_last(), a);
            assert(is_answer(events.drop_last()[a]));
        }
    }
}

proof fn lemma_publication_state<M, E>(
    publication: PlanPublication,
    plan_size: usize,
    begun: PublicationTask,
    calls: Seq<&mut PublicationTask>,
    events: Seq<PublicationEvent<M, E>>,
    actions: Seq<PublicationAction<M, E>>,
    i: int,
)
    requires
        call_ensures(PublicationTask::new, (publication, plan_size), begun),
        calls.len() == events.len(),
        actions.len() == events.len(),
        calls.len() > 0 ==> *calls[0] == begun,
        forall|k: int|
            0 <= k < calls.len() ==> call_ensures(
                PublicationTask::on_event::<M, E>,
                (#[trigger] calls[k], events[k]),
                actions[k],
            ),
        forall|k: int| 0 < k < calls.len() ==> *(#[trigger] calls[k]) == *final(calls[k - 1]),
        0 <= i < calls.len(),
    ensures
        calls[i].phase() == phase_after_all(PublicationPhase::Publishing, events.take(i)),
        calls[i].publication() == publication,
        calls[i].plan_size() == plan_size,
    decreases i,
{
    if i > 0 {
        lemma_publication_state(publication, plan_size, begun, calls, events, actions, i - 1);
        assert(call_ensures(
            PublicationTask::on_event::<M, E>,
            (calls[i - 1], events[i - 1]),
            actions[i - 1],
        ));
        assert(*calls[i] == *final(calls[i - 1]));
        assert(events.take(i).drop_last() =~= events.take(i - 1));
        assert(events.take(i).last() == events[i - 1]);
    }
}

/// Everything that the task that publishes a plan does, call by call: the first answer is reported,
/// as success with the size of the plan where the worker has acknowledged it, and with its own
/// problem otherwise; what the worker says after that is passed on, up to the first thing that ends
/// it; and nothing else is done.
pub proof fn publications_go_by_their_first_answer<M, E>(
    publication: PlanPublication,
    plan_size: usize,
    begun: PublicationTask,
    calls: Seq<&mut PublicationTask>,
    events: Seq<PublicationEvent<M, E>>,
    actions: Seq<PublicationAction<M, E>>,
    k: int,
)
    requires
        call_ensures(PublicationTask::new, (publication, plan_size), begun),
        calls.len() == events.len(),
        actions.len() == events.len(),
        calls.len() > 0 ==> *calls[0] == begun,
        forall|i: int|
            0 <= i < calls.len() ==> call_ensures(
                PublicationTask::on_event::<M, E>,
                (#[trigger] calls[i], events[i]),
                actions[i],
            ),
        forall|i: int| 0 < i < calls.len() ==> *(#[trigger] calls[i]) == *final(calls[i - 1]),
        0 <= k < calls.len(),
    ensures
        ({
            let before = events.take(k);
            let action = actions[k];
            if unanswered(before) {
                match events[k] {
                    PublicationEvent::Acknowledged =>
                    action matches PublicationAction::ReportPublished { plan_bytes } && plan_bytes
                        == plan_size,
                    PublicationEvent::Unresolved(reason) =>
                    action matches PublicationAction::ReportFailure { problem, error } && problem
                        == PublicationProblem::Unresolved(reason) && error@
                        == crate::error::PlanErrorView::Execution(
                        publication.failure_text(problem),
                    ),
                    PublicationEvent::Rejected { status, decoded } =>
                    action matches PublicationAction::ReportFailure { problem, error } && (
                    problem matches PublicationProblem::Rejected(reason) && reason@ == (
                    match decoded {
                        Some(decoded) => decoded@,
                        None => crate::status::status_text(status@),
                    })) && error@ == crate::error::PlanErrorView::Execution(
                        publication.failure_text(problem),
                    ),
                    PublicationEvent::TimedOut =>
                    action matches PublicationAction::ReportFailure { problem, error } && problem
                        == PublicationProblem::TimedOut && error@
                        == crate::error::PlanErrorView::Execution(
                        publication.failure_text(problem),
                    ),
                    _ => action is Ignore,
                }
            } else if listening(before) {
                match events[k] {
                    PublicationEvent::Message(message) => action == PublicationAction::<
                        M,
                        E,
                    >::Forward(message),
                    PublicationEvent::StreamFailed(Some(error)) => action == PublicationAction::<
                        M,
                        E,
                    >::Finish(Err(DistributedError::Source(error))),
                    PublicationEvent::StreamFailed(None) =>
                    action matches PublicationAction::Finish(Err(DistributedError::Plan(error)))
                        && error@ == crate::error::PlanErrorView::Execution(
                        "Unknown error on worker to coordinator stream"@,
                    ),
                    PublicationEvent::ReceiverDropped | PublicationEvent::StreamEnded => action
                        == PublicationAction::<M, E>::Finish(Ok(())),
                    _ => action is Ignore,
                }
            } else {
                action is Ignore
            }
        }),
{
    lemma_publication_state(publication, plan_size, begun, calls, events, actions, k);
    lemma_phase(events.take(k));
    assert(call_ensures(PublicationTask::on_event::<M, E>, (calls[k], events[k]), actions[k]));
}

/// The time that a plan took to be published is shared out between the worker and the transfer: the
/// worker has what it reports in base ten, and nothing where it reports nothing or nothing that can
/// be read; the transfer has the rest, if there is one.
pub proof fn publication_time_is_shared_out(
    publication: PlanPublication,
    plan_size: usize,
    task: PublicationTask,
    elapsed: Duration,
    header: &str,
    parsed: Option<u64>,
    silent: PublishedTaskPlanTelemetry,
    reported: PublishedTaskPlanTelemetry,
    serialized: SerializedTaskPlanTelemetry,
)
    requires
        call_ensures(PublicationTask::new, (publication, plan_size), task),
        call_ensures(parse_decimal, (header,), parsed),
        call_ensures(PublicationTask::published_telemetry, (&task, elapsed, None), silent),
        call_ensures(
            PublicationTask::published_telemetry,
            (&task, elapsed, Some(header)),
            reported,
        ),
        call_ensures(PublicationTask::serialized_telemetry, (&task, elapsed), serialized),
    ensures
        crate::duration::total_nanos(silent.worker_decode_publication_duration) == 0,
        crate::duration::total_nanos(silent.coordinator_transfer_duration)
            == crate::duration::total_nanos(elapsed),
        ({
            let worker = crate::duration::total_nanos(reported.worker_decode_publication_duration);
            let transfer = crate::duration::total_nanos(reported.coordinator_transfer_duration);
            &&& worker == (match parsed {
                Some(nanos) => nanos as int,
                None => 0,
            })
            &&& worker <= crate::duration::total_nanos(elapsed) ==> worker + transfer
                == crate::duration::total_nanos(elapsed)
            &&& worker > crate::duration::total_nanos(elapsed) ==> transfer == 0
        }),
        reported.task_key@ == publication.task_key@,
        reported.outcome == PlanPublicationOutcome::Success,
        serialized.task_key@ == publication.task_key@,
        serialized.serialized_bytes == plan_size,
        serialized.serialization_duration == elapsed,
{
}

/// The withdrawal of a task plan from its worker.
#[derive(Debug)]
pub struct PlanCancellation {
    /// The task whose plan is withdrawn.
    pub task_key: TaskKey,
    /// The worker that the plan was sent to.
    pub url: String,
}

/// What happened last while a plan is withdrawn.
#[derive(Clone, Copy, Debug)]
pub enum CancellationEvent {
    /// Nothing yet.
    Started,
    /// The request was put on the stream to the worker, or the stream was closed.
    StreamNotified,
    /// A channel to the worker was had, or it was not had in time.
    ClientResolved(bool),
    /// The call to the worker ended, in whichever way.
    Called,
}

/// The next step of a withdrawal.
pub enum CancellationStep<U> {
    /// Put the message on the stream to the worker; a closed stream is no problem.
    NotifyStream(CoordinatorToWorkerMsg<U>),
    /// Get a channel to the worker, within this many seconds.
    ResolveClient { url: String, timeout_secs: u64 },
    /// Call the worker, within this many seconds.
    CallWorker { request: CancelPlanRequest, timeout_secs: u64 },
    /// Nothing is left to do.
    Done,
}

impl Clone for PlanCancellation {
    fn clone(&self) -> (r: PlanCancellation)
        ensures
            r.task_key@ == self.task_key@,
            r.url@ == self.url@,
    {
        PlanCancellation { task_key: self.task_key.clone(), url: self.url.clone() }
    }
}

impl PlanCancellation {
    /// The message that withdraws the plan over the stream to its worker.
    pub fn cancel_stream<U>(&self) -> (r: CoordinatorToWorkerMsg<U>)
        ensures
            r.inner matches Some(CoordinatorToWorker::CancelPlanRequest(request))
                && crate::messages::cancels(request, self.task_key@),
    {
        CoordinatorToWorkerMsg {
            inner: Some(
                CoordinatorToWorker::CancelPlanRequest(
                    CancelPlanRequest { task_key: Some(self.task_key.clone()) },
                ),
            ),
        }
    }

    /// The step that follows on `last`. The stream is told first; the call to the worker comes
    /// after it, and only where a channel to the worker can be had.
    pub fn cancel<U>(&self, last: CancellationEvent) -> (r: CancellationStep<U>)
        ensures
            match last {
                CancellationEvent::Started => r matches CancellationStep::NotifyStream(message)
                    && message.inner matches Some(CoordinatorToWorker::CancelPlanRequest(request))
                    && crate::messages::cancels(request, self.task_key@),
                CancellationEvent::StreamNotified => r matches CancellationStep::ResolveClient {
                    url,
                    timeout_secs,
                } && url@ == self.url@ && timeout_secs == PLAN_CANCELLATION_TIMEOUT_SECS,
                CancellationEvent::ClientResolved(true) => r matches CancellationStep::CallWorker {
                    request,
                    timeout_secs,
                } && crate::messages::cancels(request, self.task_key@) && timeout_secs
                    == PLAN_CANCELLATION_TIMEOUT_SECS,
                CancellationEvent::ClientResolved(false) => r is Done,
                CancellationEvent::Called => r is Done,
            },
    {
        match last {
            CancellationEvent::Started => CancellationStep::NotifyStream(self.cancel_stream()),
            CancellationEvent::StreamNotified => CancellationStep::ResolveClient {
                url: self.url.clone(),
                timeout_secs: PLAN_CANCELLATION_TIMEOUT_SECS,
            },
            CancellationEvent::ClientResolved(resolved) => if resolved {
                CancellationStep::CallWorker {
                    request: CancelPlanRequest { task_key: Some(self.task_key.clone()) },
                    timeout_secs: PLAN_CANCELLATION_TIMEOUT_SECS,
                }
            } else {
                CancellationStep::Done
            },
            CancellationEvent::Called => CancellationStep::Done,
        }
    }
}

/// A withdrawal tells the stream first, then asks for a channel to the worker that the plan was
/// sent to, and calls it where there is one. Both requests name the task of the plan.
pub proof fn withdrawals_take_both_ways<U>(
    cancellation: &PlanCancellation,
    first: CancellationStep<U>,
    second: CancellationStep<U>,
    third: CancellationStep<U>,
    unreachable: CancellationStep<U>,
    last: CancellationStep<U>,
)
    requires
        call_ensures(
            PlanCancellation::cancel::<U>,
            (cancellation, CancellationEvent::Started),
            first,
        ),
        call_ensures(
            PlanCancellation::cancel::<U>,
            (cancellation, CancellationEvent::StreamNotified),
            second,
        ),
        call_ensures(
            PlanCancellation::cancel::<U>,
            (cancellation, CancellationEvent::ClientResolved(true)),
            third,
        ),
        call_ensures(
            PlanCancellation::cancel::<U>,
            (cancellation, CancellationEvent::ClientResolved(false)),
            unreachable,
        ),
        call_ensures(
            PlanCancellation::cancel::<U>,
            (cancellation, CancellationEvent::Called),
            last,
        ),
    ensures
        first matches CancellationStep::NotifyStream(message)
            && message.inner matches Some(CoordinatorToWorker::CancelPlanRequest(request))
            && request.task_key matches Some(key) && key@ == cancellation.task_key@,
        second matches CancellationStep::ResolveClient { url, timeout_secs } && url@
            == cancellation.url@ && timeout_secs == 5,
        third matches CancellationStep::CallWorker { request, timeout_secs }
            && request.task_key matches Some(key) && key@ == cancellation.task_key@
            && timeout_secs == 5,
        unreachable is Done,
        last is Done,
{
}

} // verus!
