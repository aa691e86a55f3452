//! The conversation of a worker with the coordinator about one task plan.

use crate::coordinator::task_spawner::DistributedTaskContext;
use crate::duration::duration_nanos;
use crate::error::{parse_url, PlanError};
use crate::ids::deserialize_uuid;
use crate::messages::{
    CoordinatorToWorker, CoordinatorToWorkerMsg, SetPlanRequest, TaskMetrics, WorkUnit,
    WorkUnitFeedDeclaration, WorkerToCoordinator, WorkerToCoordinatorMsg,
};
use crate::plan_telemetry::{
    DistributedPlanTelemetryObserver, Notification, PlanPublicationOutcome, WorkerTaskPlanTelemetry,
};
use crate::status::{RpcStatus, StatusCode};
use crate::task_key::TaskKey;
use crate::text::push_decimal;
use crate::worker::plan_proto::decode_plan;
use crate::worker::single_write_multi_read::SingleWriteMultiRead;
use crate::worker::worker_service::{cancel_published_plan, missing, CacheOp};
use datafusion::error::DataFusionError;
use datafusion_proto::protobuf::PhysicalPlanNode;
use std::sync::Arc;
use std::time::Duration;
use vstd::prelude::*;
use vstd::string::*;

verus! {

/// Header under which a worker reports how many nanoseconds the publication of a plan took.
pub const WORKER_PUBLICATION_NANOS_HEADER: &'static str =
    "x-datafusion-worker-plan-publication-nanos";

/// A work unit feed that a task plan reads from.
#[derive(Clone, Copy, Debug, PartialEq, Eq, Structural)]
pub struct FeedRegistration {
    /// The feed.
    pub id: u128,
    /// Number of its partitions in the task.
    pub partitions: usize,
}

/// The feeds that `declarations` announce. Declarations whose identifier cannot be read are left
/// out.
pub open spec fn feeds_of(declarations: Seq<WorkUnitFeedDeclaration>) -> Seq<FeedRegistration>
    decreases declarations.len(),
{
    if declarations.len() == 0 {
        Seq::empty()
    } else {
        let before = feeds_of(declarations.drop_last());
        let last = declarations.last();
        match crate::ids::id_of(last.id@) {
            Some(id) => before.push(FeedRegistration { id, partitions: last.partitions as usize }),
            None => before,
        }
    }
}

/// The feeds that `declarations` announce. Declarations whose identifier cannot be read are left
/// out.
pub fn declared_feeds(declarations: &Vec<WorkUnitFeedDeclaration>) -> (r: Vec<FeedRegistration>)
    ensures
        r@ == feeds_of(declarations@),
{
    let mut feeds: Vec<FeedRegistration> = Vec::new();
    let mut i: usize = 0;
    while i < declarations.len()
        invariant
            i <= declarations@.len(),
            feeds@ == feeds_of(declarations@.take(i as int)),
        decreases declarations@.len() - i,
    {
        let declaration = &declarations[i];
        proof {
            let next = declarations@.take(i + 1);
            assert(next.drop_last() =~= declarations@.take(i as int));
            assert(next.last() == *declaration);
        }
        if let Ok(id) = deserialize_uuid(&declaration.id) {
            feeds.push(FeedRegistration { id, partitions: declaration.partitions as usize });
        }
        i += 1;
    }
    assert(declarations@.take(declarations@.len() as int) =~= declarations@);
    feeds
}

/// The address of this worker, as the coordinator wrote it.
pub fn worker_url(target_worker_url: &str) -> (r: Result<String, PlanError>)
    ensures
        match crate::error::parsed_url(target_worker_url@) {
            Ok(url) => r matches Ok(u) && u@ == url,
            Err(error) => r matches Err(e) && e@ == crate::error::PlanErrorView::InvalidUrl(error),
        },
{
    match parse_url(target_worker_url) {
        Ok(url) => Ok(url),
        Err(error) => Err(PlanError::InvalidUrl(error)),
    }
}

/// The batch size of the session of a task, where it differs from the default.
pub fn session_batch_size(shuffle_batch_size: usize) -> (r: Option<usize>)
    ensures
        r == if shuffle_batch_size != 0 {
            Some(shuffle_batch_size)
        } else {
            None
        },
{
    if shuffle_batch_size != 0 {
        Some(shuffle_batch_size)
    } else {
        None
    }
}

/// The message of a plan that is refused because it was withdrawn.
pub open spec fn cancelled_text(key: crate::task_key::TaskKeyView) -> Seq<char> {
    "Plan publication cancelled for TaskKey "@ + crate::task_key::task_key_text(key)
}

/// The status of a plan that is refused because it was withdrawn.
pub fn cancelled(key: &TaskKey) -> (r: RpcStatus)
    ensures
        r@ == crate::status::plain_status(StatusCode::Cancelled, cancelled_text(key@)),
{
    let mut message = "Plan publication cancelled for TaskKey ".to_string();
    key.push_text(&mut message);
    RpcStatus::new(StatusCode::Cancelled, message)
}

/// Refuses a plan whose withdrawal is remembered, and forgets what is held of it.
pub fn ensure_plan_not_cancelled(is_cancelled: bool, key: &TaskKey) -> (r: Result<
    (),
    (CacheOp, RpcStatus),
>)
    ensures
        r is Ok <==> !is_cancelled,
        r matches Err(refusal) ==> refusal.0@
            == crate::worker::worker_service::CacheOpView::Invalidate(key@) && refusal.1@
            == crate::status::plain_status(StatusCode::Cancelled, cancelled_text(key@)),
{
    if is_cancelled {
        return Err((CacheOp::Invalidate(key.clone()), cancelled(key)));
    }
    Ok(())
}

/// None of the changes that a worker makes takes a withdrawal back: a plan is refused whenever it
/// is checked, until the withdrawal has been idle for so long that it is dropped.
pub proof fn withdrawal_is_remembered(
    memory: crate::worker::worker_service::WorkerMemory,
    ops: Seq<crate::worker::worker_service::CacheOpView>,
    key: crate::task_key::TaskKeyView,
)
    ensures
        memory.after_all(
            crate::worker::worker_service::cancellation_ops(key),
        ).after_all(ops).cancelled.contains(key),
    decreases ops.len(),
{
    if ops.len() == 0 {
        crate::worker::worker_service::cancellation_withdraws_the_plan(memory, key);
    } else {
        withdrawal_is_remembered(memory, ops.drop_last(), key);
    }
}

/// A worker that hears the request of a withdrawal over the stream of any plan withdraws the plan
/// that the request is about.
pub proof fn withdrawals_name_their_plan(
    request: crate::messages::CancelPlanRequest,
    key: crate::task_key::TaskKeyView,
    own: crate::task_key::TaskKeyView,
)
    requires
        crate::messages::cancels(request, key),
    ensures
        withdrawn_by(request, own) == key,
{
}

/// The task whose plan a request withdraws that is heard over the stream of `own`.
pub open spec fn withdrawn_by(
    request: crate::messages::CancelPlanRequest,
    own: crate::task_key::TaskKeyView,
) -> crate::task_key::TaskKeyView {
    match request.task_key {
        Some(key) => key@,
        None => own,
    }
}

/// Why the plan of a task could not be built: the error for those who execute the task, and the
/// status for the coordinator.
#[derive(Debug)]
pub struct TaskFailure<E> {
    /// What executions of the task are told.
    pub error: E,
    /// What the coordinator is told.
    pub status: RpcStatus,
}

/// The message of a plan that was published twice.
pub open spec fn published_twice_text(key: crate::task_key::TaskKeyView) -> Seq<char> {
    "Logic error while setting plan for TaskKey "@ + crate::task_key::task_key_text(key)
        + ": the plan was set twice. This is a bug in datafusion-distributed, please report it."@
}

/// Publishes the plan of a task, or the reason for which there is none. A failure is published
/// like a plan, and is returned as well.
pub fn publish_task_data<T, E>(
    entry: &mut SingleWriteMultiRead<Result<T, TaskFailure<E>>>,
    key: &TaskKey,
    task_data: Result<T, TaskFailure<E>>,
) -> (r: Result<(), RpcStatus>)
    ensures
        published(*old(entry), *final(entry), key@, task_data, r),
{
    let publication_error = match &task_data {
        Ok(_) => None,
        Err(failure) => Some(failure.status.clone()),
    };
    match entry.write(task_data) {
        Ok(_) => {},
        Err(_) => {
            let mut message = "Logic error while setting plan for TaskKey ".to_string();
            key.push_text(&mut message);
            message.append(
                ": the plan was set twice. This is a bug in datafusion-distributed, please report it.",
            );
            return Err(RpcStatus::new(StatusCode::Internal, message));
        },
    }
    match publication_error {
        Some(status) => Err(status),
        None => Ok(()),
    }
}

/// Whether `r` is what comes of publishing `task_data`.
pub open spec fn published<T, E>(
    before: SingleWriteMultiRead<Result<T, TaskFailure<E>>>,
    after: SingleWriteMultiRead<Result<T, TaskFailure<E>>>,
    key: crate::task_key::TaskKeyView,
    task_data: Result<T, TaskFailure<E>>,
    r: Result<(), RpcStatus>,
) -> bool {
    match before.value() {
        Some(_) => after == before && (r matches Err(status) && status@
            == crate::status::plain_status(StatusCode::Internal, published_twice_text(key))),
        None => after.value() == Some(task_data) && match task_data {
            Ok(_) => r is Ok,
            Err(failure) => r matches Err(status) && status@ == failure.status@,
        },
    }
}

/// Whether `due` tells the observer about a publication attempt.
pub open spec fn attempt_observed<O: DistributedPlanTelemetryObserver + ?Sized>(
    due: Option<Notification<O, WorkerTaskPlanTelemetry>>,
    observer: Option<Arc<O>>,
    key: crate::task_key::TaskKeyView,
    serialized_bytes: usize,
    elapsed: Duration,
    outcome: PlanPublicationOutcome,
) -> bool {
    match observer {
        Some(observer) => due matches Some(due) && due.observer == observer
            && due.telemetry.task_key@ == key && due.telemetry.serialized_bytes
            == serialized_bytes && due.telemetry.decode_publication_duration == elapsed
            && due.telemetry.outcome == outcome,
        None => due is None,
    }
}

/// Tells the observer, where there is one, about a publication attempt.
pub fn observe_worker_plan<O: DistributedPlanTelemetryObserver + ?Sized>(
    observer: &Option<Arc<O>>,
    task_key: TaskKey,
    serialized_bytes: usize,
    decode_publication_duration: Duration,
    outcome: PlanPublicationOutcome,
) -> (due: Option<Notification<O, WorkerTaskPlanTelemetry>>)
    ensures
        attempt_observed(
            due,
            *observer,
            task_key@,
            serialized_bytes,
            decode_publication_duration,
            outcome,
        ),
{
    Notification::to(
        observer,
        WorkerTaskPlanTelemetry {
            task_key,
            serialized_bytes,
            decode_publication_duration,
            outcome,
        },
    )
}

proof fn lemma_feeds_split(a: Seq<WorkUnitFeedDeclaration>, b: Seq<WorkUnitFeedDeclaration>)
    ensures
        feeds_of(a + b) == feeds_of(a) + feeds_of(b),
    decreases b.len(),
{
    if b.len() > 0 {
        assert((a + b).drop_last() =~= a + b.drop_last());
        lemma_feeds_split(a, b.drop_last());
        assert(feeds_of(a + b) =~= feeds_of(a) + feeds_of(b));
    } else {
        assert(a + b =~= a);
        assert(feeds_of(a + b) =~= feeds_of(a) + feeds_of(b));
    }
}

/// The feeds of a task are read declaration by declaration, in order: those of two lists in a row
/// are those of the first and then those of the second. A declaration registers one feed, under
/// the identifier that its bytes stand for and with its number of partitions, if there are sixteen
/// bytes, and none otherwise.
pub proof fn feeds_are_read_one_by_one(
    declarations: &Vec<WorkUnitFeedDeclaration>,
    r: Vec<FeedRegistration>,
    a: Seq<WorkUnitFeedDeclaration>,
    b: Seq<WorkUnitFeedDeclaration>,
    one: WorkUnitFeedDeclaration,
)
    requires
        call_ensures(declared_feeds, (declarations,), r),
    ensures
        r@ == feeds_of(declarations@),
        feeds_of(Seq::empty()) == Seq::<FeedRegistration>::empty(),
        feeds_of(a + b) == feeds_of(a) + feeds_of(b),
        one.id@.len() == 16 ==> feeds_of(seq![one]).len() == 1 && crate::ids::id_bytes(
            feeds_of(seq![one])[0].id,
        ) == one.id@ && feeds_of(seq![one])[0].partitions == one.partitions as usize,
        one.id@.len() != 16 ==> feeds_of(seq![one]) == Seq::<FeedRegistration>::empty(),
{
    lemma_feeds_split(a, b);
    assert(seq![one].drop_last() =~= Seq::<WorkUnitFeedDeclaration>::empty());
    assert(seq![one].last() == one);
    reveal_with_fuel(feeds_of, 2);
    if one.id@.len() == 16 {
        crate::ids::id_bytes_round_trip(one.id@);
    }
}

/// A plan is refused exactly when its withdrawal is remembered: what is held of it is forgotten,
/// and the status says which task it was.
pub proof fn withdrawn_plans_are_refused(
    is_cancelled: bool,
    key: &TaskKey,
    r: Result<(), (CacheOp, RpcStatus)>,
)
    requires
        call_ensures(ensure_plan_not_cancelled, (is_cancelled, key), r),
    ensures
        r is Ok <==> !is_cancelled,
        r matches Err((op, status)) ==> (op matches CacheOp::Invalidate(forgotten) && forgotten@
            == key@) && status.code == StatusCode::Cancelled && status.message@
            == "Plan publication cancelled for TaskKey "@ + crate::task_key::task_key_text(key@),
{
}

/// What is published is what executions find from then on, be it a plan or the reason for which
/// there is none; the coordinator is told of that reason as well. Nothing is ever published over
/// something else.
pub proof fn plans_are_published_once<T, E>(
    entry: &mut SingleWriteMultiRead<Result<T, TaskFailure<E>>>,
    key: &TaskKey,
    task_data: Result<T, TaskFailure<E>>,
    r: Result<(), RpcStatus>,
)
    requires
        call_ensures(publish_task_data::<T, E>, (entry, key, task_data), r),
    ensures
        final(entry).value() == (match old(entry).value() {
            Some(first) => Some(first),
            None => Some(task_data),
        }),
        r is Ok <==> old(entry).value() is None && task_data is Ok,
        old(entry).value() is None ==> (task_data matches Err(failure) ==> r->Err_0@
            == failure.status@),
        old(entry).value() is Some ==> r->Err_0.code == StatusCode::Internal
            && r->Err_0.message@ == "Logic error while setting plan for TaskKey "@
            + crate::task_key::task_key_text(key@)
            + ": the plan was set twice. This is a bug in datafusion-distributed, please report it."@,
{
}

/// An observer, where there is one, is told about the attempt to publish a plan: which task, how
/// many bytes, how long it took, and what came of it.
pub proof fn observers_are_told_of_every_attempt<O: DistributedPlanTelemetryObserver + ?Sized>(
    observer: &Option<Arc<O>>,
    task_key: TaskKey,
    serialized_bytes: usize,
    elapsed: Duration,
    outcome: PlanPublicationOutcome,
    due: Option<Notification<O, WorkerTaskPlanTelemetry>>,
)
    requires
        call_ensures(
            observe_worker_plan::<O>,
            (observer, task_key, serialized_bytes, elapsed, outcome),
            due,
        ),
    ensures
        due is Some <==> *observer is Some,
        due matches Some(due) ==> Some(due.observer) == *observer && due.telemetry.task_key@
            == task_key@ && due.telemetry.serialized_bytes == serialized_bytes
            && due.telemetry.decode_publication_duration == elapsed && due.telemetry.outcome
            == outcome,
        due matches Some(due) ==> attempt_observed(
            Some(due),
            *observer,
            task_key@,
            serialized_bytes,
            elapsed,
            outcome,
        ),
        forall|d: Option<Notification<O, WorkerTaskPlanTelemetry>>| #[trigger]
            attempt_observed(d, *observer, task_key@, serialized_bytes, elapsed, outcome) ==> (d
                is Some <==> *observer is Some) && (d matches Some(n) ==> Some(n.observer)
                == *observer && n.telemetry.task_key@ == task_key@ && n.telemetry.serialized_bytes
                == serialized_bytes && n.telemetry.decode_publication_duration == elapsed
                && n.telemetry.outcome == outcome),
{
}

/// Whether a character may stand in a header that is read back as text.
pub open spec fn visible(c: char) -> bool {
    ' ' <= c <= '~' || c == '\t'
}

/// Makes a header value with `tonic::metadata::MetadataValue::try_from` and reads it back with
/// `to_str`: this works exactly for text of visible ASCII characters and tabs, and gives the text
/// back.
#[verifier::external_body]
fn header_value(text: String) -> (r: Option<String>)
    ensures
        r is Some <==> forall|i: int| 0 <= i < text@.len() ==> visible(#[trigger] text@[i]),
        r matches Some(value) ==> value@ == text@,
{
    let value = tonic::metadata::MetadataValue::try_from(text).ok()?;
    value.to_str().ok().map(|value| value.to_string())
}

proof fn lemma_decimal_visible(n: nat)
    ensures
        forall|i: int|
            0 <= i < crate::text::decimal(n).len() ==> visible(
                #[trigger] crate::text::decimal(n)[i],
            ),
    decreases n,
{
    if n >= 10 {
        lemma_decimal_visible(n / 10);
    }
    assert forall|i: int| 0 <= i < crate::text::decimal(n).len() implies visible(
        #[trigger] crate::text::decimal(n)[i],
    ) by {
        if n >= 10 && i < crate::text::decimal(n / 10).len() {
            assert(crate::text::decimal(n)[i] == crate::text::decimal(n / 10)[i]);
        } else {
            assert(crate::text::decimal(n)[i] == crate::text::digit(n % 10));
        }
    }
}

/// The value of the header under which a worker reports how long the publication of a plan took.
pub fn publication_header(publication_duration: Duration) -> (r: Option<String>)
    ensures
        r matches Some(value) && value@ == crate::text::decimal(
            crate::duration::capped_nanos(publication_duration) as nat,
        ),
{
    let mut text = String::new();
    let nanos: u64 = duration_nanos(publication_duration);
    push_decimal(&mut text, nanos);
    assert(text@ =~= crate::text::decimal(nanos as nat));
    proof {
        lemma_decimal_visible(nanos as nat);
    }
    header_value(text)
}

/// What a worker needs to build the plan of a task.
pub struct TaskBuild {
    /// The place of the task in its stage.
    pub context: DistributedTaskContext,
    /// The feeds that the plan reads from.
    pub feeds: Vec<FeedRegistration>,
    /// The plan that was received; where it cannot be decoded, that is why there is no plan.
    pub plan: Result<PhysicalPlanNode, DataFusionError>,
    /// When the query started.
    pub query_start_time_ns: u64,
    /// The address of this worker; where it cannot be read, that is why there is no plan.
    pub self_url: Result<String, PlanError>,
}

/// What a worker needs to build the plan of a task, once it knows its own address.
pub struct AddressedBuild {
    /// The place of the task in its stage.
    pub context: DistributedTaskContext,
    /// The plan that was received; where it cannot be decoded, that is why there is no plan.
    pub plan: Result<PhysicalPlanNode, DataFusionError>,
    /// When the query started.
    pub query_start_time_ns: u64,
    /// The address of this worker.
    pub self_url: String,
}

/// Why the plan of a task cannot be built.
pub enum BuildFailure {
    /// The address of the worker cannot be read.
    Address(PlanError),
    /// The session of the task cannot be had.
    Session(DataFusionError),
    /// The plan cannot be decoded.
    Plan(DataFusionError),
}

/// The failure that is told of a task that is built in `session`: the address comes before the
/// session, and the session before the plan.
pub open spec fn build_failure<S>(
    build: TaskBuild,
    session: Result<S, DataFusionError>,
) -> Option<BuildFailure> {
    match (build.self_url, session, build.plan) {
        (Err(error), _, _) => Some(BuildFailure::Address(error)),
        (Ok(_), Err(error), _) => Some(BuildFailure::Session(error)),
        (Ok(_), Ok(_), Err(error)) => Some(BuildFailure::Plan(error)),
        (Ok(_), Ok(_), Ok(_)) => None,
    }
}

impl TaskBuild {
    /// What is needed to build the plan, once the address of this worker is known. A worker that
    /// does not know its address builds nothing.
    pub fn addressed(self) -> (r: Result<AddressedBuild, PlanError>)
        ensures
            match self.self_url {
                Ok(url) => r == Ok::<_, PlanError>(
                    (AddressedBuild {
                        context: self.context,
                        plan: self.plan,
                        query_start_time_ns: self.query_start_time_ns,
                        self_url: url,
                    }),
                ),
                Err(error) => r == Err::<AddressedBuild, _>(error),
            },
    {
        match self.self_url {
            Ok(self_url) => Ok(
                AddressedBuild {
                    context: self.context,
                    plan: self.plan,
                    query_start_time_ns: self.query_start_time_ns,
                    self_url,
                },
            ),
            Err(error) => Err(error),
        }
    }
}

/// The session of a task and its decoded plan. Where the session cannot be had, that is told before
/// anything about the plan is.
pub fn plan_in_session<S>(
    session: Result<S, DataFusionError>,
    plan: Result<PhysicalPlanNode, DataFusionError>,
) -> (r: Result<(S, PhysicalPlanNode), DataFusionError>)
    ensures
        match (session, plan) {
            (Err(error), _) => r == Err::<(S, PhysicalPlanNode), _>(error),
            (Ok(_), Err(error)) => r == Err::<(S, PhysicalPlanNode), _>(error),
            (Ok(session), Ok(node)) => r == Ok::<_, DataFusionError>((session, node)),
        },
{
    match session {
        Err(error) => Err(error),
        Ok(session) => match plan {
            Err(error) => Err(error),
            Ok(node) => Ok((session, node)),
        },
    }
}

/// The first failure of a task in the order of address, session and plan is the one that is told;
/// without one, the task goes on with its session and its plan. `addressed` and `in_session` are
/// what comes of the two steps.
pub proof fn first_failure_is_told<S>(
    build: TaskBuild,
    session: Result<S, DataFusionError>,
    addressed: Result<AddressedBuild, PlanError>,
    in_session: Result<(S, PhysicalPlanNode), DataFusionError>,
)
    requires
        call_ensures(TaskBuild::addressed, (build,), addressed),
        addressed matches Ok(next) ==> call_ensures(
            plan_in_session::<S>,
            (session, next.plan),
            in_session,
        ),
    ensures
        match build_failure(build, session) {
            Some(BuildFailure::Address(error)) => addressed == Err::<AddressedBuild, _>(error),
            Some(BuildFailure::Session(error)) => addressed is Ok && in_session == Err::<
                (S, PhysicalPlanNode),
                _,
            >(error),
            Some(BuildFailure::Plan(error)) => addressed is Ok && in_session == Err::<
                (S, PhysicalPlanNode),
                _,
            >(error),
            None => addressed is Ok && in_session == Ok::<_, DataFusionError>(
                (session->Ok_0, build.plan->Ok_0),
            ),
        },
{
}

/// Whether `build` is what `request` asks for.
pub open spec fn builds(
    build: TaskBuild,
    key: crate::task_key::TaskKeyView,
    request: SetPlanRequest,
) -> bool {
    &&& build.context.task_index == key.task_number as usize
    &&& build.context.task_count == request.task_count as usize
    &&& build.feeds@ == feeds_of(request.work_unit_feed_declarations@)
    &&& crate::worker::plan_proto::is_decoded(build.plan, request.plan_proto@)
    &&& build.query_start_time_ns == request.query_start_time_ns
    &&& match crate::error::parsed_url(request.target_worker_url@) {
        Ok(url) => build.self_url matches Ok(u) && u@ == url,
        Err(error) => build.self_url matches Err(e) && e@
            == crate::error::PlanErrorView::InvalidUrl(error),
    }
}

/// The feeds that a coordinator declares are the feeds that a worker registers, one by one and in
/// order.
pub proof fn declared_feeds_are_registered(
    declarations: Seq<WorkUnitFeedDeclaration>,
    feeds: Seq<FeedRegistration>,
)
    requires
        declarations.len() == feeds.len(),
        forall|i: int|
            0 <= i < feeds.len() ==> crate::coordinator::task_spawner::declares(
                declarations[i],
                (#[trigger] feeds[i]).id,
                feeds[i].partitions,
            ),
    ensures
        feeds_of(declarations) == feeds,
    decreases feeds.len(),
{
    if feeds.len() > 0 {
        let before = declarations.drop_last();
        let feeds_before = feeds.drop_last();
        assert forall|i: int|
            0 <= i < feeds_before.len() implies crate::coordinator::task_spawner::declares(
            before[i],
            (#[trigger] feeds_before[i]).id,
            feeds_before[i].partitions,
        ) by {
            assert(feeds_before[i] == feeds[i]);
        }
        declared_feeds_are_registered(before, feeds_before);
        assert(crate::coordinator::task_spawner::declares(
            declarations.last(),
            feeds[feeds.len() - 1].id,
            feeds[feeds.len() - 1].partitions,
        ));
        crate::ids::id_round_trip(feeds.last().id);
        assert(feeds_of(declarations) =~= feeds);
    } else {
        assert(feeds_of(declarations) =~= feeds);
    }
}

/// What a worker builds from the request of a plan task is what the coordinator put into it: the
/// same plan, for the same task in its stage, with the same feeds, at the time at which the query
/// started.
pub proof fn worker_builds_what_was_sent(
    spawner: crate::coordinator::task_spawner::CoordinatorToWorkerTaskSpawner,
    task: crate::coordinator::task_spawner::PlanTask,
    task_i: usize,
    url: Seq<char>,
    plan_proto: Seq<u8>,
    declarations: Seq<WorkUnitFeedDeclaration>,
    plan_fingerprint: u64,
    build: TaskBuild,
)
    requires
        spawner.carries(task, task_i, url, plan_proto, declarations, plan_fingerprint),
        builds(build, task.request.task_key->0@, task.request),
    ensures
        task.request.task_key->0@ == spawner.key_of(task_i),
        build.context.task_index == task_i,
        build.context.task_count == spawner.stage().tasks,
        crate::worker::plan_proto::is_decoded(build.plan, plan_proto),
        build.feeds@ == feeds_of(declarations),
        build.query_start_time_ns == spawner.query_start_time_ns(),
        crate::error::parsed_url(url) matches Ok(read) ==> build.self_url matches Ok(u) && u@
            == read,
{
}

/// How far the conversation about a plan has come.
#[derive(Clone, Copy, Debug, PartialEq, Eq, Structural)]
pub enum ChannelStep {
    /// Waits for the plan.
    AwaitingPlan,
    /// Waits to hear whether the plan was withdrawn before it is built.
    CheckingBefore,
    /// Waits for the plan to be built.
    Building,
    /// Waits to hear whether the plan was withdrawn while it was built.
    CheckingAfter,
    /// The plan is published; what the coordinator says is passed on.
    Serving,
    /// Nothing is left to do.
    Ended,
}

/// What moves the conversation about a plan on.
pub enum ChannelEvent {
    /// The coordinator has said the first thing, which was a plan or something else.
    Opened(bool),
    /// It is known whether the withdrawal of the plan is remembered.
    Checked(bool),
    /// The plan was built and published, or it was not.
    Built(bool),
}

/// How far the conversation has come once `event` has happened.
pub open spec fn channel_after(step: ChannelStep, event: ChannelEvent) -> ChannelStep {
    match (step, event) {
        (ChannelStep::AwaitingPlan, ChannelEvent::Opened(with_plan)) => if with_plan {
            ChannelStep::CheckingBefore
        } else {
            ChannelStep::Ended
        },
        (ChannelStep::CheckingBefore, ChannelEvent::Checked(is_cancelled)) => if is_cancelled {
            ChannelStep::Ended
        } else {
            ChannelStep::Building
        },
        (ChannelStep::Building, ChannelEvent::Built(well)) => if well {
            ChannelStep::CheckingAfter
        } else {
            ChannelStep::Ended
        },
        (ChannelStep::CheckingAfter, ChannelEvent::Checked(is_cancelled)) => if is_cancelled {
            ChannelStep::Ended
        } else {
            ChannelStep::Serving
        },
        _ => step,
    }
}

/// How far a conversation has come once all of `events` have happened.
pub open spec fn channel_after_all(events: Seq<ChannelEvent>) -> ChannelStep
    decreases events.len(),
{
    if events.len() == 0 {
        ChannelStep::AwaitingPlan
    } else {
        channel_after(channel_after_all(events.drop_last()), events.last())
    }
}

/// Whether it was found, at position `i`, that the plan is not withdrawn.
pub open spec fn cleared_at(events: Seq<ChannelEvent>, i: int) -> bool {
    0 <= i < events.len() && events[i] == ChannelEvent::Checked(false)
}

/// Whether the plan was built and published at position `i`.
pub open spec fn built_at(events: Seq<ChannelEvent>, i: int) -> bool {
    0 <= i < events.len() && events[i] == ChannelEvent::Built(true)
}

proof fn lemma_progress(events: Seq<ChannelEvent>)
    ensures
        channel_after_all(events) == ChannelStep::Building ==> exists|i: int|
            #[trigger] cleared_at(events, i),
        channel_after_all(events) == ChannelStep::CheckingAfter ==> exists|i: int, j: int|
            #[trigger] cleared_at(events, i) && #[trigger] built_at(events, j) && i < j,
        channel_after_all(events) == ChannelStep::Serving ==> exists|i: int, j: int, k: int|
            #[trigger] cleared_at(events, i) && #[trigger] built_at(events, j)
                && #[trigger] cleared_at(events, k) && i < j < k,
    decreases events.len(),
{
    if events.len() > 0 {
        let before = events.drop_last();
        let last = events.len() - 1;
        lemma_progress(before);
        let earlier = channel_after_all(before);
        let now = channel_after_all(events);
        if now == ChannelStep::Building {
            if earlier == ChannelStep::Building {
                let i = choose|i: int| #[trigger] cleared_at(before, i);
                assert(cleared_at(events, i));
            } else {
                assert(cleared_at(events, last));
            }
        }
        if now == ChannelStep::CheckingAfter {
            if earlier == ChannelStep::CheckingAfter {
                let (i, j) = choose|i: int, j: int|
                    #[trigger] cleared_at(before, i) && #[trigger] built_at(before, j) && i < j;
                assert(cleared_at(events, i) && built_at(events, j));
            } else {
                let i = choose|i: int| #[trigger] cleared_at(before, i);
                assert(cleared_at(events, i) && built_at(events, last));
            }
        }
        if now == ChannelStep::Serving {
            if earlier == ChannelStep::Serving {
                let (i, j, k) = choose|i: int, j: int, k: int|
                    #[trigger] cleared_at(before, i) && #[trigger] built_at(before, j)
                        && #[trigger] cleared_at(before, k) && i < j < k;
                assert(cleared_at(events, i) && built_at(events, j) && cleared_at(events, k));
            } else {
                let (i, j) = choose|i: int, j: int|
                    #[trigger] cleared_at(before, i) && #[trigger] built_at(before, j) && i < j;
                assert(cleared_at(events, i) && built_at(events, j) && cleared_at(events, last));
            }
        }
    }
}

/// A plan that is acknowledged was found not to be withdrawn before it was built and again after
/// it was published.
pub proof fn acknowledged_plans_were_checked_twice(events: Seq<ChannelEvent>)
    requires
        channel_after_all(events) == ChannelStep::Serving,
    ensures
        exists|i: int, j: int, k: int|
            #[trigger] cleared_at(events, i) && #[trigger] built_at(events, j)
                && #[trigger] cleared_at(events, k) && i < j < k,
{
    lemma_progress(events);
}

/// What a worker does next in the conversation about a plan.
pub enum ChannelAction<O: DistributedPlanTelemetryObserver + ?Sized> {
    /// Find out whether the withdrawal of this plan is remembered.
    CheckCancelled(TaskKey),
    /// Build the plan, and publish what comes of it.
    BuildTask(TaskBuild),
    /// End the conversation with this status.
    Reject(RpcStatus),
    /// Make the change, tell the observer, and end the conversation with this status.
    Refuse {
        op: Option<CacheOp>,
        status: RpcStatus,
        due: Option<Notification<O, WorkerTaskPlanTelemetry>>,
    },
    /// Tell the observer, and acknowledge the plan with this header.
    Acknowledge {
        due: Option<Notification<O, WorkerTaskPlanTelemetry>>,
        header: Option<String>,
    },
    /// This was not waited for; nothing has changed.
    Unexpected,
}

/// What a worker does about something that the coordinator says after it has sent a plan.
pub enum ServingAction<U> {
    /// Hand each of the work units to its feed.
    Deliver(Vec<WorkUnit<U>>),
    /// Make the changes, and stop listening.
    Withdraw(Vec<CacheOp>),
    /// Nothing.
    Ignore,
    /// Stop listening.
    Stop,
}

/// The conversation of a worker with the coordinator about one task plan.
pub struct PlanChannel {
    step: ChannelStep,
    key: TaskKey,
    serialized_bytes: usize,
    build: Option<TaskBuild>,
}

/// What a coordinator that opens a conversation has to say, and what it says instead.
pub open spec fn opening<U>(
    first: Option<Result<CoordinatorToWorkerMsg<U>, RpcStatus>>,
) -> Result<SetPlanRequest, crate::status::RpcStatusView> {
    match first {
        None => Err(
            crate::status::plain_status(StatusCode::Internal, "Empty Coordinator stream"@),
        ),
        Some(Err(status)) => Err(status@),
        Some(Ok(message)) => match message.inner {
            Some(CoordinatorToWorker::SetPlanRequest(request)) => if request.task_key is Some {
                Ok(request)
            } else {
                Err(
                    crate::status::plain_status(
                        StatusCode::InvalidArgument,
                        crate::worker::worker_service::missing_text("task_key"@),
                    ),
                )
            },
            _ => Err(
                crate::status::plain_status(
                    StatusCode::Internal,
                    "First Coordinator message must be SetPlanRequest"@,
                ),
            ),
        },
    }
}

impl PlanChannel {
    /// How far the conversation has come.
    pub closed spec fn step(&self) -> ChannelStep {
        self.step
    }

    /// The task that the conversation is about.
    pub closed spec fn key(&self) -> crate::task_key::TaskKeyView {
        self.key@
    }

    /// Size of the encoded plan.
    pub closed spec fn serialized_bytes(&self) -> usize {
        self.serialized_bytes
    }

    /// What is needed to build the plan.
    pub closed spec fn build(&self) -> Option<TaskBuild> {
        self.build
    }

    /// What holds between two events.
    pub open spec fn wf(&self) -> bool {
        self.step() == ChannelStep::CheckingBefore ==> self.build() is Some
    }

    /// Whether the conversation is still about the same plan.
    pub open spec fn same_plan(&self, before: Self) -> bool {
        self.key() == before.key() && self.serialized_bytes() == before.serialized_bytes()
    }

    /// Opens a conversation.
    pub fn begin() -> (r: Self)
        ensures
            r.wf(),
            r.step() == ChannelStep::AwaitingPlan,
    {
        PlanChannel {
            step: ChannelStep::AwaitingPlan,
            key: TaskKey { query_id: Vec::new(), stage_id: 0, task_number: 0 },
            serialized_bytes: 0,
            build: None,
        }
    }

    /// The coordinator has said the first thing, or it has said nothing.
    pub fn on_first_message<O: DistributedPlanTelemetryObserver + ?Sized, U>(
        &mut self,
        first: Option<Result<CoordinatorToWorkerMsg<U>, RpcStatus>>,
    ) -> (action: ChannelAction<O>)
        requires
            old(self).wf(),
        ensures
            final(self).wf(),
            final(self).step() == channel_after(
                old(self).step(),
                ChannelEvent::Opened(opening(first) is Ok),
            ),
            if old(self).step() != ChannelStep::AwaitingPlan {
                action is Unexpected && *final(self) == *old(self)
            } else {
                match opening(first) {
                    Ok(request) => {
                        &&& final(self).key() == request.task_key->0@
                        &&& final(self).serialized_bytes() == request.plan_proto@.len()
                        &&& final(self).build() matches Some(build) && builds(
                            build,
                            final(self).key(),
                            request,
                        )
                        &&& action matches ChannelAction::CheckCancelled(key) && key@
                            == final(self).key()
                    },
                    Err(status) => action matches ChannelAction::Reject(s) && s@ == status,
                }
            },
    {
        if self.step != ChannelStep::AwaitingPlan {
            return ChannelAction::Unexpected;
        }
        self.step = ChannelStep::Ended;
        let message = match first {
            None => {
                return ChannelAction::Reject(
                    RpcStatus::new(StatusCode::Internal, "Empty Coordinator stream".to_string()),
                );
            },
            Some(Err(status)) => {
                return ChannelAction::Reject(status);
            },
            Some(Ok(message)) => message,
        };
        let request = match message.inner {
            Some(CoordinatorToWorker::SetPlanRequest(request)) => request,
            _ => {
                return ChannelAction::Reject(
                    RpcStatus::new(
                        StatusCode::Internal,
                        "First Coordinator message must be SetPlanRequest".to_string(),
                    ),
                );
            },
        };
        let key = match request.task_key {
            Some(key) => key,
            None => {
                return ChannelAction::Reject(missing("task_key"));
            },
        };
        self.step = ChannelStep::CheckingBefore;
        self.serialized_bytes = request.plan_proto.len();
        self.build = Some(
            TaskBuild {
                context: DistributedTaskContext {
                    task_index: key.task_number as usize,
                    task_count: request.task_count as usize,
                },
                feeds: declared_feeds(&request.work_unit_feed_declarations),
                plan: decode_plan(&request.plan_proto),
                query_start_time_ns: request.query_start_time_ns,
                self_url: worker_url(request.target_worker_url.as_str()),
            },
        );
        self.key = key;
        ChannelAction::CheckCancelled(self.key.clone())
    }

    /// It is known whether the withdrawal of the plan is remembered. A plan that was withdrawn is
    /// refused, before it is built as well as afterwards.
    pub fn on_cancellation_checked<O: DistributedPlanTelemetryObserver + ?Sized>(
        &mut self,
        is_cancelled: bool,
        elapsed: Duration,
        observer: &Option<Arc<O>>,
    ) -> (action: ChannelAction<O>)
        requires
            old(self).wf(),
        ensures
            final(self).wf(),
            final(self).step() == channel_after(
                old(self).step(),
                ChannelEvent::Checked(is_cancelled),
            ),
            if old(self).step() != ChannelStep::CheckingBefore && old(self).step()
                != ChannelStep::CheckingAfter {
                action is Unexpected && *final(self) == *old(self)
            } else {
                &&& final(self).same_plan(*old(self))
                &&& if is_cancelled {
                    action matches ChannelAction::Refuse { op, status, due } && (
                    op matches Some(op) && op@
                        == crate::worker::worker_service::CacheOpView::Invalidate(old(self).key()))
                        && status@ == crate::status::plain_status(
                        StatusCode::Cancelled,
                        cancelled_text(old(self).key()),
                    ) && attempt_observed(
                        due,
                        *observer,
                        old(self).key(),
                        old(self).serialized_bytes(),
                        elapsed,
                        PlanPublicationOutcome::Cancellation,
                    )
                } else if old(self).step() == ChannelStep::CheckingBefore {
                    action matches ChannelAction::BuildTask(build) && Some(build)
                        == old(self).build()
                } else {
                    action matches ChannelAction::Acknowledge { due, header } && (
                    header matches Some(value) && value@ == crate::text::decimal(
                        crate::duration::capped_nanos(elapsed) as nat,
                    )) && attempt_observed(
                        due,
                        *observer,
                        old(self).key(),
                        old(self).serialized_bytes(),
                        elapsed,
                        PlanPublicationOutcome::Success,
                    )
                }
            },
    {
        if self.step != ChannelStep::CheckingBefore && self.step != ChannelStep::CheckingAfter {
            return ChannelAction::Unexpected;
        }
        if let Err((op, status)) = ensure_plan_not_cancelled(is_cancelled, &self.key) {
            self.step = ChannelStep::Ended;
            let due = observe_worker_plan(
                observer,
                self.key.clone(),
                self.serialized_bytes,
                elapsed,
                PlanPublicationOutcome::Cancellation,
            );
            return ChannelAction::Refuse { op: Some(op), status, due };
        }
        if self.step == ChannelStep::CheckingBefore {
            self.step = ChannelStep::Building;
            let build = self.build.take();
            return ChannelAction::BuildTask(build.unwrap());
        }
        self.step = ChannelStep::Serving;
        let due = observe_worker_plan(
            observer,
            self.key.clone(),
            self.serialized_bytes,
            elapsed,
            PlanPublicationOutcome::Success,
        );
        ChannelAction::Acknowledge { due, header: publication_header(elapsed) }
    }

    /// The plan was built, or it could not be. What came of it is published to the executions of
    /// the task.
    pub fn on_task_built<O: DistributedPlanTelemetryObserver + ?Sized, T, E>(
        &mut self,
        entry: &mut SingleWriteMultiRead<Result<T, TaskFailure<E>>>,
        task_data: Result<T, TaskFailure<E>>,
        elapsed: Duration,
        observer: &Option<Arc<O>>,
    ) -> (action: ChannelAction<O>)
        requires
            old(self).wf(),
        ensures
            final(self).wf(),
            final(self).step() == channel_after(
                old(self).step(),
                ChannelEvent::Built(old(entry).value() is None && task_data is Ok),
            ),
            if old(self).step() != ChannelStep::Building {
                action is Unexpected && *final(self) == *old(self) && *final(entry) == *old(entry)
            } else {
                &&& final(self).same_plan(*old(self))
                &&& exists|r: Result<(), RpcStatus>|
                    #[trigger] published(*old(entry), *final(entry), old(self).key(), task_data, r)
                        && match r {
                        Ok(_) => action matches ChannelAction::CheckCancelled(key) && key@
                            == old(self).key(),
                        Err(error) => {
                            action matches ChannelAction::Refuse { op, status, due } && op
                                is None && status@ == error@ && attempt_observed(
                                due,
                                *observer,
                                old(self).key(),
                                old(self).serialized_bytes(),
                                elapsed,
                                PlanPublicationOutcome::Other,
                            )
                        },
                    }
            },
    {
        if self.step != ChannelStep::Building {
            return ChannelAction::Unexpected;
        }
        let result = publish_task_data(entry, &self.key, task_data);
        assert(published(*old(entry), *entry, old(self).key(), task_data, result));
        match result {
            Ok(_) => {
                self.step = ChannelStep::CheckingAfter;
                ChannelAction::CheckCancelled(self.key.clone())
            },
            Err(status) => {
                self.step = ChannelStep::Ended;
                let due = observe_worker_plan(
                    observer,
                    self.key.clone(),
                    self.serialized_bytes,
                    elapsed,
                    PlanPublicationOutcome::Other,
                );
                ChannelAction::Refuse { op: None, status, due }
            },
        }
    }

    /// The coordinator has said something after the plan, or it has stopped talking. A request to
    /// withdraw a plan that names no task means the plan of this conversation.
    pub fn on_message<U>(
        &mut self,
        message: Option<Result<CoordinatorToWorkerMsg<U>, RpcStatus>>,
    ) -> (action: ServingAction<U>)
        requires
            old(self).wf(),
        ensures
            final(self).wf(),
            final(self).same_plan(*old(self)),
            if old(self).step() != ChannelStep::Serving {
                action is Stop && *final(self) == *old(self)
            } else {
                match message {
                    Some(Ok(message)) => match message.inner {
                        Some(CoordinatorToWorker::WorkUnitBatch(batch)) => *final(self)
                            == *old(self) && action == ServingAction::Deliver(batch),
                        Some(CoordinatorToWorker::CancelPlanRequest(request)) => {
                            &&& final(self).step() == ChannelStep::Ended
                            &&& action matches ServingAction::Withdraw(ops)
                                && crate::worker::worker_service::op_views(ops@)
                                == crate::worker::worker_service::cancellation_ops(
                                withdrawn_by(request, old(self).key()),
                            )
                        },
                        Some(CoordinatorToWorker::SetPlanRequest(_)) | None => *final(self)
                            == *old(self) && action is Ignore,
                    },
                    _ => final(self).step() == ChannelStep::Ended && action is Stop,
                }
            },
    {
        if self.step != ChannelStep::Serving {
            return ServingAction::Stop;
        }
        let message = match message {
            Some(Ok(message)) => message,
            _ => {
                self.step = ChannelStep::Ended;
                return ServingAction::Stop;
            },
        };
        match message.inner {
            Some(CoordinatorToWorker::WorkUnitBatch(batch)) => ServingAction::Deliver(batch),
            Some(CoordinatorToWorker::CancelPlanRequest(request)) => {
                self.step = ChannelStep::Ended;
                let ops = match &request.task_key {
                    Some(key) => cancel_published_plan(key),
                    None => cancel_published_plan(&self.key),
                };
                ServingAction::Withdraw(ops)
            },
            Some(CoordinatorToWorker::SetPlanRequest(_)) | None => ServingAction::Ignore,
        }
    }
}

/// What a worker says to the coordinator once a task has ended: its metrics, where there are any.
pub fn metrics_message<M>(metrics: Option<TaskMetrics<M>>) -> (r: Option<WorkerToCoordinatorMsg<M>>)
    ensures
        match metrics {
            Some(metrics) => r == Some(
                (WorkerToCoordinatorMsg { inner: Some(WorkerToCoordinator::TaskMetrics(metrics)) }),
            ),
            None => r is None,
        },
{
    match metrics {
        Some(metrics) => Some(
            WorkerToCoordinatorMsg { inner: Some(WorkerToCoordinator::TaskMetrics(metrics)) },
        ),
        None => None,
    }
}

/// What happens in the conversation about a plan: one for each of the calls that answer it.
pub enum ConversationEvent<U, T, E> {
    /// The coordinator has said the first thing, or it has said nothing.
    First(Option<Result<CoordinatorToWorkerMsg<U>, RpcStatus>>),
    /// It is known, this long after the plan came in, whether its withdrawal is remembered.
    Checked(bool, Duration),
    /// The plan was built, or it could not be, this long after it came in.
    Built(Result<T, TaskFailure<E>>, Duration),
    /// The coordinator has said something else, or it has stopped talking.
    Heard(Option<Result<CoordinatorToWorkerMsg<U>, RpcStatus>>),
}

/// What is done about it.
pub enum ConversationAnswer<O: DistributedPlanTelemetryObserver + ?Sized, U> {
    /// On the way to the publication of the plan.
    OnTheWay(ChannelAction<O>),
    /// Once the plan is published.
    Serving(ServingAction<U>),
}

/// What is waited for after `answers`: what the last of them that was not refused asks for.
pub open spec fn awaited_after<O: DistributedPlanTelemetryObserver + ?Sized, U>(
    answers: Seq<ConversationAnswer<O, U>>,
) -> ChannelStep
    decreases answers.len(),
{
    if answers.len() == 0 {
        ChannelStep::AwaitingPlan
    } else {
        let before = awaited_after(answers.drop_last());
        match answers.last() {
            ConversationAnswer::OnTheWay(action) => match action {
                ChannelAction::CheckCancelled(_) => if before == ChannelStep::AwaitingPlan {
                    ChannelStep::CheckingBefore
                } else {
                    ChannelStep::CheckingAfter
                },
                ChannelAction::BuildTask(_) => ChannelStep::Building,
                ChannelAction::Acknowledge { .. } => ChannelStep::Serving,
                ChannelAction::Reject(_) | ChannelAction::Refuse { .. } => ChannelStep::Ended,
                ChannelAction::Unexpected => before,
            },
            ConversationAnswer::Serving(action) => if before == ChannelStep::Serving && (action
                is Withdraw || action is Stop) {
                ChannelStep::Ended
            } else {
                before
            },
        }
    }
}

/// The request that the conversation is about: the one with which it was opened.
pub open spec fn request_so_far<O: DistributedPlanTelemetryObserver + ?Sized, U, T, E>(
    events: Seq<ConversationEvent<U, T, E>>,
    answers: Seq<ConversationAnswer<O, U>>,
) -> Option<SetPlanRequest>
    decreases answers.len(),
{
    if answers.len() == 0 {
        None
    } else {
        match (events.last(), answers.last()) {
            (
                ConversationEvent::First(Some(Ok(message))),
                ConversationAnswer::OnTheWay(ChannelAction::CheckCancelled(_)),
            ) => match message.inner {
                Some(CoordinatorToWorker::SetPlanRequest(request)) => Some(request),
                _ => None,
            },
            _ => request_so_far(events.drop_last(), answers.drop_last()),
        }
    }
}

/// Whether `build` is what `request` asks for: its own task among those of its stage, its feeds,
/// its plan, its time, and the address that it was sent to.
pub open spec fn built_from(build: TaskBuild, request: SetPlanRequest) -> bool {
    &&& build.context.task_index == request.task_key->0.task_number as usize
    &&& build.context.task_count == request.task_count as usize
    &&& build.feeds@ == feeds_of(request.work_unit_feed_declarations@)
    &&& build.query_start_time_ns == request.query_start_time_ns
    &&& match build.plan {
        Ok(node) => crate::worker::plan_proto::decoded_plan(request.plan_proto@) == Some(node),
        Err(_) => crate::worker::plan_proto::decoded_plan(request.plan_proto@) is None,
    }
    &&& match build.self_url {
        Ok(url) => crate::error::parsed_url(request.target_worker_url@) == Ok::<
            Seq<char>,
            url::ParseError,
        >(url@),
        Err(error) => error matches PlanError::InvalidUrl(reason) && crate::error::parsed_url(
            request.target_worker_url@,
        ) == Err::<Seq<char>, url::ParseError>(reason),
    }
}

/// Whether `state` fits what has happened.
pub closed spec fn conversation_fits<O: DistributedPlanTelemetryObserver + ?Sized, U, T, E>(
    state: PlanChannel,
    events: Seq<ConversationEvent<U, T, E>>,
    answers: Seq<ConversationAnswer<O, U>>,
) -> bool {
    let step = awaited_after(answers);
    &&& state.step() == step
    &&& state.wf()
    &&& step != ChannelStep::AwaitingPlan && step != ChannelStep::Ended ==> (request_so_far(
        events,
        answers,
    ) matches Some(request) && (request.task_key matches Some(key) && state.key() == key@)
        && state.serialized_bytes() == request.plan_proto@.len() && (step
        == ChannelStep::CheckingBefore ==> built_from(state.build()->0, request)))
}

/// Whether `action` answers what the coordinator says first: a conversation is opened with a plan
/// for a named task, or not at all.
pub open spec fn opens<O: DistributedPlanTelemetryObserver + ?Sized, U>(
    action: ChannelAction<O>,
    first: Option<Result<CoordinatorToWorkerMsg<U>, RpcStatus>>,
) -> bool {
    match first {
        None => action matches ChannelAction::Reject(status) && status@
            == crate::status::plain_status(StatusCode::Internal, "Empty Coordinator stream"@),
        Some(Err(error)) => action matches ChannelAction::Reject(status) && status@ == error@,
        Some(Ok(message)) => match message.inner {
            Some(CoordinatorToWorker::SetPlanRequest(said)) => match said.task_key {
                Some(named) => action matches ChannelAction::CheckCancelled(checked) && checked@
                    == named@,
                None => action matches ChannelAction::Reject(status) && status@
                    == crate::status::plain_status(
                    StatusCode::InvalidArgument,
                    "Missing field '"@ + "task_key"@ + "'"@,
                ),
            },
            _ => action matches ChannelAction::Reject(status) && status@
                == crate::status::plain_status(
                StatusCode::Internal,
                "First Coordinator message must be SetPlanRequest"@,
            ),
        },
    }
}

/// Whether `action` refuses the plan of `request`, which was withdrawn.
pub open spec fn refuses_withdrawn<O: DistributedPlanTelemetryObserver + ?Sized>(
    action: ChannelAction<O>,
    request: SetPlanRequest,
    elapsed: Duration,
    observer: Option<Arc<O>>,
) -> bool {
    let key = request.task_key->0@;
    action matches ChannelAction::Refuse { op, status, due } && (
    op matches Some(CacheOp::Invalidate(forgotten)) && forgotten@ == key) && status@
        == crate::status::plain_status(
        StatusCode::Cancelled,
        "Plan publication cancelled for TaskKey "@ + crate::task_key::task_key_text(key),
    ) && attempt_observed(
        due,
        observer,
        key,
        request.plan_proto@.len() as usize,
        elapsed,
        PlanPublicationOutcome::Cancellation,
    )
}

/// Whether `action` acknowledges the plan of `request`, after this long.
pub open spec fn acknowledges<O: DistributedPlanTelemetryObserver + ?Sized>(
    action: ChannelAction<O>,
    request: SetPlanRequest,
    elapsed: Duration,
    observer: Option<Arc<O>>,
) -> bool {
    action matches ChannelAction::Acknowledge { due, header } && (header matches Some(value)
        && value@ == crate::text::decimal(crate::duration::capped_nanos(elapsed) as nat))
        && attempt_observed(
        due,
        observer,
        request.task_key->0@,
        request.plan_proto@.len() as usize,
        elapsed,
        PlanPublicationOutcome::Success,
    )
}

/// Whether `action` answers that `task_data` was built for `request`, where `before` was published
/// already: a plan goes on to be checked once more, and anything else is refused.
pub open spec fn goes_on_with<O: DistributedPlanTelemetryObserver + ?Sized, T, E>(
    action: ChannelAction<O>,
    request: SetPlanRequest,
    before: Option<Result<T, TaskFailure<E>>>,
    task_data: Result<T, TaskFailure<E>>,
    elapsed: Duration,
    observer: Option<Arc<O>>,
) -> bool {
    let key = request.task_key->0@;
    if before is None && task_data is Ok {
        action matches ChannelAction::CheckCancelled(checked) && checked@ == key
    } else {
        action matches ChannelAction::Refuse { op, status, due } && op is None && status@ == (
        match (before, task_data) {
            (None, Err(failure)) => failure.status@,
            _ => crate::status::plain_status(
                StatusCode::Internal,
                "Logic error while setting plan for TaskKey "@ + crate::task_key::task_key_text(key)
                    + ": the plan was set twice. This is a bug in datafusion-distributed, please report it."@,
            ),
        }) && attempt_observed(
            due,
            observer,
            key,
            request.plan_proto@.len() as usize,
            elapsed,
            PlanPublicationOutcome::Other,
        )
    }
}

/// Whether `action` answers what the coordinator says after the plan of `request`.
pub open spec fn serves<U>(
    action: ServingAction<U>,
    request: SetPlanRequest,
    heard: Option<Result<CoordinatorToWorkerMsg<U>, RpcStatus>>,
) -> bool {
    match heard {
        Some(Ok(message)) => match message.inner {
            Some(CoordinatorToWorker::WorkUnitBatch(batch)) => action == ServingAction::Deliver(
                batch,
            ),
            Some(CoordinatorToWorker::CancelPlanRequest(cancel)) => {
                let named = match cancel.task_key {
                    Some(named) => named@,
                    None => request.task_key->0@,
                };
                action matches ServingAction::Withdraw(ops) && ops@.len() == 2 && (
                ops@[0] matches CacheOp::MarkCancelled(marked) && marked@ == named) && (
                ops@[1] matches CacheOp::Invalidate(forgotten) && forgotten@ == named)
            },
            Some(CoordinatorToWorker::SetPlanRequest(_)) | None => action is Ignore,
        },
        _ => action is Stop,
    }
}

proof fn lemma_opens<O: DistributedPlanTelemetryObserver + ?Sized, U, T, E>(
    call: &mut PlanChannel,
    first: Option<Result<CoordinatorToWorkerMsg<U>, RpcStatus>>,
    action: ChannelAction<O>,
    events: Seq<ConversationEvent<U, T, E>>,
    answers: Seq<ConversationAnswer<O, U>>,
)
    requires
        events.len() > 0,
        answers.len() == events.len(),
        events.last() == ConversationEvent::<U, T, E>::First(first),
        answers.last() == ConversationAnswer::<O, U>::OnTheWay(action),
        conversation_fits(*call, events.drop_last(), answers.drop_last()),
        call_ensures(PlanChannel::on_first_message::<O, U>, (call, first), action),
    ensures
        if awaited_after(answers.drop_last()) == ChannelStep::AwaitingPlan {
            opens(action, first)
        } else {
            action is Unexpected
        },
        conversation_fits(*final(call), events, answers),
{
}

proof fn lemma_checked<O: DistributedPlanTelemetryObserver + ?Sized, U, T, E>(
    call: &mut PlanChannel,
    is_cancelled: bool,
    elapsed: Duration,
    observer: &Option<Arc<O>>,
    action: ChannelAction<O>,
    events: Seq<ConversationEvent<U, T, E>>,
    answers: Seq<ConversationAnswer<O, U>>,
)
    requires
        events.len() > 0,
        answers.len() == events.len(),
        events.last() == ConversationEvent::<U, T, E>::Checked(is_cancelled, elapsed),
        answers.last() == ConversationAnswer::<O, U>::OnTheWay(action),
        conversation_fits(*call, events.drop_last(), answers.drop_last()),
        call_ensures(
            PlanChannel::on_cancellation_checked::<O>,
            (call, is_cancelled, elapsed, observer),
            action,
        ),
    ensures
        ({
            let step = awaited_after(answers.drop_last());
            let request = request_so_far(events.drop_last(), answers.drop_last())->0;
            if step != ChannelStep::CheckingBefore && step != ChannelStep::CheckingAfter {
                action is Unexpected
            } else if is_cancelled {
                refuses_withdrawn(action, request, elapsed, *observer)
            } else if step == ChannelStep::CheckingBefore {
                action matches ChannelAction::BuildTask(build) && built_from(build, request)
            } else {
                acknowledges(action, request, elapsed, *observer)
            }
        }),
        conversation_fits(*final(call), events, answers),
{
}

proof fn lemma_built<O: DistributedPlanTelemetryObserver + ?Sized, U, T, E>(
    call: &mut PlanChannel,
    entry: &mut SingleWriteMultiRead<Result<T, TaskFailure<E>>>,
    task_data: Result<T, TaskFailure<E>>,
    elapsed: Duration,
    observer: &Option<Arc<O>>,
    action: ChannelAction<O>,
    events: Seq<ConversationEvent<U, T, E>>,
    answers: Seq<ConversationAnswer<O, U>>,
)
    requires
        events.len() > 0,
        answers.len() == events.len(),
        events.last() == ConversationEvent::<U, T, E>::Built(task_data, elapsed),
        answers.last() == ConversationAnswer::<O, U>::OnTheWay(action),
        conversation_fits(*call, events.drop_last(), answers.drop_last()),
        call_ensures(
            PlanChannel::on_task_built::<O, T, E>,
            (call, entry, task_data, elapsed, observer),
            action,
        ),
    ensures
        ({
            let step = awaited_after(answers.drop_last());
            let request = request_so_far(events.drop_last(), answers.drop_last())->0;
            if step != ChannelStep::Building {
                action is Unexpected && *final(entry) == *old(entry)
            } else {
                &&& final(entry).value() == (match old(entry).value() {
                    Some(first) => Some(first),
                    None => Some(task_data),
                })
                &&& goes_on_with(
                    action,
                    request,
                    old(entry).value(),
                    task_data,
                    elapsed,
                    *observer,
                )
            }
        }),
        conversation_fits(*final(call), events, answers),
{
}

proof fn lemma_heard<O: DistributedPlanTelemetryObserver + ?Sized, U, T, E>(
    call: &mut PlanChannel,
    heard: Option<Result<CoordinatorToWorkerMsg<U>, RpcStatus>>,
    action: ServingAction<U>,
    events: Seq<ConversationEvent<U, T, E>>,
    answers: Seq<ConversationAnswer<O, U>>,
)
    requires
        events.len() > 0,
        answers.len() == events.len(),
        events.last() == ConversationEvent::<U, T, E>::Heard(heard),
        answers.last() == ConversationAnswer::<O, U>::Serving(action),
        conversation_fits(*call, events.drop_last(), answers.drop_last()),
        call_ensures(PlanChannel::on_message::<U>, (call, heard), action),
    ensures
        ({
            let request = request_so_far(events.drop_last(), answers.drop_last())->0;
            if awaited_after(answers.drop_last()) != ChannelStep::Serving {
                action is Stop
            } else {
                serves(action, request, heard)
            }
        }),
        conversation_fits(*final(call), events, answers),
{
    if let ServingAction::Withdraw(ops) = action {
        let views = crate::worker::worker_service::op_views(ops@);
        assert(views.len() == ops@.len());
        if ops@.len() == 2 {
            assert(views[0] == ops@[0]@ && views[1] == ops@[1]@);
        }
    }
}

/// Everything that a worker does in the conversation about a plan, call by call, follows from what
/// it has asked for and what it was told. The conversation is opened with a plan for a named task,
/// or not at all. The plan is built from that request, unless it was withdrawn; what comes of it is
/// published, unless something was before; and it is acknowledged if it was not withdrawn in
/// between. From then on work units are handed on, and a withdrawal, of the plan that it names or
/// of this one where it names none, ends the conversation. Anything else that is said is refused.
#[verifier::rlimit(60)]
pub proof fn conversations_go_in_order<
    O: DistributedPlanTelemetryObserver + ?Sized,
    U,
    T,
    E,
>(
    begun: PlanChannel,
    calls: Seq<&mut PlanChannel>,
    entries: Seq<&mut SingleWriteMultiRead<Result<T, TaskFailure<E>>>>,
    observer: &Option<Arc<O>>,
    events: Seq<ConversationEvent<U, T, E>>,
    answers: Seq<ConversationAnswer<O, U>>,
    k: int,
)
    requires
        call_ensures(PlanChannel::begin, (), begun),
        calls.len() == events.len(),
        entries.len() == events.len(),
        answers.len() == events.len(),
        calls.len() > 0 ==> *calls[0] == begun,
        forall|i: int|
            #![trigger calls[i]]
            0 <= i < calls.len() ==> match (events[i], answers[i]) {
                (ConversationEvent::First(first), ConversationAnswer::OnTheWay(action)) =>
                call_ensures(
                    PlanChannel::on_first_message::<O, U>,
                    (calls[i], first),
                    action,
                ),
                (
                    ConversationEvent::Checked(is_cancelled, elapsed),
                    ConversationAnswer::OnTheWay(action),
                ) => call_ensures(
                    PlanChannel::on_cancellation_checked::<O>,
                    (calls[i], is_cancelled, elapsed, observer),
                    action,
                ),
                (
                    ConversationEvent::Built(task_data, elapsed),
                    ConversationAnswer::OnTheWay(action),
                ) => call_ensures(
                    PlanChannel::on_task_built::<O, T, E>,
                    (calls[i], entries[i], task_data, elapsed, observer),
                    action,
                ),
                (ConversationEvent::Heard(message), ConversationAnswer::Serving(action)) =>
                call_ensures(PlanChannel::on_message::<U>, (calls[i], message), action),
                _ => false,
            },
        forall|i: int| 0 < i < calls.len() ==> *(#[trigger] calls[i]) == *final(calls[i - 1]),
        0 <= k < calls.len(),
    ensures
        ({
            let step = awaited_after(answers.take(k));
            let request = request_so_far(events.take(k), answers.take(k))->0;
            match (events[k], answers[k]) {
                (ConversationEvent::First(first), ConversationAnswer::OnTheWay(action)) => if step
                    == ChannelStep::AwaitingPlan {
                    opens(action, first)
                } else {
                    action is Unexpected
                },
                (
                    ConversationEvent::Checked(is_cancelled, elapsed),
                    ConversationAnswer::OnTheWay(action),
                ) => if step != ChannelStep::CheckingBefore && step != ChannelStep::CheckingAfter {
                    action is Unexpected
                } else if is_cancelled {
                    refuses_withdrawn(action, request, elapsed, *observer)
                } else if step == ChannelStep::CheckingBefore {
                    action matches ChannelAction::BuildTask(build) && built_from(build, request)
                } else {
                    acknowledges(action, request, elapsed, *observer)
                },
                (
                    ConversationEvent::Built(task_data, elapsed),
                    ConversationAnswer::OnTheWay(action),
                ) => if step != ChannelStep::Building {
                    action is Unexpected && *final(entries[k]) == *entries[k]
                } else {
                    &&& final(entries[k]).value() == (match entries[k].value() {
                        Some(first) => Some(first),
                        None => Some(task_data),
                    })
                    &&& goes_on_with(
                        action,
                        request,
                        entries[k].value(),
                        task_data,
                        elapsed,
                        *observer,
                    )
                },
                (ConversationEvent::Heard(heard), ConversationAnswer::Serving(action)) => if step
                    == ChannelStep::Serving {
                    serves(action, request, heard)
                } else {
                    action is Stop
                },
                _ => false,
            }
        }),
        conversation_fits(*final(calls[k]), events.take(k + 1), answers.take(k + 1)),
    decreases k,
{
    let old_events = events.take(k);
    let old_answers = answers.take(k);
    if k == 0 {
        assert(old_events =~= Seq::empty());
        assert(old_answers =~= Seq::empty());
    } else {
        conversations_go_in_order(begun, calls, entries, observer, events, answers, k - 1);
        assert(*calls[k] == *final(calls[k - 1]));
        assert(k - 1 + 1 == k);
    }
    assert(conversation_fits(*calls[k], old_events, old_answers));
    let new_events = events.take(k + 1);
    let new_answers = answers.take(k + 1);
    assert(new_events.drop_last() =~= old_events);
    assert(new_answers.drop_last() =~= old_answers);
    match (events[k], answers[k]) {
        (ConversationEvent::First(first), ConversationAnswer::OnTheWay(action)) => {
            lemma_opens(calls[k], first, action, new_events, new_answers);
        },
        (
            ConversationEvent::Checked(is_cancelled, elapsed),
            ConversationAnswer::OnTheWay(action),
        ) => {
            lemma_checked(
                calls[k],
                is_cancelled,
                elapsed,
                observer,
                action,
                new_events,
                new_answers,
            );
        },
        (ConversationEvent::Built(task_data, elapsed), ConversationAnswer::OnTheWay(action)) => {
            lemma_built(
                calls[k],
                entries[k],
                task_data,
                elapsed,
                observer,
                action,
                new_events,
                new_answers,
            );
        },
        (ConversationEvent::Heard(heard), ConversationAnswer::Serving(action)) => {
            lemma_heard(calls[k], heard, action, new_events, new_answers);
        },
        _ => {},
    }
}

/// The time that a worker puts into its header is read back by the coordinator as it was measured,
/// or as the largest number of 64 bits where it was longer than that.
pub proof fn publication_headers_are_read_back(
    elapsed: Duration,
    nanos: u64,
    header: Option<String>,
    text: &str,
    parsed: Option<u64>,
)
    requires
        call_ensures(duration_nanos, (elapsed,), nanos),
        call_ensures(publication_header, (elapsed,), header),
        header matches Some(value) ==> value@ == text@,
        call_ensures(crate::text::parse_decimal, (text,), parsed),
    ensures
        header is Some,
        parsed == Some(nanos),
        crate::duration::total_nanos(elapsed) <= u64::MAX ==> parsed == Some(
            crate::duration::total_nanos(elapsed) as u64,
        ),
{
    crate::text::decimal_round_trip(nanos as nat);
}

/// A session takes the batch size that it is configured with, unless that is zero. A task has
/// something to say about its metrics exactly where there are some, and says them as they are.
pub proof fn sessions_and_metrics_are_taken_as_they_are<M>(
    shuffle_batch_size: usize,
    batch_size: Option<usize>,
    metrics: Option<TaskMetrics<M>>,
    message: Option<WorkerToCoordinatorMsg<M>>,
)
    requires
        call_ensures(session_batch_size, (shuffle_batch_size,), batch_size),
        call_ensures(metrics_message::<M>, (metrics,), message),
    ensures
        batch_size is None <==> shuffle_batch_size == 0,
        batch_size matches Some(size) ==> size == shuffle_batch_size,
        message is Some <==> metrics is Some,
        message matches Some(said) ==> (said.inner matches Some(
            WorkerToCoordinator::TaskMetrics(reported),
        ) && Some(reported) == metrics),
{
}

} // verus!
