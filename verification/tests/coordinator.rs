use datafusion_distributed::coordinator::distributed::{
    all_settled, coordinator_task_ended, DistributedExec, ExecutionAction, ExecutionEvent,
    MetricsWait, PlanExecution, PreparedPlanSlot, PublicationWait,
};
use datafusion_distributed::coordinator::latency::{LatencyMetric, PLAN_SEND_LATENCY};
use datafusion_distributed::coordinator::prepare_static_plan::{
    assign_workers, PlanNode, PlanPreparation, PreparationAction, Routing,
};
use datafusion_distributed::coordinator::publication::{
    plan_publication_status_error, CancellationEvent, CancellationStep, PlanCancellation,
    PlanPublication, PublicationAction, PublicationEvent, PublicationFailure, PublicationProblem,
    PublicationTask,
};
use datafusion_distributed::coordinator::task_spawner::{
    feed_step, plan_fingerprint, specialize_node, work_unit, work_unit_batch, work_unit_feed_task,
    CoordinatorToWorkerTaskSpawner, DistributedTaskContext, FeedSignal, FeedStep, LocalStage,
    MetricsFiling, PlanNodeKind, Specialization,
};
use datafusion_distributed::error::{DistributedError, PlanError};
use datafusion_distributed::messages::{
    CoordinatorToWorker, CoordinatorToWorkerMsg, TaskMetrics, WorkerToCoordinator,
    WorkerToCoordinatorMsg,
};
use datafusion_distributed::plan_telemetry::{
    DistributedPlanTelemetryObserver, DistributedPlanTelemetryState, PlanPublicationOutcome,
};
use datafusion_distributed::status::{RpcStatus, StatusCode};
use datafusion_distributed::worker::coordinator_channel::{
    declared_feeds, publication_header, worker_url, FeedRegistration,
};
use datafusion_distributed::worker::feeds::FeedSenders;
use datafusion_distributed::{TaskKey, PLAN_PUBLICATION_ERROR_PREFIX};
use std::hash::{DefaultHasher, Hash, Hasher};
use std::sync::Arc;
use std::time::Duration;

const QUERY: u128 = 0x0102_0304_0506_0708_090a_0b0c_0d0e_0f10;

fn query_bytes() -> Vec<u8> {
    (1..17).collect()
}

fn task_key() -> TaskKey {
    TaskKey {
        query_id: vec![1, 2, 3],
        stage_id: 4,
        task_number: 5,
    }
}

fn text(error: PlanError) -> String {
    match error {
        PlanError::Execution(message) => format!("Execution error: {message}"),
        PlanError::Internal(message) => format!("Internal error: {message}"),
        PlanError::InvalidUrl(error) => format!("External error: {error}"),
    }
}

// Waiting for publications.

#[test]
fn waits_for_every_plan_publication() {
    let waiting = PublicationWait::<String>::await_plan_publications(2);
    let waiting = waiting.on_publication(Ok(()));
    assert!(!matches!(waiting, PublicationWait::Published));
    let waiting = waiting.on_publication(Ok(()));
    assert!(matches!(waiting, PublicationWait::Published));
}

#[test]
fn propagates_plan_publication_failure() {
    let waiting = PublicationWait::await_plan_publications(1);
    match waiting.on_publication(Err("injected publication failure".to_string())) {
        PublicationWait::Failed(error) => assert!(error.contains("injected publication failure")),
        other => panic!("{other:?}"),
    }
}

#[test]
fn publication_failure_is_not_blocked_by_pending_sibling() {
    let waiting = PublicationWait::await_plan_publications(2);
    match waiting.on_publication(Err("later publication failed".to_string())) {
        PublicationWait::Failed(error) => assert!(error.contains("later publication failed")),
        other => panic!("{other:?}"),
    }
}

#[test]
fn reports_plan_publication_task_cancellation() {
    let waiting = PublicationWait::await_plan_publications(1);
    let ended = PlanError::Internal(
        "Plan publication task ended without reporting acknowledgement".to_string(),
    );
    match waiting.on_publication(Err(ended)) {
        PublicationWait::Failed(error) => {
            assert!(text(error).contains("ended without reporting acknowledgement"))
        }
        other => panic!("{other:?}"),
    }
}

#[test]
fn nothing_changes_a_failed_publication() {
    let waiting = PublicationWait::await_plan_publications(3);
    let failed = waiting
        .on_publication(Ok(()))
        .on_publication(Err("first"))
        .on_publication(Err("second"))
        .on_publication(Ok(()));
    assert!(matches!(failed, PublicationWait::Failed("first")));
    let none = PublicationWait::<()>::await_plan_publications(0);
    assert!(matches!(none, PublicationWait::Published));
}

fn cancellation(task_number: u64) -> PlanCancellation {
    PlanCancellation {
        task_key: TaskKey {
            query_id: vec![9],
            stage_id: 1,
            task_number,
        },
        url: format!("http://w{task_number}/"),
    }
}

fn starts_head_as_success(action: ExecutionAction<u8, String>) -> bool {
    matches!(
        action,
        ExecutionAction::ExecuteHead {
            outcome: PlanPublicationOutcome::Success
        }
    )
}

#[test]
fn query_is_called_after_its_first_failure() {
    let cases = [
        (
            PublicationProblem::Unresolved("no route".to_string()),
            PlanPublicationOutcome::Other,
        ),
        (
            PublicationProblem::Rejected("no memory".to_string()),
            PlanPublicationOutcome::Other,
        ),
        (
            PublicationProblem::TimedOut,
            PlanPublicationOutcome::PublicationTimeout,
        ),
        (
            PublicationProblem::Abandoned,
            PlanPublicationOutcome::Cancellation,
        ),
    ];
    for (problem, outcome) in cases {
        let waiting = PublicationWait::await_plan_publications(3).on_publication(Ok(()));
        assert_eq!(waiting.outcome(), None);
        let failed = waiting.on_publication(Err(PublicationFailure { problem, error: 1 }));
        assert_eq!(failed.outcome(), Some(outcome));
        let failed = failed.on_publication(Err(PublicationFailure {
            problem: PublicationProblem::TimedOut,
            error: 2,
        }));
        assert_eq!(failed.outcome(), Some(outcome));
    }
}

#[test]
fn query_is_a_success_once_every_plan_is_acknowledged() {
    let mut waiting = PublicationWait::<PublicationFailure<u8>>::await_plan_publications(2);
    for expected in [None, Some(PlanPublicationOutcome::Success)] {
        waiting = waiting.on_publication(Ok(()));
        assert_eq!(waiting.outcome(), expected);
    }
    let none = PublicationWait::<PublicationFailure<u8>>::await_plan_publications(0);
    assert_eq!(none.outcome(), Some(PlanPublicationOutcome::Success));
}

#[test]
fn head_is_executed_after_every_publication() {
    let (mut execution, first) =
        PlanExecution::begin::<u8, String>(vec![cancellation(0), cancellation(1)]);
    assert!(matches!(first, ExecutionAction::Wait));
    let action = execution.on_event::<u8, String>(ExecutionEvent::HeadEnded);
    assert!(matches!(action, ExecutionAction::Wait));
    let action = execution.on_event::<u8, String>(ExecutionEvent::Publication(Ok(())));
    assert!(matches!(action, ExecutionAction::Wait));
    let action = execution.on_event::<u8, String>(ExecutionEvent::Publication(Ok(())));
    assert!(starts_head_as_success(action));
    let action = execution.on_event::<u8, String>(ExecutionEvent::HeadStarted(Ok(())));
    assert!(matches!(action, ExecutionAction::Wait));
    let action = execution.on_event::<u8, String>(ExecutionEvent::Batch(42));
    assert!(matches!(action, ExecutionAction::Forward(42)));
    let action = execution.on_event::<u8, String>(ExecutionEvent::HeadEnded);
    assert!(matches!(action, ExecutionAction::Finish(Ok(()))));
    let action = execution.on_event::<u8, String>(ExecutionEvent::Batch(43));
    assert!(matches!(action, ExecutionAction::Wait));
}

#[test]
fn a_failed_publication_withdraws_every_plan() {
    let (mut execution, _) =
        PlanExecution::begin::<u8, String>(vec![cancellation(0), cancellation(1)]);
    let failed = ExecutionEvent::Publication(Err(PublicationFailure {
        problem: PublicationProblem::TimedOut,
        error: "refused".to_string(),
    }));
    match execution.on_event::<u8, String>(failed) {
        ExecutionAction::CancelPublished {
            outcome,
            error,
            cancellations,
        } => {
            assert_eq!(outcome, PlanPublicationOutcome::PublicationTimeout);
            assert_eq!(error, "refused");
            assert_eq!(cancellations.len(), 2);
            assert_eq!(cancellations[1].url, "http://w1/");
        }
        _ => panic!("the plans were not withdrawn"),
    }
    let action = execution.on_event::<u8, String>(ExecutionEvent::Publication(Ok(())));
    assert!(matches!(action, ExecutionAction::Wait));
}

#[test]
fn execution_without_plans_starts_at_once() {
    let (mut execution, first) = PlanExecution::begin::<u8, String>(vec![]);
    assert!(starts_head_as_success(first));
    let failed = ExecutionEvent::HeadStarted(Err("no head".to_string()));
    match execution.on_event::<u8, String>(failed) {
        ExecutionAction::Finish(Err(error)) => assert_eq!(error, "no head"),
        _ => panic!("execution went on"),
    }
}

#[test]
fn closed_output_ends_execution() {
    let (mut execution, _) = PlanExecution::begin::<u8, String>(vec![]);
    execution.on_event::<u8, String>(ExecutionEvent::HeadStarted(Ok(())));
    let action = execution.on_event::<u8, String>(ExecutionEvent::OutputClosed);
    assert!(matches!(action, ExecutionAction::Finish(Ok(()))));
}

#[test]
fn coordinator_tasks_report_how_they_ended() {
    assert!(coordinator_task_ended::<String>(Ok(Ok(()))).is_ok());
    match coordinator_task_ended(Ok(Err("feed broke"))) {
        Err(DistributedError::Source(error)) => assert_eq!(error, "feed broke"),
        other => panic!("{other:?}"),
    }
    match coordinator_task_ended::<String>(Err("task 7 panicked".to_string())) {
        Err(DistributedError::Plan(error)) => assert_eq!(
            text(error),
            "Internal error: Coordinator task failed: task 7 panicked"
        ),
        other => panic!("{other:?}"),
    }
}

// The node that executes a plan in distributed mode.

type Exec = DistributedExec<&'static str, PreparedPlanSlot<&'static str>, u8, Vec<u8>>;

#[test]
fn prepared_plan_is_the_last_one_that_was_set() {
    let mut slot = PreparedPlanSlot::new();
    match slot.prepared_plan() {
        Err(error) => assert_eq!(
            text(error),
            "Internal error: No prepared plan found. Was execute() called?"
        ),
        Ok(plan) => {
            let _: &&str = plan;
            panic!("nothing was prepared")
        }
    }
    assert_eq!(slot.on_prepared::<u8, _>(Err("no workers")), Err("no workers"));
    assert!(slot.prepared_plan().is_err());
    assert_eq!(slot.on_prepared::<_, String>(Ok(("first", 1))), Ok(1));
    assert_eq!(slot.on_prepared::<_, String>(Ok(("second", 2))), Ok(2));
    assert_eq!(slot.on_prepared::<u8, _>(Err("no workers")), Err("no workers"));
    assert_eq!(*slot.prepared_plan().unwrap(), "second");
}

#[test]
fn distributed_exec_has_one_partition() {
    let node = Exec::new("plan", PreparedPlanSlot::new(), 0);
    assert_eq!(node.name(), "DistributedExec");
    assert!(node.execute(0).is_ok());
    assert_eq!(
        text(node.execute(3).unwrap_err()),
        "Execution error: DistributedExec must only have 1 partition, but it was called with partition index 3"
    );
}

#[test]
fn new_children_share_what_the_node_has() {
    let node = Exec::new("plan", PreparedPlanSlot::new(), 7).with_metrics_collection(true, vec![1]);
    let other = node.with_new_children(vec!["other"]).unwrap();
    assert_eq!(*other.child(), "other");
    assert_eq!(*node.child(), "plan");
    assert!(Arc::ptr_eq(node.prepared_slot(), other.prepared_slot()));
    assert!(Arc::ptr_eq(node.metrics_set(), other.metrics_set()));
    assert!(Arc::ptr_eq(
        node.metrics_store().as_ref().unwrap(),
        other.metrics_store().as_ref().unwrap()
    ));
    for children in [vec![], vec!["one", "two"]] {
        let count = children.len();
        match node.with_new_children(children) {
            Err(error) => assert_eq!(
                text(error),
                format!("Internal error: Expected exactly 1 child, got {count}")
            ),
            Ok(_) => panic!("a node has one child"),
        }
    }
}

#[test]
fn metrics_are_waited_for_where_they_are_collected() {
    let stages = vec![
        LocalStage {
            query_id: QUERY,
            num: 1,
            tasks: 2,
        },
        LocalStage {
            query_id: QUERY,
            num: 2,
            tasks: 1,
        },
    ];
    let node = Exec::new("plan", PreparedPlanSlot::new(), 0);
    assert!(matches!(node.wait_for_metrics(&stages), MetricsWait::Ready));
    let node = node.with_metrics_collection(true, vec![]);
    assert!(matches!(node.wait_for_metrics(&vec![]), MetricsWait::Ready));
    let keys = match node.wait_for_metrics(&stages) {
        MetricsWait::Tasks(keys) => keys,
        MetricsWait::Ready => panic!("nothing was reported yet"),
    };
    let key = |stage_id, task_number| TaskKey {
        query_id: query_bytes(),
        stage_id,
        task_number,
    };
    assert_eq!(keys, vec![key(1, 0), key(1, 1), key(2, 0)]);
    assert!(!all_settled(&keys, &vec![key(1, 0), key(2, 0)], &vec![]));
    assert!(all_settled(
        &keys,
        &vec![key(2, 0), key(1, 1), key(3, 0), key(1, 0)],
        &vec![]
    ));
    let node = node.with_metrics_collection(false, vec![]);
    assert!(node.metrics_store().is_none());
}

#[test]
fn unexecuted_tasks_do_not_hold_up_the_wait_for_metrics() {
    let stage = LocalStage {
        query_id: QUERY,
        num: 1,
        tasks: 3,
    };
    let node =
        Exec::new("plan", PreparedPlanSlot::new(), 0).with_metrics_collection(true, vec![]);
    let expected = match node.wait_for_metrics(&vec![stage]) {
        MetricsWait::Tasks(keys) => keys,
        MetricsWait::Ready => panic!("nothing was reported yet"),
    };
    let spawner = CoordinatorToWorkerTaskSpawner::new(&stage, 0);
    let reported = vec![spawner.task_key(0)];
    let mut closed = vec![];
    for task_i in [1, 2] {
        assert!(!all_settled(&expected, &reported, &closed));
        match spawner.metrics_collection_task::<u8>(task_i, None, true) {
            MetricsFiling::Close(key) => closed.push(key),
            other => panic!("{other:?}"),
        }
    }
    assert!(all_settled(&expected, &reported, &closed));
    closed.push(spawner.task_key(0));
    assert!(all_settled(&expected, &vec![], &closed));
}

// Publication of one plan.

#[test]
fn worker_publication_error_is_tagged_with_coordinator_context() {
    let status = RpcStatus::new(StatusCode::Internal, "encoded".to_string());
    let decoded = "Execution error: worker plan decode failed".to_string();
    let worker = worker_url("http://worker.example:8080").unwrap();

    let error = plan_publication_status_error(&status, Some(decoded), &task_key(), 0x1234, &worker);
    let message = text(error);

    assert!(message.contains(PLAN_PUBLICATION_ERROR_PREFIX));
    assert!(message.contains("worker plan decode failed"));
    assert!(message.contains("plan_fingerprint=0000000000001234"));
    assert!(message.contains("worker=http://worker.example:8080/"));
    assert_eq!(
        message,
        "Execution error: [datafusion-distributed:plan-publication] Plan publication failed: task_key=TaskKey { query_id: [1, 2, 3], stage_id: 4, task_number: 5 }, plan_fingerprint=0000000000001234, worker=http://worker.example:8080/, phase=waiting for CoordinatorChannel acknowledgement: Execution error: worker plan decode failed"
    );
}

#[test]
fn statuses_without_an_error_are_shown_themselves() {
    let status = RpcStatus::new(StatusCode::Cancelled, "boom".to_string());
    let error = plan_publication_status_error(&status, None, &task_key(), 1, "http://w/");
    assert!(text(error).ends_with(
        "phase=waiting for CoordinatorChannel acknowledgement: code: 'The operation was cancelled', message: \"boom\""
    ));
}

fn publication() -> PlanPublication {
    PlanPublication {
        task_key: task_key(),
        plan_fingerprint: 0xab,
        worker: "http://w/".to_string(),
    }
}

#[test]
fn every_publication_problem_has_its_text() {
    let head = "Execution error: [datafusion-distributed:plan-publication] Plan publication ";
    let middle = "task_key=TaskKey { query_id: [1, 2, 3], stage_id: 4, task_number: 5 }, plan_fingerprint=00000000000000ab, worker=http://w/, phase=";
    let text_of = |problem: PublicationProblem| text(publication().error(&problem));
    assert_eq!(
        text_of(PublicationProblem::Unresolved("no route".to_string())),
        format!("{head}failed: {middle}resolving worker channel: no route")
    );
    assert_eq!(
        text_of(PublicationProblem::Rejected("no".to_string())),
        format!("{head}failed: {middle}waiting for CoordinatorChannel acknowledgement: no")
    );
    assert_eq!(
        text_of(PublicationProblem::TimedOut),
        format!("{head}timeout after 30s: {middle}resolving worker and waiting for CoordinatorChannel acknowledgement, last_completed_phase=plan serialized")
    );
    assert_eq!(
        text_of(PublicationProblem::Abandoned),
        format!("{head}task ended without acknowledgement: {middle}waiting for CoordinatorChannel acknowledgement, last_completed_phase=plan serialized")
    );
}

#[test]
fn publication_problems_have_outcomes() {
    let outcomes = [
        PublicationProblem::Unresolved(String::new()).outcome(),
        PublicationProblem::Rejected(String::new()).outcome(),
        PublicationProblem::TimedOut.outcome(),
        PublicationProblem::Abandoned.outcome(),
    ];
    assert_eq!(
        outcomes,
        [
            PlanPublicationOutcome::Other,
            PlanPublicationOutcome::Other,
            PlanPublicationOutcome::PublicationTimeout,
            PlanPublicationOutcome::Cancellation,
        ]
    );
}

#[test]
fn an_acknowledged_plan_is_reported_once_and_then_streamed() {
    let mut task = PublicationTask::new(publication(), 640);
    let action = task.on_event::<u8, String>(PublicationEvent::Message(1));
    assert!(matches!(action, PublicationAction::Ignore));
    let action = task.on_event::<u8, String>(PublicationEvent::Acknowledged);
    assert!(matches!(
        action,
        PublicationAction::ReportPublished { plan_bytes: 640 }
    ));
    let action = task.on_event::<u8, String>(PublicationEvent::TimedOut);
    assert!(matches!(action, PublicationAction::Ignore));
    let action = task.on_event::<u8, String>(PublicationEvent::Message(5));
    assert!(matches!(action, PublicationAction::Forward(5)));
    let action = task.on_event::<u8, String>(PublicationEvent::StreamEnded);
    assert!(matches!(action, PublicationAction::Finish(Ok(()))));
    let action = task.on_event::<u8, String>(PublicationEvent::Acknowledged);
    assert!(matches!(action, PublicationAction::Ignore));
}

#[test]
fn publication_is_measured_by_its_parts() {
    let task = PublicationTask::new(publication(), 640);
    let serialized = task.serialized_telemetry(Duration::from_millis(2));
    assert_eq!(serialized.task_key, task_key());
    assert_eq!(serialized.serialized_bytes, 640);
    assert_eq!(serialized.serialization_duration, Duration::from_millis(2));

    let elapsed = Duration::from_nanos(7_500);
    let published = task.published_telemetry(elapsed, Some("5000"));
    assert_eq!(published.task_key, task_key());
    assert_eq!(published.outcome, PlanPublicationOutcome::Success);
    assert_eq!(
        published.worker_decode_publication_duration,
        Duration::from_nanos(5_000)
    );
    assert_eq!(
        published.coordinator_transfer_duration,
        Duration::from_nanos(2_500)
    );
    for unknown in [None, Some("soon"), Some("99999999999999999999")] {
        let published = task.published_telemetry(elapsed, unknown);
        assert_eq!(published.worker_decode_publication_duration, Duration::ZERO);
        assert_eq!(published.coordinator_transfer_duration, elapsed);
    }
    let slow_clock = task.published_telemetry(elapsed, Some("7501"));
    assert_eq!(slow_clock.coordinator_transfer_duration, Duration::ZERO);
}

#[test]
fn the_coordinator_reads_what_the_worker_reports() {
    let spent = Duration::from_micros(123);
    let header = publication_header(spent).unwrap();
    let task = PublicationTask::new(publication(), 1);
    let published = task.published_telemetry(Duration::from_micros(200), Some(&header));
    assert_eq!(published.worker_decode_publication_duration, spent);
    assert_eq!(
        published.coordinator_transfer_duration,
        Duration::from_micros(77)
    );
}

#[test]
fn abandoned_publications_are_reported() {
    let task = PublicationTask::new(publication(), 1);
    assert_eq!(
        text(task.abandoned()),
        text(publication().error(&PublicationProblem::Abandoned))
    );
}

#[test]
fn broken_streams_end_with_their_error() {
    let mut task = PublicationTask::new(publication(), 1);
    task.on_event::<u8, String>(PublicationEvent::Acknowledged);
    let failed = PublicationEvent::StreamFailed(Some("lost".to_string()));
    match task.on_event::<u8, String>(failed) {
        PublicationAction::Finish(Err(DistributedError::Source(error))) => {
            assert_eq!(error, "lost")
        }
        _ => panic!("the error was lost"),
    }
    let mut task = PublicationTask::new(publication(), 1);
    task.on_event::<u8, String>(PublicationEvent::Acknowledged);
    match task.on_event::<u8, String>(PublicationEvent::StreamFailed(None)) {
        PublicationAction::Finish(Err(DistributedError::Plan(error))) => assert_eq!(
            text(error),
            "Execution error: Unknown error on worker to coordinator stream"
        ),
        _ => panic!("the error was lost"),
    }
}

#[test]
fn refused_plans_are_reported_with_the_reason() {
    let mut task = PublicationTask::new(publication(), 1);
    let rejected = PublicationEvent::Rejected {
        status: RpcStatus::new(StatusCode::Cancelled, "boom".to_string()),
        decoded: None,
    };
    match task.on_event::<u8, String>(rejected) {
        PublicationAction::ReportFailure { problem, error } => {
            assert_eq!(problem.outcome(), PlanPublicationOutcome::Other);
            assert!(text(error)
                .ends_with("code: 'The operation was cancelled', message: \"boom\""));
        }
        _ => panic!("the failure was not reported"),
    }
}

#[test]
fn withdrawals_go_over_the_stream_and_over_a_call() {
    let withdrawal = cancellation(3);
    match withdrawal.cancel::<u8>(CancellationEvent::Started) {
        CancellationStep::NotifyStream(CoordinatorToWorkerMsg {
            inner: Some(CoordinatorToWorker::CancelPlanRequest(request)),
        }) => assert_eq!(request.task_key, Some(cancellation(3).task_key)),
        _ => panic!("the stream comes first"),
    }
    match withdrawal.cancel::<u8>(CancellationEvent::StreamNotified) {
        CancellationStep::ResolveClient { url, timeout_secs } => {
            assert_eq!(url, "http://w3/");
            assert_eq!(timeout_secs, 5);
        }
        _ => panic!("the client comes second"),
    }
    match withdrawal.cancel::<u8>(CancellationEvent::ClientResolved(true)) {
        CancellationStep::CallWorker {
            request,
            timeout_secs,
        } => {
            assert_eq!(request.task_key, Some(cancellation(3).task_key));
            assert_eq!(timeout_secs, 5);
        }
        _ => panic!("the call comes third"),
    }
    for last in [
        CancellationEvent::ClientResolved(false),
        CancellationEvent::Called,
    ] {
        assert!(matches!(
            withdrawal.cancel::<u8>(last),
            CancellationStep::Done
        ));
    }
    let copy = withdrawal.clone();
    assert_eq!(copy.task_key, withdrawal.task_key);
    assert_eq!(copy.url, withdrawal.url);
}

// The tasks of one stage.

#[test]
fn plan_tasks_are_addressed_to_their_worker() {
    let stage = LocalStage {
        query_id: QUERY,
        num: 6,
        tasks: 4,
    };
    let spawner = CoordinatorToWorkerTaskSpawner::new(&stage, 99);
    assert_eq!(
        spawner.task_context(2),
        DistributedTaskContext {
            task_index: 2,
            task_count: 4
        }
    );
    let key = TaskKey {
        query_id: query_bytes(),
        stage_id: 6,
        task_number: 2,
    };
    assert_eq!(spawner.task_key(2), key);

    let mut declarations = vec![];
    specialize_node(&mut declarations, Some(7), 3, PlanNodeKind::Other, 2);
    let mut task =
        spawner.send_plan_task(2, "http://w/".to_string(), vec![5, 6, 7], declarations);
    assert_eq!(task.request.plan_proto, vec![5, 6, 7]);
    assert_eq!(task.request.task_count, 4);
    assert_eq!(task.request.task_key, Some(key.clone()));
    assert_eq!(task.request.target_worker_url, "http://w/");
    assert_eq!(task.request.query_start_time_ns, 99);
    assert_eq!(task.request.work_unit_feed_declarations.len(), 1);
    let mut id = vec![0; 15];
    id.push(7);
    assert_eq!(task.request.work_unit_feed_declarations[0].id, id);
    assert_eq!(task.request.work_unit_feed_declarations[0].partitions, 3);
    assert_eq!(task.cancellation.task_key, key);
    assert_eq!(task.cancellation.url, "http://w/");
    let action = task
        .publication
        .on_event::<u8, String>(PublicationEvent::Acknowledged);
    assert!(matches!(
        action,
        PublicationAction::ReportPublished { plan_bytes: 3 }
    ));
}

#[test]
fn plan_errors_carry_the_fingerprint_of_the_plan() {
    let plan = vec![1, 2, 3, 250];
    let mut hasher = DefaultHasher::new();
    plan.hash(&mut hasher);
    assert_eq!(plan_fingerprint(&plan), hasher.finish());
    assert_ne!(plan_fingerprint(&plan), plan_fingerprint(&vec![1, 2, 3]));

    let stage = LocalStage {
        query_id: 1,
        num: 0,
        tasks: 1,
    };
    let spawner = CoordinatorToWorkerTaskSpawner::new(&stage, 0);
    let mut task = spawner.send_plan_task(0, "http://w/".to_string(), plan.clone(), vec![]);
    match task
        .publication
        .on_event::<u8, String>(PublicationEvent::TimedOut)
    {
        PublicationAction::ReportFailure { error, .. } => assert!(text(error).contains(&format!(
            "plan_fingerprint={:016x}, worker=http://w/",
            plan_fingerprint(&plan)
        ))),
        _ => panic!("the failure was not reported"),
    }
    let mut task = spawner.plan_task(0, "http://w/".to_string(), plan, vec![], 0x1234);
    match task
        .publication
        .on_event::<u8, String>(PublicationEvent::TimedOut)
    {
        PublicationAction::ReportFailure { error, .. } => {
            assert!(text(error).contains("plan_fingerprint=0000000000001234"))
        }
        _ => panic!("the failure was not reported"),
    }
}

#[test]
fn shared_nodes_are_specialized_for_their_task() {
    let mut declarations = vec![];
    let kinds = [
        PlanNodeKind::ChildrenIsolatorUnion,
        PlanNodeKind::DistributedLeaf,
        PlanNodeKind::Other,
    ];
    let specialized =
        kinds.map(|kind| specialize_node(&mut declarations, None, 8, kind, 5));
    assert_eq!(
        specialized,
        [
            Specialization::SpecializeUnion(5),
            Specialization::SpecializeLeaf(5),
            Specialization::Keep,
        ]
    );
    assert!(declarations.is_empty());
}

#[test]
fn metrics_are_filed_under_their_task() {
    let stage = LocalStage {
        query_id: QUERY,
        num: 1,
        tasks: 2,
    };
    let spawner = CoordinatorToWorkerTaskSpawner::new(&stage, 0);
    let message = || {
        Some(WorkerToCoordinatorMsg {
            inner: Some(WorkerToCoordinator::TaskMetrics(TaskMetrics {
                pre_order_plan_metrics: vec![1u8, 2],
                task_metrics: Some(3),
            })),
        })
    };
    match spawner.metrics_collection_task(1, message(), true) {
        MetricsFiling::File { key, metrics } => {
            assert_eq!(key, spawner.task_key(1));
            assert_eq!(metrics.pre_order_plan_metrics, vec![1, 2]);
            assert_eq!(metrics.task_metrics, Some(3));
        }
        other => panic!("{other:?}"),
    }
    let unknown: WorkerToCoordinatorMsg<u8> = WorkerToCoordinatorMsg { inner: None };
    for (message, collecting) in [(message(), false), (None, false), (Some(unknown), true)] {
        assert!(matches!(
            spawner.metrics_collection_task(1, message, collecting),
            MetricsFiling::Nothing
        ));
    }
}

#[test]
fn feeds_are_shared_out_among_tasks() {
    let context = |task_index| DistributedTaskContext {
        task_index,
        task_count: 4,
    };
    let indices = |task| -> Vec<(usize, usize)> {
        let feeds = work_unit_feed_task(3, context(task));
        assert_eq!(feeds.fan_out_tasks, 4);
        feeds
            .slots
            .iter()
            .map(|slot| (slot.partition, slot.feed_index))
            .collect()
    };
    assert_eq!(indices(0), vec![(0, 0), (1, 1), (2, 2)]);
    assert_eq!(indices(2), vec![(0, 6), (1, 7), (2, 8)]);
    assert!(work_unit_feed_task(0, context(3)).slots.is_empty());
}

#[test]
fn declared_feeds_are_registered_by_the_worker() {
    let mut declarations = vec![];
    specialize_node(&mut declarations, Some(QUERY), 3, PlanNodeKind::Other, 0);
    specialize_node(&mut declarations, None, 9, PlanNodeKind::Other, 0);
    specialize_node(&mut declarations, Some(u128::MAX), 0, PlanNodeKind::Other, 0);
    assert_eq!(
        declared_feeds(&declarations),
        vec![
            FeedRegistration {
                id: QUERY,
                partitions: 3
            },
            FeedRegistration {
                id: u128::MAX,
                partitions: 0
            },
        ]
    );
}

#[test]
fn work_units_reach_the_partition_they_are_addressed_to() {
    let unit = work_unit(QUERY, 2, "unit");
    assert_eq!(unit.id, query_bytes());
    assert_eq!(unit.partition, 2);
    assert_eq!(unit.unit, "unit");
    let mut senders = FeedSenders::new();
    senders.insert(QUERY, 1, ());
    assert_eq!(senders.target(&unit), None);
    senders.insert(QUERY, 2, ());
    assert_eq!(senders.target(&unit), Some((QUERY, 2)));
}

#[test]
fn chunks_are_addressed_unit_by_unit() {
    let chunk: Vec<(usize, Result<char, &str>)> = vec![(1, Ok('a')), (0, Ok('b'))];
    let batch = work_unit_batch(QUERY, chunk).unwrap();
    let seen: Vec<(u64, char)> = batch.iter().map(|u| (u.partition, u.unit)).collect();
    assert_eq!(seen, vec![(1, 'a'), (0, 'b')]);
    assert_eq!(batch[1].id, query_bytes());
    let chunk = vec![(1, Ok('a')), (0, Err("first")), (2, Err("second"))];
    assert_eq!(work_unit_batch(QUERY, chunk).unwrap_err(), "first");
}

#[test]
fn feeds_wait_for_every_plan() {
    assert_eq!(feed_step(FeedSignal::Published(false)), FeedStep::Wait);
    assert_eq!(feed_step(FeedSignal::Published(true)), FeedStep::Start);
    assert_eq!(feed_step(FeedSignal::QueryEnded), FeedStep::Stop);
}

// Preparation.

struct SilentObserver;

impl DistributedPlanTelemetryObserver for SilentObserver {}

type Telemetry = DistributedPlanTelemetryState<SilentObserver>;
type Action = PreparationAction<SilentObserver, String>;

fn urls(n: usize) -> Vec<String> {
    (0..n).map(|i| format!("http://w{i}/")).collect()
}

fn stage(tasks: usize) -> LocalStage {
    LocalStage {
        query_id: QUERY,
        num: 3,
        tasks,
    }
}

fn routing(
    preparation: &mut PlanPreparation,
    telemetry: &mut Telemetry,
    tasks: usize,
    workers: usize,
) {
    let action: Action = preparation.on_worker_resolver(Ok(()), telemetry);
    assert!(matches!(action, PreparationAction::FetchUrls));
    let action: Action = preparation.on_urls(Ok(urls(workers)), telemetry);
    assert!(matches!(action, PreparationAction::Traverse));
    let action: Action = preparation.on_node(PlanNode::Inner, telemetry);
    assert!(matches!(action, PreparationAction::KeepNode));
    let action: Action = preparation.on_node(PlanNode::LocalBoundary(stage(tasks)), telemetry);
    assert!(matches!(action, PreparationAction::RouteTasks(s) if s == stage(tasks)));
}

#[test]
fn unrouted_tasks_are_taken_in_turn() {
    let workers = assign_workers(5, Routing::Unrouted, &urls(3), 2).unwrap();
    assert_eq!(
        workers,
        vec!["http://w2/", "http://w0/", "http://w1/", "http://w2/", "http://w0/"]
    );
}

#[test]
fn routed_tasks_go_where_they_were_routed() {
    let routed = vec!["http://a/".to_string(), "http://b/".to_string()];
    let workers = assign_workers(2, Routing::Routed(routed.clone()), &urls(3), 0).unwrap();
    assert_eq!(workers, routed);
    assert_eq!(
        text(assign_workers(3, Routing::Routed(routed), &urls(3), 0).unwrap_err()),
        "Execution error: number of tasks (3) was not equal to number of urls (2) at execution time"
    );
    assert_eq!(
        text(assign_workers(1, Routing::Failed("no".to_string()), &urls(1), 0).unwrap_err()),
        "Execution error: error routing tasks to workers: no"
    );
}

#[test]
fn preparation_sends_a_plan_for_every_task() {
    let mut telemetry = Telemetry::new(Some(Arc::new(SilentObserver)), 0);
    let mut preparation = PlanPreparation::begin();
    routing(&mut preparation, &mut telemetry, 2, 3);
    let mut action: Action = preparation.on_routing(Ok(Routing::Unrouted), 2, &mut telemetry);
    for (i, expected) in ["http://w2/", "http://w0/"].into_iter().enumerate() {
        match action {
            PreparationAction::SendPlan { task_i, url } => {
                assert_eq!(task_i, i);
                assert_eq!(url, expected);
            }
            _ => panic!("a plan was due"),
        }
        let sent: Action = preparation.on_plan_sent(Ok(cancellation(i as u64)), &mut telemetry);
        assert!(matches!(sent, PreparationAction::StartFeeds { task_i } if task_i == i));
        action = preparation.on_feeds_started(Ok(()), &mut telemetry);
    }
    match action {
        PreparationAction::ReplaceStage(remote) => {
            assert_eq!(remote.query_id, QUERY);
            assert_eq!(remote.num, 3);
            assert_eq!(remote.workers, vec!["http://w2/", "http://w0/"]);
        }
        _ => panic!("the stage is remote now"),
    }
    let action: Action = preparation.on_stage_replaced(Ok(()), &mut telemetry);
    assert!(matches!(action, PreparationAction::Traverse));
    let action: Action = preparation.on_traversal_end(Ok(()), &mut telemetry);
    match action {
        PreparationAction::Prepared { cancellations } => assert_eq!(cancellations.len(), 2),
        _ => panic!("everything was sent"),
    }
    let due = telemetry.finish(PlanPublicationOutcome::Success).unwrap();
    assert_eq!(due.telemetry.worker_pool_size, 3);
    assert_eq!(due.telemetry.stage_count, 1);
}

#[test]
fn random_routing_takes_workers_in_turn() {
    for _ in 0..20 {
        let mut telemetry = Telemetry::new(None, 0);
        let mut preparation = PlanPreparation::begin();
        routing(&mut preparation, &mut telemetry, 4, 3);
        let mut action: Action =
            preparation.on_routing_at_random(Ok(Routing::Unrouted), &mut telemetry);
        let mut workers = vec![];
        while let PreparationAction::SendPlan { task_i, url } = action {
            workers.push(url);
            let _: Action =
                preparation.on_plan_sent(Ok(cancellation(task_i as u64)), &mut telemetry);
            action = preparation.on_feeds_started(Ok(()), &mut telemetry);
        }
        let start = urls(3).iter().position(|url| *url == workers[0]).unwrap();
        let expected: Vec<String> = (0..4).map(|i| urls(3)[(start + i) % 3].clone()).collect();
        assert_eq!(workers, expected);
    }
}

#[test]
fn failed_preparation_withdraws_what_was_sent() {
    let mut telemetry = Telemetry::new(Some(Arc::new(SilentObserver)), 0);
    let mut preparation = PlanPreparation::begin();
    routing(&mut preparation, &mut telemetry, 2, 1);
    let _: Action = preparation.on_routing(Ok(Routing::Unrouted), 0, &mut telemetry);
    let _: Action = preparation.on_plan_sent(Ok(cancellation(0)), &mut telemetry);
    let _: Action = preparation.on_feeds_started(Ok(()), &mut telemetry);
    let action: Action = preparation.on_plan_sent(Err("encoding".to_string()), &mut telemetry);
    match action {
        PreparationAction::Failed {
            error: DistributedError::Source(error),
            cancellations,
            due,
        } => {
            assert_eq!(error, "encoding");
            assert_eq!(cancellations.len(), 1);
            assert_eq!(cancellations[0].url, "http://w0/");
            let telemetry = due.unwrap().telemetry;
            assert_eq!(telemetry.outcome, PlanPublicationOutcome::Other);
            assert_eq!(telemetry.worker_pool_size, 1);
        }
        _ => panic!("preparation went on"),
    }
    let action: Action = preparation.on_traversal_end(Ok(()), &mut telemetry);
    assert!(matches!(action, PreparationAction::Unexpected));
}

#[test]
fn every_step_of_preparation_can_fail() {
    let fails = |action: Action| match action {
        PreparationAction::Failed { error, due, .. } => {
            assert_eq!(
                due.unwrap().telemetry.outcome,
                PlanPublicationOutcome::Other
            );
            match error {
                DistributedError::Source(error) => error,
                DistributedError::Plan(error) => text(error),
            }
        }
        _ => panic!("preparation went on"),
    };
    let telemetry = || Telemetry::new(Some(Arc::new(SilentObserver)), 0);
    let broken = || "broken".to_string();

    let mut t = telemetry();
    let mut preparation = PlanPreparation::begin();
    assert_eq!(
        fails(preparation.on_worker_resolver(Err(broken()), &mut t)),
        "broken"
    );

    let mut t = telemetry();
    let mut preparation = PlanPreparation::begin();
    let _: Action = preparation.on_worker_resolver(Ok(()), &mut t);
    assert_eq!(fails(preparation.on_urls(Err(broken()), &mut t)), "broken");

    let mut t = telemetry();
    let mut preparation = PlanPreparation::begin();
    let _: Action = preparation.on_worker_resolver(Ok(()), &mut t);
    let _: Action = preparation.on_urls(Ok(urls(1)), &mut t);
    assert_eq!(
        fails(preparation.on_node(PlanNode::RemoteBoundary, &mut t)),
        "Execution error: Input stage from network boundary was not in Local state"
    );

    let mut t = telemetry();
    let mut preparation = PlanPreparation::begin();
    routing(&mut preparation, &mut t, 1, 1);
    assert_eq!(
        fails(preparation.on_routing(Ok(Routing::Routed(vec![])), 0, &mut t)),
        "Execution error: number of tasks (1) was not equal to number of urls (0) at execution time"
    );

    let mut t = telemetry();
    let mut preparation = PlanPreparation::begin();
    routing(&mut preparation, &mut t, 1, 1);
    assert_eq!(
        fails(preparation.on_routing_at_random(Err(broken()), &mut t)),
        "broken"
    );

    let mut t = telemetry();
    let mut preparation = PlanPreparation::begin();
    routing(&mut preparation, &mut t, 1, 1);
    let _: Action = preparation.on_routing(Ok(Routing::Unrouted), 0, &mut t);
    let _: Action = preparation.on_plan_sent(Ok(cancellation(0)), &mut t);
    assert_eq!(
        fails(preparation.on_feeds_started(Err(broken()), &mut t)),
        "broken"
    );

    let mut t = telemetry();
    let mut preparation = PlanPreparation::begin();
    routing(&mut preparation, &mut t, 0, 1);
    let _: Action = preparation.on_routing(Ok(Routing::Unrouted), 0, &mut t);
    assert_eq!(
        fails(preparation.on_stage_replaced(Err(broken()), &mut t)),
        "broken"
    );

    let mut t = telemetry();
    let mut preparation = PlanPreparation::begin();
    let _: Action = preparation.on_worker_resolver(Ok(()), &mut t);
    let _: Action = preparation.on_urls(Ok(urls(1)), &mut t);
    assert_eq!(
        fails(preparation.on_traversal_end(Err(broken()), &mut t)),
        "broken"
    );
}

// Latencies.

#[test]
fn latencies_are_summarized_by_maximum_and_mean() {
    let mut latency = LatencyMetric::new(PLAN_SEND_LATENCY);
    for micros in [10, 40, 25] {
        latency.record(Duration::from_micros(micros));
    }
    assert_eq!(
        latency.names(),
        (
            "plan_send_latency_max".to_string(),
            "plan_send_latency_avg".to_string()
        )
    );
    let summary = latency.summary();
    assert_eq!(summary.max_name, "plan_send_latency_max");
    assert_eq!(summary.avg_name, "plan_send_latency_avg");
    assert_eq!(summary.max, Duration::from_micros(40));
    assert_eq!(summary.avg, Duration::from_micros(25));
}

#[test]
fn latencies_are_counted_in_whole_microseconds() {
    let mut latency = LatencyMetric::new("x");
    latency.record(Duration::from_nanos(1_999));
    let summary = latency.summary();
    assert_eq!(summary.max, Duration::from_micros(1));
    assert_eq!(summary.avg, Duration::from_micros(1));

    let summary = LatencyMetric::new("x").summary();
    assert_eq!(summary.max, Duration::ZERO);
    assert_eq!(summary.avg, Duration::ZERO);
}
