use datafusion::error::DataFusionError;
use datafusion_distributed::coordinator::task_spawner::DistributedTaskContext;
use datafusion_distributed::error::{DistributedError, PlanError};
use datafusion_distributed::messages::{
    CancelPlanRequest, CoordinatorToWorker, CoordinatorToWorkerMsg, SetPlanRequest, TaskMetrics,
    WorkUnit, WorkUnitFeedDeclaration, WorkerToCoordinator,
};
use datafusion_distributed::plan_telemetry::{
    DistributedPlanTelemetryObserver, PlanPublicationOutcome,
};
use datafusion_distributed::status::{RpcStatus, StatusCode};
use datafusion_distributed::worker::coordinator_channel::{
    declared_feeds, ensure_plan_not_cancelled, metrics_message, plan_in_session,
    publication_header, publish_task_data, session_batch_size, worker_url, ChannelAction,
    FeedRegistration, PlanChannel, ServingAction, TaskBuild, TaskFailure,
    WORKER_PUBLICATION_NANOS_HEADER,
};
use datafusion_distributed::worker::execute_task::{
    array_kind, execute_partitions, garbage_collect_arrays, metrics_slot, partition_streams,
    plan_publication_read_error, published_plan, send_metrics_via_channel, stream_failure_status,
    wire_compression, ArrayKind, Collectors, ExecuteTaskRequest, PartitionCountdown, PlanMetrics,
    StreamDropped, StreamFailure, WireCompression,
};
use datafusion_distributed::worker::feeds::FeedSenders;
use datafusion_distributed::worker::single_write_multi_read::{
    SingleWriteMultiRead, SingleWriteMultiReadError,
};
use datafusion_distributed::worker::worker_service::{
    cancel_plan, cancel_published_plan, worker_server_limits, CacheOp, Worker, TASK_CACHE_TTI_SECS,
};
use datafusion_distributed::{TaskKey, PLAN_PUBLICATION_ERROR_PREFIX};
use datafusion_proto::protobuf::physical_plan_node::PhysicalPlanType;
use datafusion_proto::protobuf::{ExplainExecNode, PhysicalPlanNode};
use moka::future::Cache;
use prost::Message;
use std::sync::Arc;
use std::time::Duration;

fn task_key() -> TaskKey {
    TaskKey {
        query_id: vec![1, 2, 3],
        stage_id: 7,
        task_number: 11,
    }
}

fn text(error: PlanError) -> String {
    match error {
        PlanError::Execution(message) => format!("Execution error: {message}"),
        PlanError::Internal(message) => format!("Internal error: {message}"),
        PlanError::InvalidUrl(error) => format!("External error: {error}"),
    }
}

// What a worker remembers.

struct Caches {
    plans: Cache<TaskKey, ()>,
    cancelled: Cache<TaskKey, ()>,
}

impl Caches {
    fn new() -> Self {
        let idle = Duration::from_secs(TASK_CACHE_TTI_SECS);
        Self {
            plans: Cache::builder().time_to_idle(idle).build(),
            cancelled: Cache::builder().time_to_idle(idle).build(),
        }
    }

    async fn make(&self, ops: Vec<CacheOp>) {
        for op in ops {
            match op {
                CacheOp::MarkCancelled(key) => self.cancelled.insert(key, ()).await,
                CacheOp::Invalidate(key) => self.plans.invalidate(&key).await,
            }
        }
    }
}

fn block_on<T>(work: impl std::future::Future<Output = T>) -> T {
    tokio::runtime::Builder::new_current_thread()
        .build()
        .unwrap()
        .block_on(work)
}

#[test]
fn cancellation_invalidates_published_plan() {
    block_on(async {
        let caches = Caches::new();
        let key = task_key();
        caches.plans.insert(key.clone(), ()).await;

        caches.make(cancel_published_plan(&key)).await;

        assert!(caches.plans.get(&key).await.is_none());
        assert!(caches.cancelled.contains_key(&key));
    });
}

#[test]
fn cancellation_before_publication_rejects_the_plan() {
    block_on(async {
        let caches = Caches::new();
        let key = TaskKey {
            query_id: vec![4, 5, 6],
            stage_id: 8,
            task_number: 12,
        };

        caches.make(cancel_published_plan(&key)).await;
        caches.plans.insert(key.clone(), ()).await;

        let (op, status) =
            ensure_plan_not_cancelled(caches.cancelled.contains_key(&key), &key).unwrap_err();
        caches.make(vec![op]).await;

        assert_eq!(status.code, StatusCode::Cancelled);
        assert_eq!(
            status.message,
            "Plan publication cancelled for TaskKey TaskKey { query_id: [4, 5, 6], stage_id: 8, task_number: 12 }"
        );
        assert!(caches.plans.get(&key).await.is_none());
    });
}

#[test]
fn other_plans_are_not_cancelled() {
    block_on(async {
        let caches = Caches::new();
        let other = TaskKey {
            query_id: vec![1, 2, 3],
            stage_id: 7,
            task_number: 12,
        };
        caches.plans.insert(other.clone(), ()).await;
        caches.make(cancel_published_plan(&task_key())).await;
        caches.make(cancel_published_plan(&task_key())).await;

        assert!(caches.plans.get(&other).await.is_some());
        assert!(!caches.cancelled.contains_key(&other));
        assert!(ensure_plan_not_cancelled(false, &other).is_ok());
    });
}

#[test]
fn cancel_plan_invalidates_the_keyed_entry() {
    block_on(async {
        let caches = Caches::new();
        let task_key = TaskKey {
            query_id: vec![1; 16],
            stage_id: 2,
            task_number: 3,
        };
        caches.plans.insert(task_key.clone(), ()).await;

        let ops = cancel_plan(CancelPlanRequest {
            task_key: Some(task_key.clone()),
        })
        .unwrap();
        caches.make(ops).await;

        assert!(caches.plans.get(&task_key).await.is_none());
    });
}

#[test]
fn cancel_plan_requires_a_task_key() {
    let status = cancel_plan(CancelPlanRequest { task_key: None }).unwrap_err();
    assert_eq!(status.code, StatusCode::InvalidArgument);
    assert_eq!(status.message, "Missing field 'task_key'");
}

#[test]
fn workers_are_built_step_by_step() {
    let mut worker: Worker<&str, &str, Box<dyn Fn(u32) -> u32>> =
        Worker::from_session_builder("sessions", "runtime");
    assert_eq!(worker.get_worker_info(), "");
    assert_eq!(worker.max_message_size, Some(usize::MAX));
    assert_eq!(worker.flight_data_size(), usize::MAX);
    worker.add_on_plan_hook(Box::new(|plan| plan + 1));
    worker.add_on_plan_hook(Box::new(|plan| plan * 10));
    let worker = worker
        .with_runtime_env("other runtime")
        .with_max_message_size(64)
        .with_version("1.2.3".to_string());
    assert_eq!(worker.runtime, "other runtime");
    assert_eq!(worker.session_builder, "sessions");
    assert_eq!(worker.max_message_size, Some(64));
    assert_eq!(worker.flight_data_size(), 64);
    assert_eq!(worker.get_worker_info(), "1.2.3");
    assert_eq!(worker.hooks.apply_on_plan(4), 50);
    let limits = worker_server_limits();
    assert_eq!(limits.max_decoding_message_size, usize::MAX);
    assert_eq!(limits.max_encoding_message_size, usize::MAX);
}

// Values that are written once.

#[test]
fn values_are_written_once() {
    let mut entry = SingleWriteMultiRead::new();
    assert_eq!(entry.read_now(), Err(SingleWriteMultiReadError::NoValue));
    assert_eq!(entry.write(1), Ok(()));
    assert_eq!(
        entry.write(2),
        Err(SingleWriteMultiReadError::AlreadyWritten)
    );
    assert_eq!(entry.read_now(), Ok(&1));
}

#[test]
fn producer_failure_is_published_and_returned_to_coordinator() {
    let mut entry: SingleWriteMultiRead<Result<(), TaskFailure<String>>> =
        SingleWriteMultiRead::new();
    let status = publish_task_data(
        &mut entry,
        &task_key(),
        Err(TaskFailure {
            error: "Execution error: injected plan decode failure".to_string(),
            status: RpcStatus::new(
                StatusCode::Internal,
                "Execution error: injected plan decode failure".to_string(),
            ),
        }),
    )
    .unwrap_err();

    assert!(status.message.contains("injected plan decode failure"));
    let reader_error = entry.read_now().unwrap().as_ref().unwrap_err();
    assert!(reader_error.error.contains("injected plan decode failure"));
}

#[test]
fn plans_are_published_once() {
    let mut entry: SingleWriteMultiRead<Result<u8, TaskFailure<String>>> =
        SingleWriteMultiRead::new();
    assert_eq!(publish_task_data(&mut entry, &task_key(), Ok(1)), Ok(()));
    let status = publish_task_data(&mut entry, &task_key(), Ok(2)).unwrap_err();
    assert_eq!(status.code, StatusCode::Internal);
    assert_eq!(
        status.message,
        "Logic error while setting plan for TaskKey TaskKey { query_id: [1, 2, 3], stage_id: 7, task_number: 11 }: the plan was set twice. This is a bug in datafusion-distributed, please report it."
    );
    assert_eq!(*entry.read_now().unwrap().as_ref().unwrap(), 1);
}

// The conversation about a plan.

struct SilentObserver;

impl DistributedPlanTelemetryObserver for SilentObserver {}

type Action = ChannelAction<SilentObserver>;
type Entry = SingleWriteMultiRead<Result<&'static str, TaskFailure<String>>>;

fn observer() -> Option<Arc<SilentObserver>> {
    Some(Arc::new(SilentObserver))
}

fn feed_id(last: u8) -> Vec<u8> {
    let mut id = vec![0; 15];
    id.push(last);
    id
}

fn plan_node() -> PhysicalPlanNode {
    PhysicalPlanNode {
        physical_plan_type: Some(PhysicalPlanType::Explain(ExplainExecNode {
            verbose: true,
            ..ExplainExecNode::default()
        })),
    }
}

fn set_plan(target_worker_url: &str) -> Option<Result<CoordinatorToWorkerMsg<u8>, RpcStatus>> {
    Some(Ok(CoordinatorToWorkerMsg {
        inner: Some(CoordinatorToWorker::SetPlanRequest(SetPlanRequest {
            plan_proto: plan_node().encode_to_vec(),
            task_count: 20,
            task_key: Some(task_key()),
            work_unit_feed_declarations: vec![
                WorkUnitFeedDeclaration {
                    id: feed_id(1),
                    partitions: 4,
                },
                WorkUnitFeedDeclaration {
                    id: vec![1, 2],
                    partitions: 4,
                },
            ],
            target_worker_url: target_worker_url.to_string(),
            query_start_time_ns: 77,
        })),
    }))
}

fn elapsed() -> Duration {
    Duration::from_micros(5)
}

fn serving() -> PlanChannel {
    let mut channel = PlanChannel::begin();
    let _: Action = channel.on_first_message(set_plan("http://w"));
    channel.on_cancellation_checked(false, elapsed(), &observer());
    let mut entry = Entry::new();
    channel.on_task_built(&mut entry, Ok("plan"), elapsed(), &observer());
    channel.on_cancellation_checked(false, elapsed(), &observer());
    channel
}

#[test]
fn plans_are_checked_built_published_and_acknowledged() {
    let mut channel = PlanChannel::begin();
    let action: Action = channel.on_first_message(set_plan("http://worker.example:8080"));
    assert!(matches!(action, ChannelAction::CheckCancelled(key) if key == task_key()));

    let build = match channel.on_cancellation_checked(false, elapsed(), &observer()) {
        ChannelAction::BuildTask(build) => build,
        _ => panic!("the plan was not withdrawn"),
    };
    assert_eq!(
        build.context,
        DistributedTaskContext {
            task_index: 11,
            task_count: 20
        }
    );
    assert_eq!(
        build.feeds,
        vec![FeedRegistration {
            id: 1,
            partitions: 4
        }]
    );
    assert_eq!(build.plan.unwrap(), plan_node());
    assert_eq!(build.query_start_time_ns, 77);
    assert_eq!(build.self_url.unwrap(), "http://worker.example:8080/");

    let mut entry = Entry::new();
    let action = channel.on_task_built(&mut entry, Ok("plan"), elapsed(), &observer());
    assert!(matches!(action, ChannelAction::CheckCancelled(key) if key == task_key()));
    assert_eq!(*entry.read_now().unwrap().as_ref().unwrap(), "plan");

    match channel.on_cancellation_checked(false, elapsed(), &observer()) {
        ChannelAction::Acknowledge { due, header } => {
            assert_eq!(header.unwrap(), "5000");
            let telemetry = due.unwrap().telemetry;
            assert_eq!(telemetry.task_key, task_key());
            assert_eq!(
                telemetry.serialized_bytes,
                plan_node().encode_to_vec().len()
            );
            assert_eq!(telemetry.decode_publication_duration, elapsed());
            assert_eq!(telemetry.outcome, PlanPublicationOutcome::Success);
        }
        _ => panic!("the plan is published"),
    }
}

#[test]
fn plans_that_cannot_be_decoded_are_handed_on_as_errors() {
    let mut undecodable = set_plan("http://w");
    if let Some(Ok(CoordinatorToWorkerMsg {
        inner: Some(CoordinatorToWorker::SetPlanRequest(request)),
    })) = &mut undecodable
    {
        request.plan_proto = vec![8, 9];
    }
    let mut channel = PlanChannel::begin();
    let _: Action = channel.on_first_message(undecodable);
    match channel.on_cancellation_checked(false, elapsed(), &observer()) {
        ChannelAction::BuildTask(build) => assert!(build
            .plan
            .unwrap_err()
            .to_string()
            .contains("failed to decode physical plan")),
        _ => panic!("the plan was not withdrawn"),
    }
}

#[test]
fn received_plans_pass_every_hook_in_order() {
    let mut worker: Worker<(), (), Box<dyn Fn(Vec<usize>) -> Vec<usize>>> =
        Worker::from_session_builder((), ());
    for hook in [1, 2] {
        worker.add_on_plan_hook(Box::new(move |mut plan: Vec<usize>| {
            plan.push(hook);
            plan
        }));
    }
    let into_plan = |node: usize| {
        if node == 0 {
            Err("no plan")
        } else {
            Ok(vec![node])
        }
    };
    let count = |plan: &Vec<usize>| plan.len();
    let mut received = worker.hooks.receive_plan(7, into_plan, count).ok().unwrap();
    assert_eq!(received.base_plan, vec![7, 1, 2]);
    let dropped = [(); 3].map(|_| received.countdown.on_stream_dropped(false));
    assert_eq!(dropped[1], StreamDropped::Remaining);
    assert_eq!(
        dropped[2],
        StreamDropped::Finished {
            send_metrics: false
        }
    );
    let refused = worker.hooks.receive_plan(0, into_plan, count);
    assert_eq!(refused.err(), Some("no plan"));
}

fn build_of(url: &str, plan_proto: Vec<u8>) -> TaskBuild {
    let mut message = set_plan(url);
    if let Some(Ok(CoordinatorToWorkerMsg {
        inner: Some(CoordinatorToWorker::SetPlanRequest(request)),
    })) = &mut message
    {
        request.plan_proto = plan_proto;
    }
    let mut channel = PlanChannel::begin();
    let _: Action = channel.on_first_message(message);
    match channel.on_cancellation_checked(false, elapsed(), &observer()) {
        ChannelAction::BuildTask(build) => build,
        _ => panic!("the plan was not withdrawn"),
    }
}

#[test]
fn a_task_fails_for_its_address_before_its_session_and_its_plan() {
    let undecodable = vec![8, 9];
    let no_session = || DataFusionError::Internal("no session".to_string());

    let unaddressed = build_of("no address", undecodable.clone()).addressed();
    assert!(matches!(unaddressed.err(), Some(PlanError::InvalidUrl(_))));

    let addressed = build_of("http://w", undecodable.clone()).addressed().ok().unwrap();
    assert_eq!(addressed.self_url, "http://w/");
    assert_eq!(addressed.query_start_time_ns, 77);
    assert_eq!(addressed.context.task_index, 11);
    let failed = plan_in_session::<u8>(Err(no_session()), addressed.plan);
    assert!(failed.unwrap_err().to_string().contains("no session"));

    let addressed = build_of("http://w", undecodable).addressed().ok().unwrap();
    let failed = plan_in_session(Ok(1), addressed.plan);
    assert!(failed
        .unwrap_err()
        .to_string()
        .contains("failed to decode physical plan"));

    let plan_proto = plan_node().encode_to_vec();
    let addressed = build_of("http://w", plan_proto).addressed().ok().unwrap();
    let (session, node) = plan_in_session(Ok(1), addressed.plan).unwrap();
    assert_eq!(session, 1);
    assert_eq!(node, plan_node());
}

#[test]
fn withdrawn_plans_are_refused_before_and_after_they_are_built() {
    let refused = |action: Action| match action {
        ChannelAction::Refuse { op, status, due } => {
            assert!(matches!(op, Some(CacheOp::Invalidate(key)) if key == task_key()));
            assert_eq!(status.code, StatusCode::Cancelled);
            assert_eq!(
                due.unwrap().telemetry.outcome,
                PlanPublicationOutcome::Cancellation
            );
        }
        _ => panic!("the plan was withdrawn"),
    };
    let mut channel = PlanChannel::begin();
    let _: Action = channel.on_first_message(set_plan("http://w"));
    refused(channel.on_cancellation_checked(true, elapsed(), &observer()));

    let mut channel = PlanChannel::begin();
    let _: Action = channel.on_first_message(set_plan("http://w"));
    channel.on_cancellation_checked(false, elapsed(), &observer());
    let mut entry = Entry::new();
    channel.on_task_built(&mut entry, Ok("plan"), elapsed(), &observer());
    refused(channel.on_cancellation_checked(true, elapsed(), &observer()));
    let action = channel.on_cancellation_checked(false, elapsed(), &observer());
    assert!(matches!(action, ChannelAction::Unexpected));
}

#[test]
fn plans_that_cannot_be_built_are_refused_with_their_status() {
    let mut channel = PlanChannel::begin();
    let _: Action = channel.on_first_message(set_plan("http://w"));
    channel.on_cancellation_checked(false, elapsed(), &observer());
    let mut entry = Entry::new();
    let failure = TaskFailure {
        error: "decode".to_string(),
        status: RpcStatus::new(StatusCode::Internal, "decode failed".to_string()),
    };
    match channel.on_task_built(&mut entry, Err(failure), elapsed(), &observer()) {
        ChannelAction::Refuse { op, status, due } => {
            assert!(op.is_none());
            assert_eq!(status.message, "decode failed");
            assert_eq!(
                due.unwrap().telemetry.outcome,
                PlanPublicationOutcome::Other
            );
        }
        _ => panic!("there is no plan"),
    }
    assert!(entry.read_now().unwrap().is_err());
}

#[test]
fn conversations_open_with_a_plan() {
    let rejected = |first: Option<Result<CoordinatorToWorkerMsg<u8>, RpcStatus>>| {
        let mut channel = PlanChannel::begin();
        let action: Action = channel.on_first_message(first);
        match action {
            ChannelAction::Reject(status) => (status.code, status.message),
            _ => panic!("this is no plan"),
        }
    };
    assert_eq!(
        rejected(None),
        (StatusCode::Internal, "Empty Coordinator stream".to_string())
    );
    assert_eq!(
        rejected(Some(Ok(CoordinatorToWorkerMsg { inner: None }))),
        (
            StatusCode::Internal,
            "First Coordinator message must be SetPlanRequest".to_string()
        )
    );
    assert_eq!(
        rejected(Some(Err(RpcStatus::new(
            StatusCode::Unavailable,
            "gone".to_string()
        )))),
        (StatusCode::Unavailable, "gone".to_string())
    );
    let mut without_key = set_plan("http://w");
    if let Some(Ok(CoordinatorToWorkerMsg {
        inner: Some(CoordinatorToWorker::SetPlanRequest(request)),
    })) = &mut without_key
    {
        request.task_key = None;
    }
    assert_eq!(
        rejected(without_key),
        (
            StatusCode::InvalidArgument,
            "Missing field 'task_key'".to_string()
        )
    );
}

#[test]
fn published_plans_are_fed_and_withdrawn() {
    let message = |inner| Some(Ok(CoordinatorToWorkerMsg { inner }));
    let mut channel = serving();
    let batch = vec![WorkUnit {
        id: feed_id(1),
        partition: 2,
        unit: 9u8,
    }];
    match channel.on_message(message(Some(CoordinatorToWorker::WorkUnitBatch(batch)))) {
        ServingAction::Deliver(batch) => assert_eq!(batch[0].unit, 9),
        _ => panic!("work units are delivered"),
    }
    assert!(matches!(
        channel.on_message::<u8>(message(None)),
        ServingAction::Ignore
    ));
    assert!(matches!(
        channel.on_message::<u8>(set_plan("http://w")),
        ServingAction::Ignore
    ));
    let request = CancelPlanRequest { task_key: None };
    match channel.on_message::<u8>(message(Some(CoordinatorToWorker::CancelPlanRequest(request)))) {
        ServingAction::Withdraw(ops) => {
            assert_eq!(ops.len(), 2);
            assert!(matches!(&ops[0], CacheOp::MarkCancelled(key) if *key == task_key()));
            assert!(matches!(&ops[1], CacheOp::Invalidate(key) if *key == task_key()));
        }
        _ => panic!("the plan is withdrawn"),
    }
    assert!(matches!(
        channel.on_message::<u8>(message(None)),
        ServingAction::Stop
    ));

    let other = TaskKey {
        query_id: vec![5],
        stage_id: 1,
        task_number: 2,
    };
    let request = CancelPlanRequest {
        task_key: Some(other.clone()),
    };
    match serving()
        .on_message::<u8>(message(Some(CoordinatorToWorker::CancelPlanRequest(request))))
    {
        ServingAction::Withdraw(ops) => {
            assert!(matches!(&ops[1], CacheOp::Invalidate(key) if *key == other))
        }
        _ => panic!("the plan is withdrawn"),
    }
    assert!(matches!(
        serving().on_message::<u8>(None),
        ServingAction::Stop
    ));
}

#[test]
fn publication_time_is_reported_in_a_header() {
    assert_eq!(
        WORKER_PUBLICATION_NANOS_HEADER,
        "x-datafusion-worker-plan-publication-nanos"
    );
    assert_eq!(publication_header(Duration::from_nanos(0)).unwrap(), "0");
    assert_eq!(
        publication_header(Duration::MAX).unwrap(),
        "18446744073709551615"
    );
}

#[test]
fn worker_addresses_are_urls() {
    assert_eq!(worker_url("HTTP://Worker:80").unwrap(), "http://worker/");
    assert_eq!(
        text(worker_url("worker").unwrap_err()),
        "External error: relative URL without a base"
    );
}

#[test]
fn batch_size_zero_is_the_default() {
    assert_eq!(session_batch_size(0), None);
    assert_eq!(session_batch_size(8192), Some(8192));
}

#[test]
fn finished_tasks_send_their_metrics() {
    let metrics = TaskMetrics {
        pre_order_plan_metrics: vec![1u8],
        task_metrics: None,
    };
    match metrics_message(Some(metrics)).unwrap().inner {
        Some(WorkerToCoordinator::TaskMetrics(metrics)) => {
            assert_eq!(metrics.pre_order_plan_metrics, vec![1])
        }
        None => panic!("there are metrics"),
    }
    assert!(metrics_message::<u8>(None).is_none());
}

// Feeds.

#[test]
fn feeds_are_declared_by_their_identifiers() {
    let declaration = |id, partitions| WorkUnitFeedDeclaration { id, partitions };
    let long = vec![0; 17];
    let feeds = declared_feeds(&vec![
        declaration((1..17).collect(), 2),
        declaration(long, 3),
        declaration(feed_id(255), 0),
    ]);
    assert_eq!(
        feeds,
        vec![
            FeedRegistration {
                id: 0x0102_0304_0506_0708_090a_0b0c_0d0e_0f10,
                partitions: 2
            },
            FeedRegistration {
                id: 255,
                partitions: 0
            },
        ]
    );
}

#[test]
fn work_units_go_to_their_partition_while_it_is_open() {
    let unit = |id, partition| WorkUnit {
        id,
        partition,
        unit: 0u8,
    };
    let mut senders = FeedSenders::new();
    senders.insert(1, 0, "a");
    senders.insert(1, 1, "b");
    senders.insert(2, 0, "c");
    assert_eq!(senders.target(&unit(feed_id(1), 1)), Some((1, 1)));
    assert_eq!(senders.get(1, 1), Some(&"b"));
    assert_eq!(senders.target(&unit(feed_id(1), 2)), None);
    assert_eq!(senders.target(&unit(feed_id(3), 0)), None);
    assert_eq!(senders.target(&unit(vec![1], 0)), None);

    senders.on_sent((1, 1), true);
    assert_eq!(senders.get(1, 1), Some(&"b"));
    senders.on_sent((1, 1), false);
    assert_eq!(senders.target(&unit(feed_id(1), 1)), None);
    assert_eq!(senders.get(1, 0), Some(&"a"));
    assert_eq!(senders.get(2, 0), Some(&"c"));
    senders.insert(1, 0, "d");
    assert_eq!(senders.get(1, 0), Some(&"d"));
    senders.remove(7, 7);
    assert_eq!(senders.get(2, 0), Some(&"c"));
}

// Execution.

#[test]
fn plan_publication_timeout_has_actionable_context() {
    let error = plan_publication_read_error(
        SingleWriteMultiReadError::Timeout,
        &task_key(),
        &format!("{:?}", "NoneHead"),
        3,
    );
    let message = text(error);

    assert!(message.contains("Plan publication timeout after 3s"));
    assert!(message.contains(PLAN_PUBLICATION_ERROR_PREFIX));
    assert!(message.contains("stage_id=7"));
    assert!(message.contains("task_id=11"));
    assert!(message.contains("producer_head=\"NoneHead\""));
    assert!(message.contains("last_completed_phase=ExecuteTask received"));
    assert_eq!(
        message,
        "Execution error: [datafusion-distributed:plan-publication] Plan publication timeout after 3s: query_id=[1, 2, 3], stage_id=7, task_id=11, producer_head=\"NoneHead\", phase=ExecuteTask waiting for CoordinatorChannel acknowledgement, last_completed_phase=ExecuteTask received"
    );
}

#[test]
fn closed_plan_publication_is_not_reported_as_timeout() {
    let error = plan_publication_read_error(
        SingleWriteMultiReadError::NoValue,
        &task_key(),
        &format!("{:?}", "NoneHead"),
        3,
    );
    let message = text(error);

    assert!(message.contains("ended without a value"));
    assert!(!message.contains("timeout"));
}

#[test]
fn duplicate_publication_is_reported_as_such() {
    let error = plan_publication_read_error(
        SingleWriteMultiReadError::AlreadyWritten,
        &task_key(),
        "NoneHead",
        3,
    );
    assert_eq!(
        text(error),
        "Execution error: Unexpected duplicate plan publication state while reading query_id=[1, 2, 3], stage_id=7, task_id=11"
    );
}

fn request(start: u64, end: u64) -> ExecuteTaskRequest<&'static str> {
    ExecuteTaskRequest {
        task_key: Some(task_key()),
        producer_head: Some("head"),
        target_partition_start: start,
        target_partition_end: end,
    }
}

#[test]
fn executions_name_a_task_and_a_head() {
    let (key, head) = request(0, 1).target().map(|t| (t.0.clone(), *t.1)).unwrap();
    assert_eq!(key, task_key());
    assert_eq!(head, "head");
    let mut headless = request(0, 1);
    headless.producer_head = None;
    assert_eq!(
        text(headless.target().unwrap_err()),
        "Internal error: Missing producer_head"
    );
    headless.task_key = None;
    assert_eq!(
        text(headless.target().unwrap_err()),
        "Internal error: Missing task_key in LocalWorkerConnection"
    );
}

#[test]
fn executions_get_the_plan_or_the_reason_for_which_there_is_none() {
    let key = task_key();
    assert!(matches!(
        published_plan::<_, String>(Ok(Ok("plan")), &key, "head"),
        Ok("plan")
    ));
    match published_plan::<u8, _>(Ok(Err("decode")), &key, "head") {
        Err(DistributedError::Source(error)) => assert_eq!(error, "decode"),
        other => panic!("{other:?}"),
    }
    match published_plan::<u8, String>(Err(SingleWriteMultiReadError::Timeout), &key, "head") {
        Err(DistributedError::Plan(error)) => {
            assert!(text(error).contains("Plan publication timeout after 10s: query_id=[1, 2, 3]"))
        }
        other => panic!("{other:?}"),
    }
}

#[test]
fn requested_partitions_are_executed_in_order() {
    let execute = |partition: usize| {
        if partition == 4 {
            Err("spilled")
        } else {
            Ok(partition * 10)
        }
    };
    assert_eq!(
        execute_partitions(&request(1, 4), 8, "Head", execute).unwrap(),
        vec![10, 20, 30]
    );
    assert!(execute_partitions(&request(9, 9), 8, "Head", execute)
        .unwrap()
        .is_empty());
    match execute_partitions(&request(3, 6), 8, "Head", execute) {
        Err(DistributedError::Source(error)) => assert_eq!(error, "spilled"),
        other => panic!("{other:?}"),
    }
    match execute_partitions(&request(1, 4), 3, "Head", execute) {
        Err(DistributedError::Plan(error)) => assert_eq!(
            text(error),
            "Execution error: partition 3 not available. The head plan Head of the stage just has 3 partitions"
        ),
        other => panic!("{other:?}"),
    }
    match execute_partitions(&request(5, 6), 3, "Head", execute) {
        Err(DistributedError::Plan(error)) => assert_eq!(
            text(error),
            "Execution error: partition 5 not available. The head plan Head of the stage just has 3 partitions"
        ),
        other => panic!("{other:?}"),
    }
}

#[test]
fn the_last_partition_finishes_its_task() {
    let mut countdown = PartitionCountdown::new(3);
    assert_eq!(countdown.on_stream_dropped(true), StreamDropped::Remaining);
    assert_eq!(countdown.on_stream_dropped(true), StreamDropped::Remaining);
    assert_eq!(
        countdown.on_stream_dropped(true),
        StreamDropped::Finished { send_metrics: true }
    );
    assert_eq!(countdown.on_stream_dropped(true), StreamDropped::Remaining);
    assert_eq!(
        PartitionCountdown::new(1).on_stream_dropped(false),
        StreamDropped::Finished {
            send_metrics: false
        }
    );
}

#[test]
fn metrics_are_sent_once_in_the_order_of_the_plan() {
    let visited = || {
        let mut metrics = PlanMetrics::new();
        metrics.visit(Some("root"), "");
        metrics.visit(None, "");
        metrics.visit(Some("leaf"), "");
        metrics
    };
    let mut slot = metrics_slot(true, "sender");
    let (sender, metrics) = send_metrics_via_channel(&mut slot, visited(), "task").unwrap();
    assert_eq!(sender, "sender");
    assert_eq!(metrics.pre_order_plan_metrics, vec!["root", "", "leaf"]);
    assert_eq!(metrics.task_metrics, Some("task"));
    assert!(send_metrics_via_channel(&mut slot, visited(), "task").is_none());
    let mut slot = metrics_slot(false, "sender");
    assert!(send_metrics_via_channel(&mut slot, visited(), "task").is_none());
}

#[test]
fn compression_is_chosen_by_name() {
    let compression = |name: &str| wire_compression(&name.to_string());
    assert_eq!(compression("lz4"), Ok(Some(WireCompression::Lz4Frame)));
    assert_eq!(compression("zstd"), Ok(Some(WireCompression::Zstd)));
    assert_eq!(compression("none"), Ok(None));
    assert_eq!(
        compression("gzip"),
        Err(RpcStatus::new(
            StatusCode::InvalidArgument,
            "Unknown compression type gzip".to_string()
        ))
    );
}

#[test]
fn streams_are_told_apart_by_their_partition() {
    assert_eq!(
        partition_streams(&request(5, 7), vec!["a", "b"]),
        vec![(5, "a"), (6, "b")]
    );
    assert!(partition_streams::<_, u8>(&request(5, 5), vec![]).is_empty());
}

#[test]
fn broken_streams_end_with_a_status() {
    let status = RpcStatus::new(StatusCode::Aborted, "stop".to_string());
    assert_eq!(
        stream_failure_status(StreamFailure::Status(status.clone())),
        status
    );
    assert_eq!(
        stream_failure_status(StreamFailure::Other("bad schema".to_string())),
        RpcStatus::new(
            StatusCode::Internal,
            "Error during flight stream: bad schema".to_string()
        )
    );
}

#[test]
fn only_arrays_with_shared_values_are_collected() {
    let collectors = Collectors {
        dictionary: |array: i32| {
            if array < 0 {
                Err("bad dictionary")
            } else {
                Ok(array + 100)
            }
        },
        string_view: |array: i32| array + 200,
        binary_view: |array: i32| array + 300,
    };
    let arrays = vec![
        (array_kind(true, false, false), 1),
        (array_kind(false, true, false), 2),
        (array_kind(false, false, true), 3),
        (array_kind(false, false, false), 4),
    ];
    assert_eq!(
        garbage_collect_arrays(arrays, &collectors),
        Ok(vec![101, 202, 303, 4])
    );
    assert_eq!(
        garbage_collect_arrays(
            vec![(ArrayKind::Plain, 1), (ArrayKind::Dictionary, -1)],
            &collectors
        ),
        Err("bad dictionary")
    );
    assert_eq!(array_kind(true, true, true), ArrayKind::Dictionary);
    assert_eq!(array_kind(false, true, true), ArrayKind::StringView);
}
