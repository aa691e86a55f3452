use datafusion_distributed::plan_telemetry::{
    set_distributed_plan_telemetry_observer, DistributedConfig, DistributedPlanTelemetry,
    DistributedPlanTelemetryGuard, DistributedPlanTelemetryObserver, DistributedPlanTelemetryState,
    Notification, PlanPublicationOutcome, PlanTelemetryObserverExtension,
    PublishedTaskPlanTelemetry, SerializedTaskPlanTelemetry, WorkerTaskPlanTelemetry,
};
use datafusion_distributed::TaskKey;
use std::sync::{Arc, Mutex};
use std::time::Duration;

#[derive(Default)]
struct RecordingObserver {
    serialized: Mutex<Vec<SerializedTaskPlanTelemetry>>,
    published: Mutex<Vec<PublishedTaskPlanTelemetry>>,
    finished: Mutex<Vec<DistributedPlanTelemetry>>,
}

impl DistributedPlanTelemetryObserver for RecordingObserver {
    fn task_plan_serialized(&self, telemetry: &SerializedTaskPlanTelemetry) {
        self.serialized.lock().unwrap().push(telemetry.clone());
    }

    fn task_plan_published(&self, telemetry: &PublishedTaskPlanTelemetry) {
        self.published.lock().unwrap().push(telemetry.clone());
    }

    fn distributed_plan_finished(&self, telemetry: &DistributedPlanTelemetry) {
        self.finished.lock().unwrap().push(telemetry.clone());
    }
}

type Observer = dyn DistributedPlanTelemetryObserver;

fn task_key(task_number: u64) -> TaskKey {
    TaskKey {
        query_id: vec![1, 2, 3],
        stage_id: 4,
        task_number,
    }
}

fn deliver_serialized(due: Option<Notification<Observer, SerializedTaskPlanTelemetry>>) {
    if let Some(due) = due {
        due.observer.task_plan_serialized(&due.telemetry);
    }
}

fn deliver_published(due: Option<Notification<Observer, PublishedTaskPlanTelemetry>>) {
    if let Some(due) = due {
        due.observer.task_plan_published(&due.telemetry);
    }
}

fn deliver_finished(due: Option<Notification<Observer, DistributedPlanTelemetry>>) {
    if let Some(due) = due {
        due.observer.distributed_plan_finished(&due.telemetry);
    }
}

#[test]
fn aggregates_query_measurements_once() {
    let observer = Arc::new(RecordingObserver::default());
    let mut state = DistributedPlanTelemetryState::new(
        Some(observer.clone() as Arc<dyn DistributedPlanTelemetryObserver>),
        7,
    );
    state.stage_started();
    state.stage_started();
    deliver_serialized(state.task_serialized(SerializedTaskPlanTelemetry {
        task_key: task_key(0),
        serialized_bytes: 100,
        serialization_duration: Duration::from_micros(10),
    }));
    deliver_serialized(state.task_serialized(SerializedTaskPlanTelemetry {
        task_key: task_key(1),
        serialized_bytes: 250,
        serialization_duration: Duration::from_micros(20),
    }));
    deliver_published(state.task_published(PublishedTaskPlanTelemetry {
        task_key: task_key(0),
        coordinator_transfer_duration: Duration::from_micros(30),
        worker_decode_publication_duration: Duration::from_micros(40),
        outcome: PlanPublicationOutcome::Success,
    }));
    deliver_finished(state.finish(PlanPublicationOutcome::Success));
    deliver_finished(state.finish(PlanPublicationOutcome::Other));

    let finished = observer.finished.lock().unwrap();
    assert_eq!(finished.len(), 1);
    let telemetry = &finished[0];
    assert_eq!(telemetry.stage_count, 2);
    assert_eq!(telemetry.task_count, 2);
    assert_eq!(telemetry.worker_pool_size, 7);
    assert_eq!(telemetry.max_serialized_task_plan_bytes, 250);
    assert_eq!(telemetry.aggregate_fanout_bytes, 350);
    assert_eq!(telemetry.serialization_duration, Duration::from_micros(30));
    assert_eq!(
        telemetry.coordinator_transfer_duration,
        Duration::from_micros(30)
    );
    assert_eq!(
        telemetry.worker_decode_publication_duration,
        Duration::from_micros(40)
    );
    assert_eq!(telemetry.outcome, PlanPublicationOutcome::Success);

    let serialized = observer.serialized.lock().unwrap();
    assert_eq!(serialized.len(), 2);
    assert_eq!(serialized[1].task_key, task_key(1));
    assert_eq!(serialized[1].serialized_bytes, 250);
    let published = observer.published.lock().unwrap();
    assert_eq!(published.len(), 1);
    assert_eq!(published[0].task_key, task_key(0));
    assert_eq!(published[0].outcome, PlanPublicationOutcome::Success);
}

#[test]
fn dropped_guard_reports_cancellation() {
    let observer = Arc::new(RecordingObserver::default());
    let mut state = DistributedPlanTelemetryState::new(
        Some(observer.clone() as Arc<dyn DistributedPlanTelemetryObserver>),
        3,
    );
    deliver_finished(DistributedPlanTelemetryGuard::new(&mut state).dropped());

    let finished = observer.finished.lock().unwrap();
    assert_eq!(finished.len(), 1);
    assert_eq!(finished[0].outcome, PlanPublicationOutcome::Cancellation);
}

#[test]
fn finished_guard_reports_its_outcome_and_nothing_when_dropped() {
    let observer = Arc::new(RecordingObserver::default());
    let mut state = DistributedPlanTelemetryState::new(
        Some(observer.clone() as Arc<dyn DistributedPlanTelemetryObserver>),
        3,
    );
    deliver_finished(
        DistributedPlanTelemetryGuard::new(&mut state)
            .finish(PlanPublicationOutcome::PublicationTimeout),
    );
    deliver_finished(DistributedPlanTelemetryGuard::new(&mut state).dropped());

    let finished = observer.finished.lock().unwrap();
    assert_eq!(finished.len(), 1);
    assert_eq!(
        finished[0].outcome,
        PlanPublicationOutcome::PublicationTimeout
    );
}

struct PanickingObserver;

impl DistributedPlanTelemetryObserver for PanickingObserver {
    fn distributed_plan_finished(&self, _: &DistributedPlanTelemetry) {
        panic!("injected observer panic");
    }
}

#[test]
fn observer_panics_do_not_change_publication_behavior() {
    let observer: Arc<dyn DistributedPlanTelemetryObserver> = Arc::new(PanickingObserver);
    let mut state = DistributedPlanTelemetryState::new(Some(observer), 1);
    let due = state.finish(PlanPublicationOutcome::Success);

    let runtime = tokio::runtime::Builder::new_current_thread()
        .build()
        .unwrap();
    let delivery = runtime.block_on(runtime.spawn(async move { deliver_finished(due) }));
    assert!(delivery.unwrap_err().is_panic());
    assert!(state.finish(PlanPublicationOutcome::Other).is_none());
}

struct SilentObserver;

impl DistributedPlanTelemetryObserver for SilentObserver {}

#[test]
fn default_observer_ignores_every_measurement() {
    let mut state = DistributedPlanTelemetryState::new(Some(Arc::new(SilentObserver)), 1);
    let due = state
        .task_published(PublishedTaskPlanTelemetry {
            task_key: task_key(9),
            coordinator_transfer_duration: Duration::ZERO,
            worker_decode_publication_duration: Duration::ZERO,
            outcome: PlanPublicationOutcome::Other,
        })
        .unwrap();
    due.observer.task_plan_published(&due.telemetry);
    due.observer
        .worker_task_plan_published(&WorkerTaskPlanTelemetry {
            task_key: task_key(9),
            serialized_bytes: 1,
            decode_publication_duration: Duration::ZERO,
            outcome: PlanPublicationOutcome::Other,
        });
    assert_eq!(due.telemetry.task_key, task_key(9));
}

#[test]
fn nobody_is_told_without_an_observer() {
    let mut state = DistributedPlanTelemetryState::<Observer>::new(None, 5);
    let due = state.task_serialized(SerializedTaskPlanTelemetry {
        task_key: task_key(0),
        serialized_bytes: 1,
        serialization_duration: Duration::from_secs(1),
    });
    assert!(due.is_none());
    assert!(state.finish(PlanPublicationOutcome::Success).is_none());
}

#[test]
fn worker_pool_size_is_the_last_one_that_was_set() {
    let observer = Arc::new(RecordingObserver::default());
    let mut state = DistributedPlanTelemetryState::new(Some(observer), 0);
    state.set_worker_pool_size(11);
    state.set_worker_pool_size(4);
    let due = state.finish(PlanPublicationOutcome::Other).unwrap();
    assert_eq!(due.telemetry.worker_pool_size, 4);
    assert_eq!(due.telemetry.stage_count, 0);
    assert_eq!(due.telemetry.serialization_duration, Duration::ZERO);

    let observer = Arc::new(RecordingObserver::default());
    let mut state = DistributedPlanTelemetryState::new(Some(observer), 7);
    state.task_serialized(SerializedTaskPlanTelemetry {
        task_key: task_key(0),
        serialized_bytes: 1,
        serialization_duration: Duration::ZERO,
    });
    let due = state.finish(PlanPublicationOutcome::Other).unwrap();
    assert_eq!(due.telemetry.worker_pool_size, 7);
}

#[test]
fn sums_of_durations_wrap_like_their_counters() {
    let observer = Arc::new(RecordingObserver::default());
    let mut state = DistributedPlanTelemetryState::new(Some(observer), 0);
    for serialized_bytes in [3, 2] {
        state.task_serialized(SerializedTaskPlanTelemetry {
            task_key: task_key(0),
            serialized_bytes,
            serialization_duration: Duration::MAX,
        });
    }
    let due = state.finish(PlanPublicationOutcome::Success).unwrap();
    assert_eq!(due.telemetry.max_serialized_task_plan_bytes, 3);
    assert_eq!(due.telemetry.aggregate_fanout_bytes, 5);
    assert_eq!(
        due.telemetry.serialization_duration,
        Duration::from_nanos(u64::MAX - 1)
    );
}

fn config(shuffle_batch_size: usize) -> DistributedConfig<Observer> {
    DistributedConfig {
        shuffle_batch_size,
        collect_metrics: true,
        compression: "lz4".to_string(),
        plan_telemetry_observer: PlanTelemetryObserverExtension(None),
    }
}

#[test]
fn observer_is_installed_in_an_existing_configuration() {
    let observer: Arc<Observer> = Arc::new(PanickingObserver);
    let mut session = Some(config(64));
    set_distributed_plan_telemetry_observer(&mut session, config(0), observer.clone());
    let installed = session.unwrap();
    assert_eq!(installed.shuffle_batch_size, 64);
    assert!(Arc::ptr_eq(
        &installed.plan_telemetry_observer.0.unwrap(),
        &observer
    ));
}

#[test]
fn observer_is_installed_in_a_new_configuration() {
    let observer: Arc<Observer> = Arc::new(PanickingObserver);
    let mut session = None;
    set_distributed_plan_telemetry_observer(&mut session, config(8), observer.clone());
    let installed = session.unwrap();
    assert_eq!(installed.shuffle_batch_size, 8);
    assert_eq!(installed.compression, "lz4");
    assert!(Arc::ptr_eq(
        &installed.plan_telemetry_observer.0.unwrap(),
        &observer
    ));
}
