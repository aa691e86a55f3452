//! Observe-only measurements of distributed plan publication.

use crate::duration::duration_nanos;
use crate::task_key::TaskKey;
use std::sync::Arc;
use std::time::Duration;
use vstd::prelude::*;

verus! {

/// Terminal outcome of distributed plan publication.
#[derive(Clone, Copy, Debug, PartialEq, Eq, Structural)]
pub enum PlanPublicationOutcome {
    /// Every task plan was published successfully.
    Success,
    /// At least one task plan exceeded the publication timeout.
    PublicationTimeout,
    /// Publication ended because the query or publication task was cancelled.
    Cancellation,
    /// Publication ended for another reason.
    Other,
}

/// Per-task coordinator measurement emitted after serialization.
#[derive(Debug)]
pub struct SerializedTaskPlanTelemetry {
    /// Identity of the serialized task plan.
    pub task_key: TaskKey,
    /// Encoded protobuf size sent to one worker.
    pub serialized_bytes: usize,
    /// Wall-clock time spent specializing and serializing the task plan.
    pub serialization_duration: Duration,
}

/// Per-task coordinator measurement emitted after worker acknowledgement.
#[derive(Debug)]
pub struct PublishedTaskPlanTelemetry {
    /// Identity of the published task plan.
    pub task_key: TaskKey,
    /// Coordinator-side transport and acknowledgement latency with worker work removed.
    pub coordinator_transfer_duration: Duration,
    /// Worker-side session build, decode, hooks, and publication latency.
    pub worker_decode_publication_duration: Duration,
    /// Publication outcome for the task.
    pub outcome: PlanPublicationOutcome,
}

/// Per-task worker measurement emitted after publication finishes.
#[derive(Debug)]
pub struct WorkerTaskPlanTelemetry {
    /// Identity of the task plan.
    pub task_key: TaskKey,
    /// Encoded protobuf size received by the worker.
    pub serialized_bytes: usize,
    /// Worker-side session build, decode, hooks, and publication latency.
    pub decode_publication_duration: Duration,
    /// Publication outcome for the task.
    pub outcome: PlanPublicationOutcome,
}

/// Aggregate coordinator measurement emitted once per distributed query.
#[derive(Debug)]
pub struct DistributedPlanTelemetry {
    /// Number of distributed stages.
    pub stage_count: usize,
    /// Number of serialized task plans across all stages.
    pub task_count: usize,
    /// Number of workers available from the worker resolver at execution time.
    pub worker_pool_size: usize,
    /// Largest encoded task-plan protobuf.
    pub max_serialized_task_plan_bytes: usize,
    /// Sum of encoded task-plan bytes across every stage and recipient.
    pub aggregate_fanout_bytes: u64,
    /// Sum of per-task specialization and serialization durations.
    pub serialization_duration: Duration,
    /// Sum of per-task coordinator transfer durations.
    pub coordinator_transfer_duration: Duration,
    /// Sum of worker-reported decode and publication durations.
    pub worker_decode_publication_duration: Duration,
    /// Terminal publication outcome.
    pub outcome: PlanPublicationOutcome,
}

impl Clone for SerializedTaskPlanTelemetry {
    fn clone(&self) -> (r: SerializedTaskPlanTelemetry)
        ensures
            r.task_key@ == self.task_key@,
            r.serialized_bytes == self.serialized_bytes,
            r.serialization_duration == self.serialization_duration,
    {
        SerializedTaskPlanTelemetry {
            task_key: self.task_key.clone(),
            serialized_bytes: self.serialized_bytes,
            serialization_duration: self.serialization_duration,
        }
    }
}

impl Clone for PublishedTaskPlanTelemetry {
    fn clone(&self) -> (r: PublishedTaskPlanTelemetry)
        ensures
            r.task_key@ == self.task_key@,
            r.coordinator_transfer_duration == self.coordinator_transfer_duration,
            r.worker_decode_publication_duration == self.worker_decode_publication_duration,
            r.outcome == self.outcome,
    {
        PublishedTaskPlanTelemetry {
            task_key: self.task_key.clone(),
            coordinator_transfer_duration: self.coordinator_transfer_duration,
            worker_decode_publication_duration: self.worker_decode_publication_duration,
            outcome: self.outcome,
        }
    }
}

impl Clone for WorkerTaskPlanTelemetry {
    fn clone(&self) -> (r: WorkerTaskPlanTelemetry)
        ensures
            r.task_key@ == self.task_key@,
            r.serialized_bytes == self.serialized_bytes,
            r.decode_publication_duration == self.decode_publication_duration,
            r.outcome == self.outcome,
    {
        WorkerTaskPlanTelemetry {
            task_key: self.task_key.clone(),
            serialized_bytes: self.serialized_bytes,
            decode_publication_duration: self.decode_publication_duration,
            outcome: self.outcome,
        }
    }
}

impl Clone for DistributedPlanTelemetry {
    fn clone(&self) -> (r: DistributedPlanTelemetry)
        ensures
            r == *self,
    {
        DistributedPlanTelemetry {
            stage_count: self.stage_count,
            task_count: self.task_count,
            worker_pool_size: self.worker_pool_size,
            max_serialized_task_plan_bytes: self.max_serialized_task_plan_bytes,
            aggregate_fanout_bytes: self.aggregate_fanout_bytes,
            serialization_duration: self.serialization_duration,
            coordinator_transfer_duration: self.coordinator_transfer_duration,
            worker_decode_publication_duration: self.worker_decode_publication_duration,
            outcome: self.outcome,
        }
    }
}

/// Receives observe-only distributed plan measurements.
pub trait DistributedPlanTelemetryObserver: Send + Sync {
    /// Observes one serialized task plan on the coordinator.
    fn task_plan_serialized(&self, _telemetry: &SerializedTaskPlanTelemetry) {
    }

    /// Observes one acknowledged task plan on the coordinator.
    fn task_plan_published(&self, _telemetry: &PublishedTaskPlanTelemetry) {
    }

    /// Observes one worker-side plan publication attempt.
    fn worker_task_plan_published(&self, _telemetry: &WorkerTaskPlanTelemetry) {
    }

    /// Observes the terminal aggregate for one distributed query.
    fn distributed_plan_finished(&self, _telemetry: &DistributedPlanTelemetry) {
    }
}

/// A measurement that is due to an observer. The observer is called by whoever receives the
/// notification, after the measurement has been accounted for, so nothing that the observer does
/// can change what is measured.
pub struct Notification<O: ?Sized, T> {
    /// Whom to call.
    pub observer: Arc<O>,
    /// What to hand over.
    pub telemetry: T,
}

impl<O: ?Sized, T> Notification<O, T> {
    /// Addresses `telemetry` to the observer, where there is one.
    pub fn to(
        observer: &Option<Arc<O>>,
        telemetry: T,
    ) -> (r: Option<Notification<O, T>>)
        ensures
            r == notification(*observer, telemetry),
    {
        match observer {
            Some(observer) => Some(Notification { observer: observer.clone(), telemetry }),
            None => None,
        }
    }
}

/// The notification that is due when `telemetry` was measured.
pub open spec fn notification<O: ?Sized, T>(
    observer: Option<Arc<O>>,
    telemetry: T,
) -> Option<Notification<O, T>> {
    match observer {
        Some(observer) => Some(Notification { observer, telemetry }),
        None => None,
    }
}

/// The measurements of one distributed query.
pub struct TelemetryTotals {
    pub stage_count: usize,
    pub task_count: usize,
    pub worker_pool_size: usize,
    pub max_serialized_task_plan_bytes: usize,
    pub aggregate_fanout_bytes: u64,
    pub serialization_nanos: u64,
    pub coordinator_transfer_nanos: u64,
    pub worker_decode_publication_nanos: u64,
    pub reported: bool,
}

/// Something that is measured.
pub enum TelemetryEvent {
    StageStarted,
    WorkerPoolSize(usize),
    TaskSerialized { bytes: usize, nanos: u64 },
    TaskPublished { transfer_nanos: u64, worker_nanos: u64 },
    Finished,
}

/// `n` as a counter of the width of `usize` shows it.
pub open spec fn wrap_usize(n: int) -> usize {
    (n % (usize::MAX + 1)) as usize
}

/// `n` as a counter of 64 bits shows it.
pub open spec fn wrap_u64(n: int) -> u64 {
    (n % (u64::MAX + 1)) as u64
}

proof fn lemma_wrap_next(n: usize)
    ensures
        wrap_usize(n + 1) == if n == usize::MAX {
            0
        } else {
            n + 1
        },
{
    if n == usize::MAX {
        vstd::arithmetic::div_mod::lemma_mod_self_0(usize::MAX + 1);
    } else {
        vstd::arithmetic::div_mod::lemma_small_mod((n + 1) as nat, (usize::MAX + 1) as nat);
    }
}

/// The measurements before anything has happened.
pub open spec fn no_totals(worker_pool_size: usize) -> TelemetryTotals {
    TelemetryTotals {
        stage_count: 0,
        task_count: 0,
        worker_pool_size,
        max_serialized_task_plan_bytes: 0,
        aggregate_fanout_bytes: 0,
        serialization_nanos: 0,
        coordinator_transfer_nanos: 0,
        worker_decode_publication_nanos: 0,
        reported: false,
    }
}

impl TelemetryTotals {
    /// The measurements once `event` has been accounted for.
    pub open spec fn after(self, event: TelemetryEvent) -> TelemetryTotals {
        match event {
            TelemetryEvent::StageStarted => TelemetryTotals {
                stage_count: wrap_usize(self.stage_count + 1),
                ..self
            },
            TelemetryEvent::WorkerPoolSize(worker_pool_size) => TelemetryTotals {
                worker_pool_size,
                ..self
            },
            TelemetryEvent::TaskSerialized { bytes, nanos } => TelemetryTotals {
                task_count: wrap_usize(self.task_count + 1),
                max_serialized_task_plan_bytes: if bytes > self.max_serialized_task_plan_bytes {
                    bytes
                } else {
                    self.max_serialized_task_plan_bytes
                },
                aggregate_fanout_bytes: wrap_u64(self.aggregate_fanout_bytes + bytes),
                serialization_nanos: wrap_u64(self.serialization_nanos + nanos),
                ..self
            },
            TelemetryEvent::TaskPublished { transfer_nanos, worker_nanos } => TelemetryTotals {
                coordinator_transfer_nanos: wrap_u64(
                    self.coordinator_transfer_nanos + transfer_nanos,
                ),
                worker_decode_publication_nanos: wrap_u64(
                    self.worker_decode_publication_nanos + worker_nanos,
                ),
                ..self
            },
            TelemetryEvent::Finished => TelemetryTotals { reported: true, ..self },
        }
    }

    /// The measurements once all of `events` have been accounted for.
    pub open spec fn after_all(self, events: Seq<TelemetryEvent>) -> TelemetryTotals
        decreases events.len(),
    {
        if events.len() == 0 {
            self
        } else {
            self.after_all(events.drop_last()).after(events.last())
        }
    }

    /// Whether `telemetry` is the aggregate of these measurements.
    pub open spec fn aggregated_by(
        self,
        telemetry: DistributedPlanTelemetry,
        outcome: PlanPublicationOutcome,
    ) -> bool {
        &&& telemetry.stage_count == self.stage_count
        &&& telemetry.task_count == self.task_count
        &&& telemetry.worker_pool_size == self.worker_pool_size
        &&& telemetry.max_serialized_task_plan_bytes == self.max_serialized_task_plan_bytes
        &&& telemetry.aggregate_fanout_bytes == self.aggregate_fanout_bytes
        &&& crate::duration::total_nanos(telemetry.serialization_duration)
            == self.serialization_nanos
        &&& crate::duration::total_nanos(telemetry.coordinator_transfer_duration)
            == self.coordinator_transfer_nanos
        &&& crate::duration::total_nanos(telemetry.worker_decode_publication_duration)
            == self.worker_decode_publication_nanos
        &&& telemetry.outcome == outcome
    }
}

/// Accumulates the measurements of one distributed query.
pub struct DistributedPlanTelemetryState<O: DistributedPlanTelemetryObserver + ?Sized> {
    observer: Option<Arc<O>>,
    worker_pool_size: usize,
    stage_count: usize,
    task_count: usize,
    max_serialized_task_plan_bytes: usize,
    aggregate_fanout_bytes: u64,
    serialization_nanos: u64,
    coordinator_transfer_nanos: u64,
    worker_decode_publication_nanos: u64,
    reported: bool,
}

impl<O: DistributedPlanTelemetryObserver + ?Sized> View for DistributedPlanTelemetryState<O> {
    type V = TelemetryTotals;

    closed spec fn view(&self) -> TelemetryTotals {
        TelemetryTotals {
            stage_count: self.stage_count,
            task_count: self.task_count,
            worker_pool_size: self.worker_pool_size,
            max_serialized_task_plan_bytes: self.max_serialized_task_plan_bytes,
            aggregate_fanout_bytes: self.aggregate_fanout_bytes,
            serialization_nanos: self.serialization_nanos,
            coordinator_transfer_nanos: self.coordinator_transfer_nanos,
            worker_decode_publication_nanos: self.worker_decode_publication_nanos,
            reported: self.reported,
        }
    }
}

impl<O: DistributedPlanTelemetryObserver + ?Sized> DistributedPlanTelemetryState<O> {
    /// Who is told about the measurements.
    pub closed spec fn observer(&self) -> Option<Arc<O>> {
        self.observer
    }

    /// Starts with nothing measured.
    pub fn new(
        observer: Option<Arc<O>>,
        worker_pool_size: usize,
    ) -> (state: Self)
        ensures
            state@ == no_totals(worker_pool_size),
            state.observer() == observer,
    {
        DistributedPlanTelemetryState {
            observer,
            worker_pool_size,
            stage_count: 0,
            task_count: 0,
            max_serialized_task_plan_bytes: 0,
            aggregate_fanout_bytes: 0,
            serialization_nanos: 0,
            coordinator_transfer_nanos: 0,
            worker_decode_publication_nanos: 0,
            reported: false,
        }
    }

    /// Counts one more stage.
    pub fn stage_started(&mut self)
        ensures
            final(self)@ == old(self)@.after(TelemetryEvent::StageStarted),
            final(self).observer() == old(self).observer(),
    {
        self.stage_count = self.stage_count.wrapping_add(1);
        proof {
            lemma_wrap_next(old(self).stage_count);
        }
    }

    /// Sets the number of workers that are available.
    pub fn set_worker_pool_size(&mut self, worker_pool_size: usize)
        ensures
            final(self)@ == old(self)@.after(TelemetryEvent::WorkerPoolSize(worker_pool_size)),
            final(self).observer() == old(self).observer(),
    {
        self.worker_pool_size = worker_pool_size;
    }

    /// Accounts for one serialized task plan.
    pub fn task_serialized(&mut self, telemetry: SerializedTaskPlanTelemetry) -> (due: Option<
        Notification<O, SerializedTaskPlanTelemetry>,
    >)
        ensures
            final(self)@ == old(self)@.after(
                (TelemetryEvent::TaskSerialized {
                    bytes: telemetry.serialized_bytes,
                    nanos: crate::duration::capped_nanos(telemetry.serialization_duration),
                }),
            ),
            final(self).observer() == old(self).observer(),
            due == notification(old(self).observer(), telemetry),
    {
        self.task_count = self.task_count.wrapping_add(1);
        if telemetry.serialized_bytes > self.max_serialized_task_plan_bytes {
            self.max_serialized_task_plan_bytes = telemetry.serialized_bytes;
        }
        self.aggregate_fanout_bytes = self.aggregate_fanout_bytes.wrapping_add(
            telemetry.serialized_bytes as u64,
        );
        self.serialization_nanos = self.serialization_nanos.wrapping_add(
            duration_nanos(telemetry.serialization_duration),
        );
        proof {
            lemma_wrap_next(old(self).task_count);
        }
        Notification::to(&self.observer, telemetry)
    }

    /// Accounts for one acknowledged task plan.
    pub fn task_published(&mut self, telemetry: PublishedTaskPlanTelemetry) -> (due: Option<
        Notification<O, PublishedTaskPlanTelemetry>,
    >)
        ensures
            final(self)@ == old(self)@.after(
                (TelemetryEvent::TaskPublished {
                    transfer_nanos: crate::duration::capped_nanos(
                        telemetry.coordinator_transfer_duration,
                    ),
                    worker_nanos: crate::duration::capped_nanos(
                        telemetry.worker_decode_publication_duration,
                    ),
                }),
            ),
            final(self).observer() == old(self).observer(),
            due == notification(old(self).observer(), telemetry),
    {
        self.coordinator_transfer_nanos = self.coordinator_transfer_nanos.wrapping_add(
            duration_nanos(telemetry.coordinator_transfer_duration),
        );
        self.worker_decode_publication_nanos = self.worker_decode_publication_nanos.wrapping_add(
            duration_nanos(telemetry.worker_decode_publication_duration),
        );
        Notification::to(&self.observer, telemetry)
    }

    /// Reports the aggregate of the query, the first time that it is called.
    pub fn finish(&mut self, outcome: PlanPublicationOutcome) -> (due: Option<
        Notification<O, DistributedPlanTelemetry>,
    >)
        ensures
            final(self)@ == old(self)@.after(TelemetryEvent::Finished),
            final(self).observer() == old(self).observer(),
            due is Some <==> !old(self)@.reported && old(self).observer() is Some,
            due matches Some(due) ==> Some(due.observer) == old(self).observer()
                && old(self)@.aggregated_by(due.telemetry, outcome),
    {
        if self.reported {
            return None;
        }
        self.reported = true;
        let telemetry = DistributedPlanTelemetry {
            stage_count: self.stage_count,
            task_count: self.task_count,
            worker_pool_size: self.worker_pool_size,
            max_serialized_task_plan_bytes: self.max_serialized_task_plan_bytes,
            aggregate_fanout_bytes: self.aggregate_fanout_bytes,
            serialization_duration: Duration::from_nanos(self.serialization_nanos),
            coordinator_transfer_duration: Duration::from_nanos(self.coordinator_transfer_nanos),
            worker_decode_publication_duration: Duration::from_nanos(
                self.worker_decode_publication_nanos,
            ),
            outcome,
        };
        Notification::to(&self.observer, telemetry)
    }
}

/// Ends the measurement of a query exactly once: with the outcome that it is told, or with
/// [`PlanPublicationOutcome::Cancellation`] when it is dropped without one.
pub struct DistributedPlanTelemetryGuard<'a, O: DistributedPlanTelemetryObserver + ?Sized> {
    /// The measurements that the guard ends.
    pub state: &'a mut DistributedPlanTelemetryState<O>,
}

impl<'a, O: DistributedPlanTelemetryObserver + ?Sized> DistributedPlanTelemetryGuard<'a, O> {
    /// Guards the measurements in `state`.
    pub fn new(state: &'a mut DistributedPlanTelemetryState<O>) -> (guard: Self)
        ensures
            *guard.state == *old(state),
            *final(guard.state) == *final(state),
    {
        DistributedPlanTelemetryGuard { state }
    }

    /// Ends the measurement with `outcome`.
    pub fn finish(self, outcome: PlanPublicationOutcome) -> (due: Option<
        Notification<O, DistributedPlanTelemetry>,
    >)
        ensures
            final(self.state)@ == old(self.state)@.after(TelemetryEvent::Finished),
            final(self.state).observer() == old(self.state).observer(),
            due is Some <==> !old(self.state)@.reported && old(self.state).observer() is Some,
            due matches Some(due) ==> Some(due.observer) == old(self.state).observer()
                && old(self.state)@.aggregated_by(due.telemetry, outcome),
    {
        self.state.finish(outcome)
    }

    /// Ends the measurement of a query whose outcome was never told.
    pub fn dropped(self) -> (due: Option<Notification<O, DistributedPlanTelemetry>>)
        ensures
            final(self.state)@ == old(self.state)@.after(TelemetryEvent::Finished),
            final(self.state).observer() == old(self.state).observer(),
            due is Some <==> !old(self.state)@.reported && old(self.state).observer() is Some,
            due matches Some(due) ==> Some(due.observer) == old(self.state).observer()
                && old(self.state)@.aggregated_by(
                due.telemetry,
                PlanPublicationOutcome::Cancellation,
            ),
    {
        self.state.finish(PlanPublicationOutcome::Cancellation)
    }
}

/// The observer that a distributed session carries in its configuration.
pub struct PlanTelemetryObserverExtension<O: DistributedPlanTelemetryObserver + ?Sized>(
    pub Option<Arc<O>>,
);

/// What the publication and the execution of task plans read from a session configuration.
pub struct DistributedConfig<O: DistributedPlanTelemetryObserver + ?Sized> {
    /// Batch size of a worker session; zero leaves the default of the session in place.
    pub shuffle_batch_size: usize,
    /// Whether workers send their metrics back.
    pub collect_metrics: bool,
    /// Name of the compression of record batches on the wire.
    pub compression: String,
    /// Who is told about plan publication.
    pub plan_telemetry_observer: PlanTelemetryObserverExtension<O>,
}

/// Installs a coordinator-side observer in the distributed part of a session configuration. A
/// session that has no distributed part yet gets `defaults` with the observer in it.
pub fn set_distributed_plan_telemetry_observer<O: DistributedPlanTelemetryObserver + ?Sized>(
    config: &mut Option<DistributedConfig<O>>,
    defaults: DistributedConfig<O>,
    observer: Arc<O>,
)
    ensures
        *final(config) == Some(
            DistributedConfig {
                plan_telemetry_observer: PlanTelemetryObserverExtension(Some(observer)),
                ..(match *old(config) {
                    Some(config) => config,
                    None => defaults,
                })
            },
        ),
{
    match config {
        Some(distributed) => {
            distributed.plan_telemetry_observer = PlanTelemetryObserverExtension(Some(observer));
        },
        None => {
            *config = Some(
                DistributedConfig {
                    plan_telemetry_observer: PlanTelemetryObserverExtension(Some(observer)),
                    ..defaults
                },
            );
        },
    }
}

/// The sum of `f` over `events`.
pub open spec fn total(events: Seq<TelemetryEvent>, f: spec_fn(TelemetryEvent) -> nat) -> nat
    decreases events.len(),
{
    if events.len() == 0 {
        0
    } else {
        total(events.drop_last(), f) + f(events.last())
    }
}

/// The largest number of bytes among the task plans that `events` serialize.
pub open spec fn largest_plan(events: Seq<TelemetryEvent>) -> usize
    decreases events.len(),
{
    if events.len() == 0 {
        0
    } else {
        let before = largest_plan(events.drop_last());
        match events.last() {
            TelemetryEvent::TaskSerialized { bytes, .. } => if bytes > before {
                bytes
            } else {
                before
            },
            _ => before,
        }
    }
}

/// The number of workers that was set last by `events`, or `initial` where none was.
pub open spec fn last_pool_size(initial: usize, events: Seq<TelemetryEvent>) -> usize
    decreases events.len(),
{
    if events.len() == 0 {
        initial
    } else {
        match events.last() {
            TelemetryEvent::WorkerPoolSize(size) => size,
            _ => last_pool_size(initial, events.drop_last()),
        }
    }
}

/// One for each stage.
pub open spec fn stage_weight() -> spec_fn(TelemetryEvent) -> nat {
    |event: TelemetryEvent|
        if event is StageStarted {
            1
        } else {
            0
        }
}

/// One for each serialized task plan.
pub open spec fn task_weight() -> spec_fn(TelemetryEvent) -> nat {
    |event: TelemetryEvent|
        if event is TaskSerialized {
            1
        } else {
            0
        }
}

/// The bytes of each serialized task plan.
pub open spec fn byte_weight() -> spec_fn(TelemetryEvent) -> nat {
    |event: TelemetryEvent|
        match event {
            TelemetryEvent::TaskSerialized { bytes, .. } => bytes as nat,
            _ => 0,
        }
}

/// The nanoseconds that each serialization took.
pub open spec fn serialization_weight() -> spec_fn(TelemetryEvent) -> nat {
    |event: TelemetryEvent|
        match event {
            TelemetryEvent::TaskSerialized { nanos, .. } => nanos as nat,
            _ => 0,
        }
}

/// The nanoseconds that each transfer took.
pub open spec fn transfer_weight() -> spec_fn(TelemetryEvent) -> nat {
    |event: TelemetryEvent|
        match event {
            TelemetryEvent::TaskPublished { transfer_nanos, .. } => transfer_nanos as nat,
            _ => 0,
        }
}

/// The nanoseconds that each publication took on its worker.
pub open spec fn worker_weight() -> spec_fn(TelemetryEvent) -> nat {
    |event: TelemetryEvent|
        match event {
            TelemetryEvent::TaskPublished { worker_nanos, .. } => worker_nanos as nat,
            _ => 0,
        }
}

proof fn lemma_wrap_usize_add(a: nat, b: nat)
    ensures
        wrap_usize(wrap_usize(a as int) + b) == wrap_usize((a + b) as int),
{
    let m = usize::MAX + 1;
    vstd::arithmetic::div_mod::lemma_add_mod_noop(a as int, b as int, m);
    vstd::arithmetic::div_mod::lemma_add_mod_noop(a as int % m, b as int, m);
    vstd::arithmetic::div_mod::lemma_mod_twice(a as int, m);
    vstd::arithmetic::div_mod::lemma_mod_bound(a as int, m);
}

proof fn lemma_wrap_u64_add(a: nat, b: nat)
    ensures
        wrap_u64(wrap_u64(a as int) + b) == wrap_u64((a + b) as int),
{
}

/// Whatever was measured, and in whatever order, the totals are the sums over all measurements,
/// as counters of their width show them, the largest plan is the largest of all, and the number of
/// workers is the one that was set last.
pub proof fn totals_are_sums(worker_pool_size: usize, events: Seq<TelemetryEvent>)
    ensures
        ({
            let totals = no_totals(worker_pool_size).after_all(events);
            &&& totals.stage_count == wrap_usize(total(events, stage_weight()) as int)
            &&& totals.task_count == wrap_usize(total(events, task_weight()) as int)
            &&& totals.worker_pool_size == last_pool_size(worker_pool_size, events)
            &&& totals.max_serialized_task_plan_bytes == largest_plan(events)
            &&& totals.aggregate_fanout_bytes == wrap_u64(total(events, byte_weight()) as int)
            &&& totals.serialization_nanos == wrap_u64(
                total(events, serialization_weight()) as int,
            )
            &&& totals.coordinator_transfer_nanos == wrap_u64(
                total(events, transfer_weight()) as int,
            )
            &&& totals.worker_decode_publication_nanos == wrap_u64(
                total(events, worker_weight()) as int,
            )
        }),
    decreases events.len(),
{
    if events.len() == 0 {
        vstd::arithmetic::div_mod::lemma_small_mod(0, (usize::MAX + 1) as nat);
    } else {
        let before = events.drop_last();
        let event = events.last();
        totals_are_sums(worker_pool_size, before);
        lemma_wrap_usize_add(total(before, stage_weight()), stage_weight()(event));
        lemma_wrap_usize_add(total(before, task_weight()), task_weight()(event));
        lemma_wrap_u64_add(total(before, byte_weight()), byte_weight()(event));
        lemma_wrap_u64_add(total(before, serialization_weight()), serialization_weight()(event));
        lemma_wrap_u64_add(total(before, transfer_weight()), transfer_weight()(event));
        lemma_wrap_u64_add(total(before, worker_weight()), worker_weight()(event));
    }
}

/// Whether the measurement at position `i` of `events` is the one that reports the aggregate.
pub open spec fn reports_at(
    start: TelemetryTotals,
    events: Seq<TelemetryEvent>,
    i: int,
) -> bool {
    &&& 0 <= i < events.len()
    &&& events[i] is Finished
    &&& !start.after_all(events.take(i)).reported
}

proof fn lemma_reported_iff_finished(start: TelemetryTotals, events: Seq<TelemetryEvent>)
    ensures
        start.after_all(events).reported <==> start.reported || exists|i: int|
            0 <= i < events.len() && #[trigger] events[i] is Finished,
    decreases events.len(),
{
    if events.len() > 0 {
        let before = events.drop_last();
        lemma_reported_iff_finished(start, before);
        if start.after_all(before).reported && !start.reported {
            let i = choose|i: int| 0 <= i < before.len() && #[trigger] before[i] is Finished;
            assert(events[i] is Finished);
        }
        if events.last() is Finished {
            assert(events[events.len() - 1] is Finished);
        }
        if exists|i: int| 0 <= i < events.len() && #[trigger] events[i] is Finished {
            let i = choose|i: int| 0 <= i < events.len() && #[trigger] events[i] is Finished;
            if i < before.len() {
                assert(before[i] is Finished);
            }
        }
    }
}

/// The aggregate of a query is reported at most once, however often and by whomever the query
/// is finished.
pub proof fn reported_at_most_once(
    start: TelemetryTotals,
    events: Seq<TelemetryEvent>,
    i: int,
    j: int,
)
    requires
        reports_at(start, events, i),
        reports_at(start, events, j),
    ensures
        i == j,
{
    lemma_reported_iff_finished(start, events.take(i));
    lemma_reported_iff_finished(start, events.take(j));
    if i < j {
        assert(events.take(j)[i] is Finished);
    }
    if j < i {
        assert(events.take(i)[j] is Finished);
    }
}

/// The aggregate of a query that was not reported yet is reported as soon as it is finished.
pub proof fn first_finish_reports(start: TelemetryTotals, events: Seq<TelemetryEvent>, i: int)
    requires
        !start.reported,
        0 <= i < events.len(),
        events[i] is Finished,
        forall|k: int| 0 <= k < i ==> !(#[trigger] events[k] is Finished),
    ensures
        reports_at(start, events, i),
{
    lemma_reported_iff_finished(start, events.take(i));
    if start.after_all(events.take(i)).reported {
        let k = choose|k: int|
            0 <= k < events.take(i).len() && #[trigger] events.take(i)[k] is Finished;
        assert(events[k] is Finished);
    }
}

/// Something that is measured of a query: one for each of the calls that account for it.
pub enum Measurement {
    /// One more stage.
    Stage,
    /// The number of workers that are available.
    PoolSize(usize),
    /// One serialized task plan.
    Serialized(SerializedTaskPlanTelemetry),
    /// One acknowledged task plan.
    Published(PublishedTaskPlanTelemetry),
}

/// The sum of `f` over `measured`.
pub open spec fn sum_of(measured: Seq<Measurement>, f: spec_fn(Measurement) -> int) -> int
    decreases measured.len(),
{
    if measured.len() == 0 {
        0
    } else {
        sum_of(measured.drop_last(), f) + f(measured.last())
    }
}

/// The nanoseconds of a duration, as a counter of 64 bits takes them.
pub open spec fn counted_nanos(duration: Duration) -> int {
    if crate::duration::total_nanos(duration) <= u64::MAX {
        crate::duration::total_nanos(duration) as int
    } else {
        u64::MAX as int
    }
}

/// Whether the last number of workers that was measured, at position `i`, is `size`.
pub open spec fn pool_last_set(measured: Seq<Measurement>, i: int, size: usize) -> bool {
    &&& 0 <= i < measured.len()
    &&& measured[i] == Measurement::PoolSize(size)
    &&& forall|k: int| i < k < measured.len() ==> !(#[trigger] measured[k] is PoolSize)
}

spec fn event_of(measurement: Measurement) -> TelemetryEvent {
    match measurement {
        Measurement::Stage => TelemetryEvent::StageStarted,
        Measurement::PoolSize(size) => TelemetryEvent::WorkerPoolSize(size),
        Measurement::Serialized(telemetry) => TelemetryEvent::TaskSerialized {
            bytes: telemetry.serialized_bytes,
            nanos: crate::duration::capped_nanos(telemetry.serialization_duration),
        },
        Measurement::Published(telemetry) => TelemetryEvent::TaskPublished {
            transfer_nanos: crate::duration::capped_nanos(telemetry.coordinator_transfer_duration),
            worker_nanos: crate::duration::capped_nanos(
                telemetry.worker_decode_publication_duration,
            ),
        },
    }
}

spec fn events_of(measured: Seq<Measurement>) -> Seq<TelemetryEvent> {
    measured.map_values(|measurement: Measurement| event_of(measurement))
}

proof fn lemma_same_sum(
    measured: Seq<Measurement>,
    weight: spec_fn(TelemetryEvent) -> nat,
    f: spec_fn(Measurement) -> int,
)
    requires
        forall|m: Measurement| weight(event_of(m)) == #[trigger] f(m),
    ensures
        total(events_of(measured), weight) == sum_of(measured, f),
    decreases measured.len(),
{
    if measured.len() > 0 {
        let events = events_of(measured);
        lemma_same_sum(measured.drop_last(), weight, f);
        assert(events.drop_last() =~= events_of(measured.drop_last()));
        assert(events.last() == event_of(measured.last()));
        assert(f(measured.last()) == weight(event_of(measured.last())));
    }
}

proof fn lemma_largest(measured: Seq<Measurement>)
    ensures
        ({
            let largest = largest_plan(events_of(measured));
            &&& forall|i: int|
                0 <= i < measured.len() ==> (#[trigger] measured[i] matches Measurement::Serialized(
                    telemetry,
                ) ==> telemetry.serialized_bytes <= largest)
            &&& largest > 0 ==> exists|i: int|
                0 <= i < measured.len() && (
                #[trigger] measured[i] matches Measurement::Serialized(telemetry)
                    && telemetry.serialized_bytes == largest)
        }),
    decreases measured.len(),
{
    if measured.len() > 0 {
        let before = measured.drop_last();
        let events = events_of(measured);
        lemma_largest(before);
        assert(events.drop_last() =~= events_of(before));
        assert(events.last() == event_of(measured.last()));
        let largest = largest_plan(events);
        assert forall|i: int| 0 <= i < measured.len() implies (
        #[trigger] measured[i] matches Measurement::Serialized(telemetry)
            ==> telemetry.serialized_bytes <= largest) by {
            if i < before.len() {
                assert(before[i] == measured[i]);
            }
        }
        if largest > 0 {
            if largest == largest_plan(events_of(before)) {
                let i = choose|i: int|
                    0 <= i < before.len() && (
                    #[trigger] before[i] matches Measurement::Serialized(telemetry)
                        && telemetry.serialized_bytes == largest);
                assert(measured[i] == before[i]);
            } else {
                assert(measured[measured.len() - 1] == measured.last());
            }
        }
    }
}

proof fn lemma_pool_size(initial: usize, measured: Seq<Measurement>)
    ensures
        (forall|i: int| 0 <= i < measured.len() ==> !(#[trigger] measured[i] is PoolSize))
            ==> last_pool_size(initial, events_of(measured)) == initial,
        forall|i: int, size: usize| #[trigger]
            pool_last_set(measured, i, size) ==> last_pool_size(initial, events_of(measured))
                == size,
    decreases measured.len(),
{
    if measured.len() > 0 {
        let before = measured.drop_last();
        let last = measured.len() - 1;
        let events = events_of(measured);
        lemma_pool_size(initial, before);
        assert(events.drop_last() =~= events_of(before));
        assert(events.last() == event_of(measured.last()));
        assert(measured[last] == measured.last());
        if forall|i: int| 0 <= i < measured.len() ==> !(#[trigger] measured[i] is PoolSize) {
            assert forall|i: int| 0 <= i < before.len() implies !(#[trigger] before[i]
                is PoolSize) by {
                assert(before[i] == measured[i]);
            }
        }
        assert forall|i: int, size: usize| #[trigger]
            pool_last_set(measured, i, size) implies last_pool_size(initial, events) == size by {
            if i < last {
                assert(!(measured[last] is PoolSize));
                assert forall|k: int| i < k < before.len() implies !(#[trigger] before[k]
                    is PoolSize) by {
                    assert(before[k] == measured[k]);
                }
                assert(pool_last_set(before, i, size));
            }
        }
    }
}

proof fn lemma_measured<O: DistributedPlanTelemetryObserver + ?Sized>(
    observer: Option<Arc<O>>,
    worker_pool_size: usize,
    begun: DistributedPlanTelemetryState<O>,
    calls: Seq<&mut DistributedPlanTelemetryState<O>>,
    measured: Seq<Measurement>,
    serialized: Seq<Option<Notification<O, SerializedTaskPlanTelemetry>>>,
    published: Seq<Option<Notification<O, PublishedTaskPlanTelemetry>>>,
    i: int,
)
    requires
        call_ensures(
            DistributedPlanTelemetryState::<O>::new,
            (observer, worker_pool_size),
            begun,
        ),
        calls.len() == measured.len() + 1,
        *calls[0] == begun,
        forall|k: int|
            #![trigger calls[k]]
            0 <= k < measured.len() ==> match measured[k] {
                Measurement::Stage => call_ensures(
                    DistributedPlanTelemetryState::<O>::stage_started,
                    (calls[k],),
                    (),
                ),
                Measurement::PoolSize(size) => call_ensures(
                    DistributedPlanTelemetryState::<O>::set_worker_pool_size,
                    (calls[k], size),
                    (),
                ),
                Measurement::Serialized(telemetry) => call_ensures(
                    DistributedPlanTelemetryState::<O>::task_serialized,
                    (calls[k], telemetry),
                    serialized[k],
                ),
                Measurement::Published(telemetry) => call_ensures(
                    DistributedPlanTelemetryState::<O>::task_published,
                    (calls[k], telemetry),
                    published[k],
                ),
            },
        forall|k: int| 0 < k < calls.len() ==> *(#[trigger] calls[k]) == *final(calls[k - 1]),
        0 <= i <= measured.len(),
    ensures
        calls[i]@ == no_totals(worker_pool_size).after_all(events_of(measured.take(i))),
        calls[i].observer() == observer,
    decreases i,
{
    let now = events_of(measured.take(i));
    if i > 0 {
        lemma_measured(
            observer,
            worker_pool_size,
            begun,
            calls,
            measured,
            serialized,
            published,
            i - 1,
        );
        let call = calls[i - 1];
        assert(*calls[i] == *final(calls[i - 1]));
        assert(now.drop_last() =~= events_of(measured.take(i - 1)));
        assert(now.last() == event_of(measured[i - 1]));
        assert(final(call)@ == call@.after(now.last()));
    } else {
        assert(now =~= Seq::empty());
    }
}

/// What is told of a query when it is finished, over everything that was measured of it, call by
/// call: how many stages and task plans there were, the size of the largest plan and of all plans
/// together, how long they took to serialize, to transfer and to publish in all, each as its
/// counter shows it, the last number of workers, and the outcome. It is told once, and only where
/// there is an observer.
#[verifier::rlimit(60)]
pub proof fn queries_are_reported_in_full<O: DistributedPlanTelemetryObserver + ?Sized>(
    observer: Option<Arc<O>>,
    worker_pool_size: usize,
    begun: DistributedPlanTelemetryState<O>,
    calls: Seq<&mut DistributedPlanTelemetryState<O>>,
    measured: Seq<Measurement>,
    serialized: Seq<Option<Notification<O, SerializedTaskPlanTelemetry>>>,
    published: Seq<Option<Notification<O, PublishedTaskPlanTelemetry>>>,
    outcome: PlanPublicationOutcome,
    due: Option<Notification<O, DistributedPlanTelemetry>>,
    again: &mut DistributedPlanTelemetryState<O>,
    other_outcome: PlanPublicationOutcome,
    due_again: Option<Notification<O, DistributedPlanTelemetry>>,
)
    requires
        call_ensures(
            DistributedPlanTelemetryState::<O>::new,
            (observer, worker_pool_size),
            begun,
        ),
        calls.len() == measured.len() + 1,
        *calls[0] == begun,
        forall|k: int|
            #![trigger calls[k]]
            0 <= k < measured.len() ==> match measured[k] {
                Measurement::Stage => call_ensures(
                    DistributedPlanTelemetryState::<O>::stage_started,
                    (calls[k],),
                    (),
                ),
                Measurement::PoolSize(size) => call_ensures(
                    DistributedPlanTelemetryState::<O>::set_worker_pool_size,
                    (calls[k], size),
                    (),
                ),
                Measurement::Serialized(telemetry) => call_ensures(
                    DistributedPlanTelemetryState::<O>::task_serialized,
                    (calls[k], telemetry),
                    serialized[k],
                ),
                Measurement::Published(telemetry) => call_ensures(
                    DistributedPlanTelemetryState::<O>::task_published,
                    (calls[k], telemetry),
                    published[k],
                ),
            },
        forall|k: int| 0 < k < calls.len() ==> *(#[trigger] calls[k]) == *final(calls[k - 1]),
        call_ensures(
            DistributedPlanTelemetryState::<O>::finish,
            (calls[measured.len() as int], outcome),
            due,
        ),
        *again == *final(calls[measured.len() as int]),
        call_ensures(
            DistributedPlanTelemetryState::<O>::finish,
            (again, other_outcome),
            due_again,
        ),
    ensures
        due is Some <==> observer is Some,
        due_again is None,
        due matches Some(due) ==> ({
            let told = due.telemetry;
            &&& Some(due.observer) == observer
            &&& told.outcome == outcome
            &&& told.stage_count == sum_of(
                measured,
                |m: Measurement|
                    if m is Stage {
                        1int
                    } else {
                        0
                    },
            ) % (usize::MAX + 1)
            &&& told.task_count == sum_of(
                measured,
                |m: Measurement|
                    if m is Serialized {
                        1int
                    } else {
                        0
                    },
            ) % (usize::MAX + 1)
            &&& told.aggregate_fanout_bytes == sum_of(
                measured,
                |m: Measurement|
                    match m {
                        Measurement::Serialized(telemetry) => telemetry.serialized_bytes as int,
                        _ => 0,
                    },
            ) % (u64::MAX + 1)
            &&& crate::duration::total_nanos(told.serialization_duration) == sum_of(
                measured,
                |m: Measurement|
                    match m {
                        Measurement::Serialized(telemetry) => counted_nanos(
                            telemetry.serialization_duration,
                        ),
                        _ => 0,
                    },
            ) % (u64::MAX + 1)
            &&& crate::duration::total_nanos(told.coordinator_transfer_duration) == sum_of(
                measured,
                |m: Measurement|
                    match m {
                        Measurement::Published(telemetry) => counted_nanos(
                            telemetry.coordinator_transfer_duration,
                        ),
                        _ => 0,
                    },
            ) % (u64::MAX + 1)
            &&& crate::duration::total_nanos(told.worker_decode_publication_duration) == sum_of(
                measured,
                |m: Measurement|
                    match m {
                        Measurement::Published(telemetry) => counted_nanos(
                            telemetry.worker_decode_publication_duration,
                        ),
                        _ => 0,
                    },
            ) % (u64::MAX + 1)
            &&& forall|i: int|
                0 <= i < measured.len() ==> (#[trigger] measured[i] matches Measurement::Serialized(
                    telemetry,
                ) ==> telemetry.serialized_bytes <= told.max_serialized_task_plan_bytes)
            &&& told.max_serialized_task_plan_bytes > 0 ==> exists|i: int|
                0 <= i < measured.len() && (
                #[trigger] measured[i] matches Measurement::Serialized(telemetry)
                    && telemetry.serialized_bytes == told.max_serialized_task_plan_bytes)
            &&& (forall|i: int| 0 <= i < measured.len() ==> !(#[trigger] measured[i] is PoolSize))
                ==> told.worker_pool_size == worker_pool_size
            &&& forall|i: int, size: usize| #[trigger]
                pool_last_set(measured, i, size) ==> told.worker_pool_size == size
        }),
{
    let n = measured.len() as int;
    let events = events_of(measured);
    lemma_measured(
        observer,
        worker_pool_size,
        begun,
        calls,
        measured,
        serialized,
        published,
        n,
    );
    assert(measured.take(n) =~= measured);
    totals_are_sums(worker_pool_size, events);
    lemma_reported_iff_finished(no_totals(worker_pool_size), events);
    assert forall|i: int| 0 <= i < events.len() implies !(#[trigger] events[i] is Finished) by {
        assert(events[i] == event_of(measured[i]));
    }
    lemma_largest(measured);
    lemma_pool_size(worker_pool_size, measured);
    lemma_same_sum(
        measured,
        stage_weight(),
        |m: Measurement|
            if m is Stage {
                1int
            } else {
                0
            },
    );
    lemma_same_sum(
        measured,
        task_weight(),
        |m: Measurement|
            if m is Serialized {
                1int
            } else {
                0
            },
    );
    lemma_same_sum(
        measured,
        byte_weight(),
        |m: Measurement|
            match m {
                Measurement::Serialized(telemetry) => telemetry.serialized_bytes as int,
                _ => 0,
            },
    );
    lemma_same_sum(
        measured,
        serialization_weight(),
        |m: Measurement|
            match m {
                Measurement::Serialized(telemetry) => counted_nanos(
                    telemetry.serialization_duration,
                ),
                _ => 0,
            },
    );
    lemma_same_sum(
        measured,
        transfer_weight(),
        |m: Measurement|
            match m {
                Measurement::Published(telemetry) => counted_nanos(
                    telemetry.coordinator_transfer_duration,
                ),
                _ => 0,
            },
    );
    lemma_same_sum(
        measured,
        worker_weight(),
        |m: Measurement|
            match m {
                Measurement::Published(telemetry) => counted_nanos(
                    telemetry.worker_decode_publication_duration,
                ),
                _ => 0,
            },
    );
    vstd::arithmetic::div_mod::lemma_mod_bound(
        total(events, stage_weight()) as int,
        usize::MAX + 1,
    );
    vstd::arithmetic::div_mod::lemma_mod_bound(
        total(events, task_weight()) as int,
        usize::MAX + 1,
    );
}

/// Each measurement of a task plan is handed to the observer as it is, where there is one.
pub proof fn task_plans_are_observed<O: DistributedPlanTelemetryObserver + ?Sized>(
    state: &mut DistributedPlanTelemetryState<O>,
    serialized: SerializedTaskPlanTelemetry,
    due: Option<Notification<O, SerializedTaskPlanTelemetry>>,
    next: &mut DistributedPlanTelemetryState<O>,
    published: PublishedTaskPlanTelemetry,
    next_due: Option<Notification<O, PublishedTaskPlanTelemetry>>,
)
    requires
        call_ensures(
            DistributedPlanTelemetryState::<O>::task_serialized,
            (state, serialized),
            due,
        ),
        *next == *final(state),
        call_ensures(
            DistributedPlanTelemetryState::<O>::task_published,
            (next, published),
            next_due,
        ),
    ensures
        due is Some <==> old(state).observer() is Some,
        due matches Some(n) ==> Some(n.observer) == old(state).observer() && n.telemetry
            == serialized,
        next_due is Some <==> old(state).observer() is Some,
        next_due matches Some(n) ==> Some(n.observer) == old(state).observer() && n.telemetry
            == published,
        final(next).observer() == old(state).observer(),
{
}

/// Whether two reports say the same.
pub open spec fn same_report(a: DistributedPlanTelemetry, b: DistributedPlanTelemetry) -> bool {
    &&& a.stage_count == b.stage_count
    &&& a.task_count == b.task_count
    &&& a.worker_pool_size == b.worker_pool_size
    &&& a.max_serialized_task_plan_bytes == b.max_serialized_task_plan_bytes
    &&& a.aggregate_fanout_bytes == b.aggregate_fanout_bytes
    &&& crate::duration::total_nanos(a.serialization_duration) == crate::duration::total_nanos(
        b.serialization_duration,
    )
    &&& crate::duration::total_nanos(a.coordinator_transfer_duration)
        == crate::duration::total_nanos(b.coordinator_transfer_duration)
    &&& crate::duration::total_nanos(a.worker_decode_publication_duration)
        == crate::duration::total_nanos(b.worker_decode_publication_duration)
    &&& a.outcome == b.outcome
}

/// A guard ends the measurement of a query as the query itself would: with the outcome that it is
/// told, and as cancelled when it is dropped without one. The query has ended then, either way.
pub proof fn guards_end_their_query<'a, O: DistributedPlanTelemetryObserver + ?Sized>(
    told: DistributedPlanTelemetryGuard<'a, O>,
    outcome: PlanPublicationOutcome,
    due: Option<Notification<O, DistributedPlanTelemetry>>,
    itself: &mut DistributedPlanTelemetryState<O>,
    due_itself: Option<Notification<O, DistributedPlanTelemetry>>,
    dropped: DistributedPlanTelemetryGuard<'a, O>,
    due_dropped: Option<Notification<O, DistributedPlanTelemetry>>,
    cancelled: &mut DistributedPlanTelemetryState<O>,
    due_cancelled: Option<Notification<O, DistributedPlanTelemetry>>,
)
    requires
        call_ensures(DistributedPlanTelemetryGuard::<'a, O>::finish, (told, outcome), due),
        *itself == *told.state,
        call_ensures(
            DistributedPlanTelemetryState::<O>::finish,
            (itself, outcome),
            due_itself,
        ),
        call_ensures(DistributedPlanTelemetryGuard::<'a, O>::dropped, (dropped,), due_dropped),
        *cancelled == *dropped.state,
        call_ensures(
            DistributedPlanTelemetryState::<O>::finish,
            (cancelled, PlanPublicationOutcome::Cancellation),
            due_cancelled,
        ),
    ensures
        due is Some <==> due_itself is Some,
        due matches Some(n) ==> n.observer == due_itself->0.observer && same_report(
            n.telemetry,
            due_itself->0.telemetry,
        ),
        final(told.state)@ == final(itself)@,
        final(told.state)@.reported,
        due_dropped is Some <==> due_cancelled is Some,
        due_dropped matches Some(n) ==> n.observer == due_cancelled->0.observer && same_report(
            n.telemetry,
            due_cancelled->0.telemetry,
        ),
        final(dropped.state)@ == final(cancelled)@,
        final(dropped.state)@.reported,
{
}

/// An observer is installed in the configuration of a session, and in defaults where there is none;
/// nothing else in it changes.
pub proof fn observers_are_installed<O: DistributedPlanTelemetryObserver + ?Sized>(
    config: &mut Option<DistributedConfig<O>>,
    defaults: DistributedConfig<O>,
    observer: Arc<O>,
)
    requires
        call_ensures(
            set_distributed_plan_telemetry_observer::<O>,
            (config, defaults, observer),
            (),
        ),
    ensures
        *final(config) matches Some(after) && ({
            let before = match *old(config) {
                Some(before) => before,
                None => defaults,
            };
            &&& after.plan_telemetry_observer.0 == Some(observer)
            &&& after.shuffle_batch_size == before.shuffle_batch_size
            &&& after.collect_metrics == before.collect_metrics
            &&& after.compression == before.compression
        }),
{
}

} // verus!
