//! What the coordinator and its workers say to each other.

use crate::task_key::TaskKey;
use vstd::prelude::*;

verus! {

/// Announces a work unit feed of a task plan.
#[derive(Debug)]
pub struct WorkUnitFeedDeclaration {
    /// Bytes of the feed identifier.
    pub id: Vec<u8>,
    /// Number of partitions that the feed has in one task.
    pub partitions: u64,
}

/// Hands a task plan to a worker.
#[derive(Debug)]
pub struct SetPlanRequest {
    /// The encoded plan.
    pub plan_proto: Vec<u8>,
    /// Number of tasks of the stage.
    pub task_count: u64,
    /// The task that the plan is for.
    pub task_key: Option<TaskKey>,
    /// The feeds that the plan will read from.
    pub work_unit_feed_declarations: Vec<WorkUnitFeedDeclaration>,
    /// The worker that the plan is meant for.
    pub target_worker_url: String,
    /// When the query started.
    pub query_start_time_ns: u64,
}

/// Withdraws a task plan from a worker.
#[derive(Debug)]
pub struct CancelPlanRequest {
    /// The task whose plan is withdrawn.
    pub task_key: Option<TaskKey>,
}

/// One item of a work unit feed.
#[derive(Debug)]
pub struct WorkUnit<U> {
    /// Bytes of the feed identifier.
    pub id: Vec<u8>,
    /// Partition of the feed inside its task.
    pub partition: u64,
    /// What the feed carries.
    pub unit: U,
}

/// What the coordinator says to a worker.
#[derive(Debug)]
pub enum CoordinatorToWorker<U> {
    SetPlanRequest(SetPlanRequest),
    CancelPlanRequest(CancelPlanRequest),
    WorkUnitBatch(Vec<WorkUnit<U>>),
}

/// A message from the coordinator, which may be one that this version does not know.
#[derive(Debug)]
pub struct CoordinatorToWorkerMsg<U> {
    pub inner: Option<CoordinatorToWorker<U>>,
}

/// The metrics that a worker sends back when a task has finished.
#[derive(Debug)]
pub struct TaskMetrics<M> {
    /// The metrics of every node of the plan, parents before their children.
    pub pre_order_plan_metrics: Vec<M>,
    /// The metrics of the task itself.
    pub task_metrics: Option<M>,
}

/// What a worker says to the coordinator.
#[derive(Debug)]
pub enum WorkerToCoordinator<M> {
    TaskMetrics(TaskMetrics<M>),
}

/// A message from a worker, which may be one that this version does not know.
#[derive(Debug)]
pub struct WorkerToCoordinatorMsg<M> {
    pub inner: Option<WorkerToCoordinator<M>>,
}

/// The request to withdraw the plan of `key`.
pub open spec fn cancels(request: CancelPlanRequest, key: crate::task_key::TaskKeyView) -> bool {
    request.task_key matches Some(task_key) && task_key@ == key
}

} // verus!
