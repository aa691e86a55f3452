//! Execution of query plans over several workers.
//!
//! A coordinator assigns workers to the tasks of a plan, sends every worker its part of the plan,
//! and executes the rest once all of them have acknowledged theirs. This crate holds the decisions
//! that the coordinator and the workers take on the way, what they say to each other, and what
//! they measure. Whoever uses it brings along the connections, the sessions and the clock.

pub mod coordinator;
pub mod duration;
pub mod error;
pub mod ids;
pub mod messages;
pub mod plan_telemetry;
pub mod status;
pub mod task_key;
pub mod text;
pub mod worker;

pub use coordinator::distributed::DistributedExec;
pub use coordinator::task_spawner::DistributedTaskContext;
pub use error::PLAN_PUBLICATION_ERROR_PREFIX;
pub use plan_telemetry::{
    set_distributed_plan_telemetry_observer, DistributedPlanTelemetry,
    DistributedPlanTelemetryObserver, PlanPublicationOutcome, PublishedTaskPlanTelemetry,
    SerializedTaskPlanTelemetry, WorkerTaskPlanTelemetry,
};
pub use task_key::TaskKey;
pub use worker::worker_service::Worker;
