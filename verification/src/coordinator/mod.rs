//! The coordinator: splits a query into task plans and hands them to workers.

pub mod distributed;
pub mod latency;
pub mod prepare_static_plan;
pub mod publication;
pub mod task_spawner;
