//! A worker: receives task plans, publishes them, and executes them.

pub mod coordinator_channel;
pub mod execute_task;
pub mod feeds;
pub mod plan_proto;
pub mod single_write_multi_read;
pub mod worker_service;
