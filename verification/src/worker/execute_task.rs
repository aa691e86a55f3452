//! The execution of a published task plan, partition by partition.

use crate::error::{DistributedError, PlanError, PLAN_PUBLICATION_ERROR_PREFIX};
use crate::messages::TaskMetrics;
use crate::status::{RpcStatus, StatusCode};
use crate::task_key::TaskKey;
use crate::text::{push_byte_list, push_decimal};
use crate::worker::single_write_multi_read::SingleWriteMultiReadError;
use vstd::prelude::*;
use vstd::string::*;

verus! {

/// How many record batches are buffered from the execution of a plan.
pub const RECORD_BATCH_BUFFER_SIZE: usize = 2;

/// How many seconds an execution waits for the plan of its task.
pub const WAIT_PLAN_TIMEOUT_SECS: u64 = 10;

/// The task of a message, field by field.
pub open spec fn task_fields_text(key: crate::task_key::TaskKeyView) -> Seq<char> {
    "query_id="@ + crate::text::byte_list(key.query_id) + ", stage_id="@ + crate::text::decimal(
        key.stage_id as nat,
    ) + ", task_id="@ + crate::text::decimal(key.task_number as nat)
}

/// The end of a message about a plan that an execution has waited for.
pub open spec fn waited_text(
    key: crate::task_key::TaskKeyView,
    producer_head: Seq<char>,
) -> Seq<char> {
    task_fields_text(key) + ", producer_head="@ + producer_head
        + ", phase=ExecuteTask waiting for CoordinatorChannel acknowledgement, last_completed_phase=ExecuteTask received"@
}

/// What an execution is told that could not read the plan of its task.
pub open spec fn read_error_text(
    error: SingleWriteMultiReadError,
    key: crate::task_key::TaskKeyView,
    producer_head: Seq<char>,
    timeout_secs: u64,
) -> Seq<char> {
    match error {
        SingleWriteMultiReadError::Timeout => PLAN_PUBLICATION_ERROR_PREFIX@
            + " Plan publication timeout after "@ + crate::text::decimal(timeout_secs as nat)
            + "s: "@ + waited_text(key, producer_head),
        SingleWriteMultiReadError::NoValue => PLAN_PUBLICATION_ERROR_PREFIX@
            + " Plan publication ended without a value: "@ + waited_text(key, producer_head),
        SingleWriteMultiReadError::AlreadyWritten =>
            "Unexpected duplicate plan publication state while reading "@ + task_fields_text(key),
    }
}

fn push_task_fields(out: &mut String, key: &TaskKey)
    ensures
        final(out)@ == old(out)@ + task_fields_text(key@),
{
    out.append("query_id=");
    push_byte_list(out, &key.query_id);
    out.append(", stage_id=");
    push_decimal(out, key.stage_id);
    out.append(", task_id=");
    push_decimal(out, key.task_number);
    assert(out@ =~= old(out)@ + task_fields_text(key@));
}

fn push_waited(out: &mut String, key: &TaskKey, producer_head: &str)
    ensures
        final(out)@ == old(out)@ + waited_text(key@, producer_head@),
{
    push_task_fields(out, key);
    out.append(", producer_head=");
    out.append(producer_head);
    out.append(
        ", phase=ExecuteTask waiting for CoordinatorChannel acknowledgement, last_completed_phase=ExecuteTask received",
    );
    assert(out@ =~= old(out)@ + waited_text(key@, producer_head@));
}

/// The error of an execution that could not read the plan of its task. `producer_head` is the
/// debug rendering of the head that the execution asked for.
pub fn plan_publication_read_error(
    error: SingleWriteMultiReadError,
    key: &TaskKey,
    producer_head: &str,
    timeout_secs: u64,
) -> (r: PlanError)
    ensures
        r@ == crate::error::PlanErrorView::Execution(
            read_error_text(error, key@, producer_head@, timeout_secs),
        ),
{
    let mut message = String::new();
    match error {
        SingleWriteMultiReadError::Timeout => {
            message.append(PLAN_PUBLICATION_ERROR_PREFIX);
            message.append(" Plan publication timeout after ");
            push_decimal(&mut message, timeout_secs);
            message.append("s: ");
            push_waited(&mut message, key, producer_head);
        },
        SingleWriteMultiReadError::NoValue => {
            message.append(PLAN_PUBLICATION_ERROR_PREFIX);
            message.append(" Plan publication ended without a value: ");
            push_waited(&mut message, key, producer_head);
        },
        SingleWriteMultiReadError::AlreadyWritten => {
            message.append("Unexpected duplicate plan publication state while reading ");
            push_task_fields(&mut message, key);
        },
    }
    assert(message@ =~= read_error_text(error, key@, producer_head@, timeout_secs));
    PlanError::Execution(message)
}

/// Asks a worker to execute partitions of a task.
#[derive(Debug)]
pub struct ExecuteTaskRequest<H> {
    /// The task.
    pub task_key: Option<TaskKey>,
    /// What the plan of the task is to be headed by.
    pub producer_head: Option<H>,
    /// The first partition.
    pub target_partition_start: u64,
    /// The partition behind the last one.
    pub target_partition_end: u64,
}

impl<H> ExecuteTaskRequest<H> {
    /// The task and the head that the request names. It has to name both.
    pub fn target(&self) -> (r: Result<(&TaskKey, &H), PlanError>)
        ensures
            match (self.task_key, self.producer_head) {
                (Some(key), Some(head)) => r matches Ok(target) && *target.0 == key && *target.1
                    == head,
                (Some(_), None) => r matches Err(e) && e@ == crate::error::PlanErrorView::Internal(
                    "Missing producer_head"@,
                ),
                (None, _) => r matches Err(e) && e@ == crate::error::PlanErrorView::Internal(
                    "Missing task_key in LocalWorkerConnection"@,
                ),
            },
    {
        let key = match &self.task_key {
            Some(key) => key,
            None => {
                return Err(
                    PlanError::Internal("Missing task_key in LocalWorkerConnection".to_string()),
                );
            },
        };
        match &self.producer_head {
            Some(head) => Ok((key, head)),
            None => Err(PlanError::Internal("Missing producer_head".to_string())),
        }
    }
}

/// The plan that an execution has waited for. Where the plan could not be built, the reason that
/// was published in its place is passed on.
pub fn published_plan<T, E>(
    read: Result<Result<T, E>, SingleWriteMultiReadError>,
    key: &TaskKey,
    producer_head: &str,
) -> (r: Result<T, DistributedError<E>>)
    ensures
        match read {
            Ok(Ok(plan)) => r == Ok::<T, DistributedError<E>>(plan),
            Ok(Err(error)) => r == Err::<T, _>(DistributedError::Source(error)),
            Err(error) => r matches Err(DistributedError::Plan(e)) && e@
                == crate::error::PlanErrorView::Execution(
                read_error_text(error, key@, producer_head@, WAIT_PLAN_TIMEOUT_SECS),
            ),
        },
{
    match read {
        Ok(Ok(plan)) => Ok(plan),
        Ok(Err(error)) => Err(DistributedError::Source(error)),
        Err(error) => Err(
            DistributedError::Plan(
                plan_publication_read_error(error, key, producer_head, WAIT_PLAN_TIMEOUT_SECS),
            ),
        ),
    }
}

/// An execution goes on with the plan that was published for its task, or with the reason for which
/// there is none. Where nothing was published in time, or ever will be, its error begins with the
/// marker by which publication errors are known, and says which task and which head it was about.
pub proof fn executions_take_what_was_published<T, E>(
    read: Result<Result<T, E>, SingleWriteMultiReadError>,
    key: &TaskKey,
    producer_head: &str,
    r: Result<T, DistributedError<E>>,
    timeout_secs: u64,
    timed_out: PlanError,
)
    requires
        call_ensures(published_plan::<T, E>, (read, key, producer_head), r),
        call_ensures(
            plan_publication_read_error,
            (SingleWriteMultiReadError::Timeout, key, producer_head, timeout_secs),
            timed_out,
        ),
    ensures
        ({
            let task = "query_id="@ + crate::text::byte_list(key.query_id@) + ", stage_id="@
                + crate::text::decimal(key.stage_id as nat) + ", task_id="@ + crate::text::decimal(
                key.task_number as nat,
            );
            let waited = task + ", producer_head="@ + producer_head@
                + ", phase=ExecuteTask waiting for CoordinatorChannel acknowledgement, last_completed_phase=ExecuteTask received"@;
            &&& timed_out@ == crate::error::PlanErrorView::Execution(
                PLAN_PUBLICATION_ERROR_PREFIX@ + " Plan publication timeout after "@
                    + crate::text::decimal(timeout_secs as nat) + "s: "@ + waited,
            )
            &&& match read {
                Ok(Ok(plan)) => r == Ok::<T, DistributedError<E>>(plan),
                Ok(Err(error)) => r == Err::<T, _>(DistributedError::Source(error)),
                Err(SingleWriteMultiReadError::Timeout) =>
                r matches Err(DistributedError::Plan(error)) && error@
                    == crate::error::PlanErrorView::Execution(
                    PLAN_PUBLICATION_ERROR_PREFIX@ + " Plan publication timeout after "@
                        + crate::text::decimal(10) + "s: "@ + waited,
                ),
                Err(SingleWriteMultiReadError::NoValue) =>
                r matches Err(DistributedError::Plan(error)) && error@
                    == crate::error::PlanErrorView::Execution(
                    PLAN_PUBLICATION_ERROR_PREFIX@ + " Plan publication ended without a value: "@
                        + waited,
                ),
                Err(SingleWriteMultiReadError::AlreadyWritten) =>
                r matches Err(DistributedError::Plan(error)) && error@
                    == crate::error::PlanErrorView::Execution(
                    "Unexpected duplicate plan publication state while reading "@ + task,
                ),
            }
        }),
{
}

/// What is said of a partition that a plan does not have.
pub open spec fn unavailable_text(
    partition: u64,
    plan_name: Seq<char>,
    partition_count: usize,
) -> Seq<char> {
    "partition "@ + crate::text::decimal(partition as nat) + " not available. The head plan "@
        + plan_name + " of the stage just has "@ + crate::text::decimal(partition_count as nat)
        + " partitions"@
}

/// The partitions that an execution has asked for, one after the other.
pub struct RequestedPartitions {
    next: u64,
    end: u64,
}

impl RequestedPartitions {
    /// The partition whose turn it is.
    pub closed spec fn next(&self) -> u64 {
        self.next
    }

    /// The partition behind the last one.
    pub closed spec fn end(&self) -> u64 {
        self.end
    }

    /// All the partitions that `request` asks for.
    pub fn of<H>(request: &ExecuteTaskRequest<H>) -> (r: Self)
        ensures
            r.next() == request.target_partition_start,
            r.end() == request.target_partition_end,
    {
        RequestedPartitions {
            next: request.target_partition_start,
            end: request.target_partition_end,
        }
    }

    /// The next partition to execute, or nothing once there is none left. A partition that the
    /// plan does not have ends the execution.
    pub fn advance(&mut self, partition_count: usize, plan_name: &str) -> (r: Option<
        Result<usize, PlanError>,
    >)
        ensures
            final(self).end() == old(self).end(),
            if old(self).next() >= old(self).end() {
                r is None && final(self).next() == old(self).next()
            } else if old(self).next() < partition_count {
                r == Some(Ok::<usize, PlanError>(old(self).next() as usize)) && final(self).next()
                    == old(self).next() + 1
            } else {
                final(self).next() == old(self).next() && (r matches Some(Err(e)) && e@
                    == crate::error::PlanErrorView::Execution(
                    unavailable_text(old(self).next(), plan_name@, partition_count),
                ))
            },
    {
        if self.next >= self.end {
            return None;
        }
        let partition: u64 = self.next;
        if partition >= partition_count as u64 {
            let mut message = "partition ".to_string();
            push_decimal(&mut message, partition);
            message.append(" not available. The head plan ");
            message.append(plan_name);
            message.append(" of the stage just has ");
            push_decimal(&mut message, partition_count as u64);
            message.append(" partitions");
            return Some(Err(PlanError::Execution(message)));
        }
        self.next = partition + 1;
        Some(Ok(partition as usize))
    }
}

/// Whether `outcome` is what `execute` may return for a partition.
pub open spec fn executed<S, E, F: Fn(usize) -> Result<S, E>>(
    execute: F,
    partition: int,
    outcome: Result<S, E>,
) -> bool {
    0 <= partition <= usize::MAX && call_ensures(execute, (partition as usize,), outcome)
}

/// Whether `streams` may come of the first partitions of `request`, all of which the plan has.
pub open spec fn executed_so_far<H, S, E, F: Fn(usize) -> Result<S, E>>(
    request: &ExecuteTaskRequest<H>,
    partition_count: usize,
    execute: F,
    streams: Seq<S>,
) -> bool {
    &&& streams.len() <= request.target_partition_end - request.target_partition_start
    &&& streams.len() > 0 ==> request.target_partition_start + streams.len() <= partition_count
    &&& forall|i: int|
        0 <= i < streams.len() ==> executed(
            execute,
            request.target_partition_start + i,
            Ok::<S, E>(#[trigger] streams[i]),
        )
}

/// Whether the plan lacks the partition of `request` that comes after `streams`.
pub open spec fn lacks_next<H, S>(
    request: &ExecuteTaskRequest<H>,
    partition_count: usize,
    streams: Seq<S>,
) -> bool {
    partition_count <= request.target_partition_start + streams.len()
        < request.target_partition_end
}

/// Whether `error` may come of the partition of `request` that comes after `streams`.
pub open spec fn fails_next<H, S, E, F: Fn(usize) -> Result<S, E>>(
    request: &ExecuteTaskRequest<H>,
    partition_count: usize,
    execute: F,
    streams: Seq<S>,
    error: E,
) -> bool {
    let next = request.target_partition_start + streams.len();
    next < request.target_partition_end && next < partition_count && executed(
        execute,
        next,
        Err::<S, E>(error),
    )
}

/// Whether `error` may come of one of the partitions of `request`, after all those before it were
/// executed.
pub open spec fn execution_fails<H, S, E, F: Fn(usize) -> Result<S, E>>(
    request: &ExecuteTaskRequest<H>,
    partition_count: usize,
    execute: F,
    error: E,
) -> bool {
    exists|streams: Seq<S>| #[trigger]
        fails_next(request, partition_count, execute, streams, error) && executed_so_far(
            request,
            partition_count,
            execute,
            streams,
        )
}

/// Whether `r` is what may come of executing the partitions of `request`.
pub open spec fn execution_outcome<H, S, E, F: Fn(usize) -> Result<S, E>>(
    request: &ExecuteTaskRequest<H>,
    partition_count: usize,
    plan_name: Seq<char>,
    execute: F,
    r: Result<Vec<S>, DistributedError<E>>,
) -> bool {
    match r {
        Ok(streams) => streams@.len() == request.target_partition_end
            - request.target_partition_start && executed_so_far(
            request,
            partition_count,
            execute,
            streams@,
        ),
        Err(DistributedError::Plan(e)) => exists|streams: Seq<S>| #[trigger]
            lacks_next(request, partition_count, streams) && executed_so_far(
                request,
                partition_count,
                execute,
                streams,
            ) && e@ == crate::error::PlanErrorView::Execution(
                unavailable_text(
                    (request.target_partition_start + streams.len()) as u64,
                    plan_name,
                    partition_count,
                ),
            ),
        Err(DistributedError::Source(e)) => execution_fails::<H, S, E, F>(
            request,
            partition_count,
            execute,
            e,
        ),
    }
}

/// Executes every partition of `request` with `execute`, in order. The first one that the plan
/// does not have, or that cannot be executed, ends this with an error.
pub fn execute_partitions<H, S, E, F: Fn(usize) -> Result<S, E>>(
    request: &ExecuteTaskRequest<H>,
    partition_count: usize,
    plan_name: &str,
    execute: F,
) -> (r: Result<Vec<S>, DistributedError<E>>)
    requires
        request.target_partition_start <= request.target_partition_end,
        forall|partition: usize| #[trigger] call_requires(execute, (partition,)),
    ensures
        execution_outcome(request, partition_count, plan_name@, execute, r),
{
    let mut streams: Vec<S> = Vec::new();
    let mut partitions = RequestedPartitions::of(request);
    loop
        invariant
            partitions.end() == request.target_partition_end,
            request.target_partition_start <= partitions.next() <= request.target_partition_end,
            streams@.len() == partitions.next() - request.target_partition_start,
            executed_so_far(request, partition_count, execute, streams@),
            forall|partition: usize| #[trigger] call_requires(execute, (partition,)),
        decreases request.target_partition_end - partitions.next(),
    {
        let partition: usize = match partitions.advance(partition_count, plan_name) {
            None => {
                return Ok(streams);
            },
            Some(Err(error)) => {
                assert(lacks_next(request, partition_count, streams@));
                return Err(DistributedError::Plan(error));
            },
            Some(Ok(partition)) => partition,
        };
        match execute(partition) {
            Ok(stream) => {
                assert(executed(execute, partition as int, Ok::<S, E>(stream)));
                streams.push(stream);
            },
            Err(error) => {
                assert(fails_next(request, partition_count, execute, streams@, error));
                return Err(DistributedError::Source(error));
            },
        }
    }
}

/// Whether `execute` was called on `partition`, which the plan has, and may have returned
/// `outcome`.
pub open spec fn ran<S, E, F: Fn(usize) -> Result<S, E>>(
    execute: F,
    partition: int,
    partition_count: usize,
    outcome: Result<S, E>,
) -> bool {
    0 <= partition < partition_count && call_ensures(execute, (partition as usize,), outcome)
}

/// Whether `execute` was called on `partition`, which the plan has, and may have succeeded.
pub open spec fn ran_well<S, E, F: Fn(usize) -> Result<S, E>>(
    execute: F,
    partition: int,
    partition_count: usize,
) -> bool {
    exists|stream: S| #[trigger] ran(execute, partition, partition_count, Ok::<S, E>(stream))
}

/// An execution that succeeds has exactly one stream for each requested partition, in order, and
/// the plan has all of them. One that fails does so on a requested partition, after all requested
/// partitions before it were executed: on the first that the plan does not have, or on one whose
/// own error is passed on.
pub proof fn every_requested_partition_is_executed<H, S, E, F: Fn(usize) -> Result<S, E>>(
    request: &ExecuteTaskRequest<H>,
    partition_count: usize,
    plan_name: &str,
    execute: F,
    r: Result<Vec<S>, DistributedError<E>>,
)
    requires
        request.target_partition_start <= request.target_partition_end,
        call_ensures(
            execute_partitions::<H, S, E, F>,
            (request, partition_count, plan_name, execute),
            r,
        ),
    ensures
        ({
            let start = request.target_partition_start as int;
            let end = request.target_partition_end as int;
            match r {
                Ok(streams) => {
                    &&& streams@.len() == end - start
                    &&& forall|i: int|
                        0 <= i < end - start ==> ran(
                            execute,
                            start + i,
                            partition_count,
                            Ok::<S, E>(#[trigger] streams@[i]),
                        )
                },
                Err(DistributedError::Plan(error)) => {
                    &&& start < end
                    &&& partition_count < end
                    &&& forall|p: int|
                        start <= p < partition_count ==> #[trigger] ran_well::<S, E, F>(
                            execute,
                            p,
                            partition_count,
                        )
                    &&& error@ == crate::error::PlanErrorView::Execution(
                        "partition "@ + crate::text::decimal(
                            if start < partition_count {
                                partition_count as nat
                            } else {
                                start as nat
                            },
                        ) + " not available. The head plan "@ + plan_name@
                            + " of the stage just has "@ + crate::text::decimal(
                            partition_count as nat,
                        ) + " partitions"@,
                    )
                },
                Err(DistributedError::Source(error)) => exists|p: int|
                    start <= p < end && #[trigger] ran(
                        execute,
                        p,
                        partition_count,
                        Err::<S, E>(error),
                    ) && forall|q: int|
                        start <= q < p ==> #[trigger] ran_well::<S, E, F>(
                            execute,
                            q,
                            partition_count,
                        ),
            }
        }),
{
    let start = request.target_partition_start as int;
    let end = request.target_partition_end as int;
    match r {
        Ok(streams) => {
            assert forall|i: int| 0 <= i < end - start implies ran(
                execute,
                start + i,
                partition_count,
                Ok::<S, E>(#[trigger] streams@[i]),
            ) by {
                assert(executed(execute, start + i, Ok::<S, E>(streams@[i])));
            }
        },
        Err(DistributedError::Plan(error)) => {
            let streams = choose|streams: Seq<S>| #[trigger]
                lacks_next(request, partition_count, streams) && executed_so_far(
                    request,
                    partition_count,
                    execute,
                    streams,
                ) && error@ == crate::error::PlanErrorView::Execution(
                    unavailable_text(
                        (request.target_partition_start + streams.len()) as u64,
                        plan_name@,
                        partition_count,
                    ),
                );
            lemma_streams_ran::<H, S, E, F>(request, partition_count, execute, streams);
        },
        Err(DistributedError::Source(error)) => {
            let streams = choose|streams: Seq<S>| #[trigger]
                fails_next(request, partition_count, execute, streams, error) && executed_so_far(
                    request,
                    partition_count,
                    execute,
                    streams,
                );
            lemma_streams_ran::<H, S, E, F>(request, partition_count, execute, streams);
            assert(ran(
                execute,
                start + streams.len(),
                partition_count,
                Err::<S, E>(error),
            ));
        },
    }
}

proof fn lemma_streams_ran<H, S, E, F: Fn(usize) -> Result<S, E>>(
    request: &ExecuteTaskRequest<H>,
    partition_count: usize,
    execute: F,
    streams: Seq<S>,
)
    requires
        executed_so_far(request, partition_count, execute, streams),
    ensures
        forall|p: int|
            request.target_partition_start <= p < request.target_partition_start + streams.len()
                ==> #[trigger] ran_well::<S, E, F>(execute, p, partition_count),
{
    let start = request.target_partition_start as int;
    assert forall|p: int| start <= p < start + streams.len() implies #[trigger] ran_well::<
        S,
        E,
        F,
    >(execute, p, partition_count) by {
        assert(executed(execute, start + (p - start), Ok::<S, E>(streams[p - start])));
        assert(ran(execute, p, partition_count, Ok::<S, E>(streams[p - start])));
    }
}

/// How many partitions of a task have not ended yet.
pub struct PartitionCountdown {
    remaining: usize,
}

/// What is left to do when the stream of a partition is dropped.
#[derive(Clone, Copy, Debug, PartialEq, Eq, Structural)]
pub enum StreamDropped {
    /// Other partitions have not ended yet.
    Remaining,
    /// This was the last partition: forget the plan of the task, note the time at which its
    /// execution finished, and report its metrics if they are wanted.
    Finished { send_metrics: bool },
}

/// What is left of `remaining` once one more partition has ended.
pub open spec fn one_less(remaining: usize) -> usize {
    if remaining == 0 {
        usize::MAX
    } else {
        (remaining - 1) as usize
    }
}

/// What is left of `partitions` once `drops` streams were dropped.
pub open spec fn remaining_after(partitions: usize, drops: nat) -> usize
    decreases drops,
{
    if drops == 0 {
        partitions
    } else {
        one_less(remaining_after(partitions, (drops - 1) as nat))
    }
}

impl PartitionCountdown {
    /// The number of partitions that have not ended yet.
    pub closed spec fn remaining(&self) -> usize {
        self.remaining
    }

    /// No partition of the plan has ended yet.
    pub fn new(partition_count: usize) -> (r: Self)
        ensures
            r.remaining() == partition_count,
    {
        PartitionCountdown { remaining: partition_count }
    }

    /// The stream of a partition was dropped, fully read or not.
    pub fn on_stream_dropped(&mut self, send_metrics: bool) -> (r: StreamDropped)
        ensures
            final(self).remaining() == one_less(old(self).remaining()),
            r == if old(self).remaining() == 1 {
                StreamDropped::Finished { send_metrics }
            } else {
                StreamDropped::Remaining
            },
    {
        let before: usize = self.remaining;
        self.remaining = before.wrapping_sub(1);
        if before == 1 {
            StreamDropped::Finished { send_metrics }
        } else {
            StreamDropped::Remaining
        }
    }
}

proof fn lemma_remaining(partitions: usize, drops: nat)
    requires
        drops <= partitions,
    ensures
        remaining_after(partitions, drops) == partitions - drops,
    decreases drops,
{
    if drops > 0 {
        lemma_remaining(partitions, (drops - 1) as nat);
    }
}

/// Among the streams of the partitions of a task, whatever their order, the one that is dropped
/// last finishes the task, and no other does.
pub proof fn the_last_drop_finishes(partitions: usize, drop: nat)
    requires
        1 <= drop <= partitions,
    ensures
        remaining_after(partitions, (drop - 1) as nat) == 1 <==> drop == partitions,
{
    lemma_remaining(partitions, (drop - 1) as nat);
}

proof fn lemma_countdown(
    partitions: usize,
    begun: PartitionCountdown,
    calls: Seq<&mut PartitionCountdown>,
    wanted: Seq<bool>,
    drops: Seq<StreamDropped>,
    i: int,
)
    requires
        call_ensures(PartitionCountdown::new, (partitions,), begun),
        calls.len() == drops.len(),
        wanted.len() == drops.len(),
        drops.len() <= partitions,
        calls.len() > 0 ==> *calls[0] == begun,
        forall|k: int|
            0 <= k < calls.len() ==> call_ensures(
                PartitionCountdown::on_stream_dropped,
                (#[trigger] calls[k], wanted[k]),
                drops[k],
            ),
        forall|k: int| 0 < k < calls.len() ==> *(#[trigger] calls[k]) == *final(calls[k - 1]),
        0 <= i < calls.len(),
    ensures
        calls[i].remaining() == partitions - i,
    decreases i,
{
    if i > 0 {
        lemma_countdown(partitions, begun, calls, wanted, drops, i - 1);
        assert(call_ensures(
            PartitionCountdown::on_stream_dropped,
            (calls[i - 1], wanted[i - 1]),
            drops[i - 1],
        ));
        assert(*calls[i] == *final(calls[i - 1]));
    }
}

/// Over all the streams of a task, call by call: the last one that is dropped finishes the task,
/// and with it go the metrics if they are wanted; none before it does.
pub proof fn a_task_finishes_with_its_last_stream(
    partitions: usize,
    begun: PartitionCountdown,
    calls: Seq<&mut PartitionCountdown>,
    wanted: Seq<bool>,
    drops: Seq<StreamDropped>,
)
    requires
        call_ensures(PartitionCountdown::new, (partitions,), begun),
        calls.len() == drops.len(),
        wanted.len() == drops.len(),
        drops.len() <= partitions,
        calls.len() > 0 ==> *calls[0] == begun,
        forall|k: int|
            0 <= k < calls.len() ==> call_ensures(
                PartitionCountdown::on_stream_dropped,
                (#[trigger] calls[k], wanted[k]),
                drops[k],
            ),
        forall|k: int| 0 < k < calls.len() ==> *(#[trigger] calls[k]) == *final(calls[k - 1]),
    ensures
        forall|i: int|
            0 <= i < drops.len() ==> #[trigger] drops[i] == if i + 1 == partitions {
                StreamDropped::Finished { send_metrics: wanted[i] }
            } else {
                StreamDropped::Remaining
            },
{
    assert forall|i: int| 0 <= i < drops.len() implies #[trigger] drops[i] == if i + 1
        == partitions {
        StreamDropped::Finished { send_metrics: wanted[i] }
    } else {
        StreamDropped::Remaining
    } by {
        lemma_countdown(partitions, begun, calls, wanted, drops, i);
        assert(call_ensures(
            PartitionCountdown::on_stream_dropped,
            (calls[i], wanted[i]),
            drops[i],
        ));
    }
}

/// Where the metrics of a task go, if they are collected at all.
pub fn metrics_slot<T>(collect_metrics: bool, sender: T) -> (r: Option<T>)
    ensures
        r == if collect_metrics {
            Some(sender)
        } else {
            None
        },
{
    if collect_metrics {
        Some(sender)
    } else {
        None
    }
}

/// The metrics of the nodes of a plan, parents before their children.
pub struct PlanMetrics<M> {
    nodes: Vec<M>,
}

impl<M> PlanMetrics<M> {
    /// The metrics of the nodes that were visited, in the order of the visit.
    pub closed spec fn nodes(&self) -> Seq<M> {
        self.nodes@
    }

    /// No node was visited yet.
    pub fn new() -> (r: Self)
        ensures
            r.nodes() == Seq::<M>::empty(),
    {
        PlanMetrics { nodes: Vec::new() }
    }

    /// A node was visited. One without metrics that can be sent is given empty ones, so that every
    /// node has its place.
    pub fn visit(&mut self, metrics: Option<M>, empty: M)
        ensures
            final(self).nodes() == old(self).nodes().push(
                match metrics {
                    Some(metrics) => metrics,
                    None => empty,
                },
            ),
    {
        match metrics {
            Some(metrics) => {
                self.nodes.push(metrics);
            },
            None => {
                self.nodes.push(empty);
            },
        }
    }
}

/// The metrics of a finished task, and where they go. They are sent once at most, and only where
/// they are collected.
pub fn send_metrics_via_channel<T, M>(
    slot: &mut Option<T>,
    plan_metrics: PlanMetrics<M>,
    task_metrics: M,
) -> (r: Option<(T, TaskMetrics<M>)>)
    ensures
        *final(slot) == None::<T>,
        match *old(slot) {
            Some(sender) => r matches Some(sent) && sent.0 == sender
                && sent.1.pre_order_plan_metrics@ == plan_metrics.nodes() && sent.1.task_metrics
                == Some(task_metrics),
            None => r is None,
        },
{
    let sender = match slot.take() {
        Some(sender) => sender,
        None => {
            return None;
        },
    };
    Some(
        (
            sender,
            TaskMetrics {
                pre_order_plan_metrics: plan_metrics.nodes,
                task_metrics: Some(task_metrics),
            },
        ),
    )
}

/// How record batches are compressed on the wire.
#[derive(Clone, Copy, Debug, PartialEq, Eq, Structural)]
pub enum WireCompression {
    Lz4Frame,
    Zstd,
}

/// The compression that a session asks for by its name.
pub fn wire_compression(name: &String) -> (r: Result<Option<WireCompression>, RpcStatus>)
    ensures
        if name@ == "lz4"@ {
            r == Ok::<_, RpcStatus>(Some(WireCompression::Lz4Frame))
        } else if name@ == "zstd"@ {
            r == Ok::<_, RpcStatus>(Some(WireCompression::Zstd))
        } else if name@ == "none"@ {
            r == Ok::<Option<WireCompression>, RpcStatus>(None)
        } else {
            r matches Err(status) && status@ == crate::status::plain_status(
                StatusCode::InvalidArgument,
                "Unknown compression type "@ + name@,
            )
        },
{
    if *name == "lz4".to_string() {
        return Ok(Some(WireCompression::Lz4Frame));
    }
    if *name == "zstd".to_string() {
        return Ok(Some(WireCompression::Zstd));
    }
    if *name == "none".to_string() {
        return Ok(None);
    }
    let mut message = "Unknown compression type ".to_string();
    message.append(name.as_str());
    Err(RpcStatus::new(StatusCode::InvalidArgument, message))
}

/// The streams of an execution, each with the partition that it belongs to. All of them travel
/// over one connection, and are told apart by their partition at its other end.
pub fn partition_streams<H, S>(request: &ExecuteTaskRequest<H>, streams: Vec<S>) -> (r: Vec<
    (u64, S),
>)
    requires
        request.target_partition_start + streams@.len() <= request.target_partition_end,
    ensures
        r@.len() == streams@.len(),
        forall|i: int|
            0 <= i < r@.len() ==> #[trigger] r@[i] == (
                (request.target_partition_start + i) as u64,
                streams@[i],
            ),
{
    let mut tagged: Vec<(u64, S)> = Vec::new();
    let mut partition: u64 = request.target_partition_start;
    for stream in rest: streams
        invariant
            rest.seq() == streams@,
            partition == request.target_partition_start + rest.index(),
            request.target_partition_start + streams@.len() <= request.target_partition_end,
            tagged@.len() == rest.index(),
            forall|i: int|
                0 <= i < tagged@.len() ==> #[trigger] tagged@[i] == (
                    (request.target_partition_start + i) as u64,
                    streams@[i],
                ),
    {
        tagged.push((partition, stream));
        partition += 1;
    }
    tagged
}

/// The streams of an execution travel under the numbers of the partitions that were asked for: one
/// for each of them, from the first to the last, and each with what was executed for it.
pub proof fn streams_travel_under_their_partition<H, S, E, F: Fn(usize) -> Result<S, E>>(
    request: &ExecuteTaskRequest<H>,
    partition_count: usize,
    plan_name: &str,
    execute: F,
    streams: Vec<S>,
    r: Vec<(u64, S)>,
)
    requires
        request.target_partition_start <= request.target_partition_end,
        call_ensures(
            execute_partitions::<H, S, E, F>,
            (request, partition_count, plan_name, execute),
            Ok::<Vec<S>, DistributedError<E>>(streams),
        ),
        call_ensures(partition_streams::<H, S>, (request, streams), r),
    ensures
        r@.len() == request.target_partition_end - request.target_partition_start,
        forall|i: int|
            0 <= i < r@.len() ==> (#[trigger] r@[i]).0 == request.target_partition_start + i && ran(
                execute,
                r@[i].0 as int,
                partition_count,
                Ok::<S, E>(r@[i].1),
            ),
{
    every_requested_partition_is_executed(
        request,
        partition_count,
        plan_name,
        execute,
        Ok::<Vec<S>, DistributedError<E>>(streams),
    );
    assert forall|i: int| 0 <= i < r@.len() implies (#[trigger] r@[i]).0
        == request.target_partition_start + i && ran(
        execute,
        r@[i].0 as int,
        partition_count,
        Ok::<S, E>(r@[i].1),
    ) by {
        assert(ran(
            execute,
            request.target_partition_start + i,
            partition_count,
            Ok::<S, E>(streams@[i]),
        ));
    }
}

proof fn lemma_visited<M>(
    begun: PlanMetrics<M>,
    calls: Seq<&mut PlanMetrics<M>>,
    nodes: Seq<(Option<M>, M)>,
    i: int,
)
    requires
        call_ensures(PlanMetrics::<M>::new, (), begun),
        calls.len() == nodes.len() + 1,
        *calls[0] == begun,
        forall|k: int|
            0 <= k < nodes.len() ==> call_ensures(
                PlanMetrics::<M>::visit,
                (#[trigger] calls[k], nodes[k].0, nodes[k].1),
                (),
            ),
        forall|k: int| 0 < k < calls.len() ==> *(#[trigger] calls[k]) == *final(calls[k - 1]),
        0 <= i <= nodes.len(),
    ensures
        calls[i].nodes().len() == i,
        forall|k: int|
            0 <= k < i ==> #[trigger] calls[i].nodes()[k] == (match nodes[k].0 {
                Some(metrics) => metrics,
                None => nodes[k].1,
            }),
    decreases i,
{
    if i > 0 {
        lemma_visited(begun, calls, nodes, i - 1);
        let call = calls[i - 1];
        assert(*calls[i] == *final(calls[i - 1]));
    }
}

/// The metrics of a task are sent to whoever waits for them, and only once: those of every node
/// that was visited, in the order of the visit, with empty ones for a node that has none, and those
/// of the task itself.
pub proof fn metrics_of_every_node_are_sent<T, M>(
    begun: PlanMetrics<M>,
    calls: Seq<&mut PlanMetrics<M>>,
    nodes: Seq<(Option<M>, M)>,
    collect_metrics: bool,
    sender: T,
    made: Option<T>,
    slot: &mut Option<T>,
    task_metrics: M,
    r: Option<(T, TaskMetrics<M>)>,
)
    requires
        call_ensures(PlanMetrics::<M>::new, (), begun),
        calls.len() == nodes.len() + 1,
        *calls[0] == begun,
        forall|k: int|
            0 <= k < nodes.len() ==> call_ensures(
                PlanMetrics::<M>::visit,
                (#[trigger] calls[k], nodes[k].0, nodes[k].1),
                (),
            ),
        forall|k: int| 0 < k < calls.len() ==> *(#[trigger] calls[k]) == *final(calls[k - 1]),
        call_ensures(metrics_slot::<T>, (collect_metrics, sender), made),
        *slot == made,
        call_ensures(
            send_metrics_via_channel::<T, M>,
            (slot, *calls[nodes.len() as int], task_metrics),
            r,
        ),
    ensures
        *final(slot) is None,
        r is Some <==> collect_metrics,
        r matches Some((to, sent)) ==> to == sender && sent.task_metrics == Some(task_metrics)
            && sent.pre_order_plan_metrics@.len() == nodes.len() && forall|k: int|
            0 <= k < nodes.len() ==> #[trigger] sent.pre_order_plan_metrics@[k] == (
            match nodes[k].0 {
                Some(metrics) => metrics,
                None => nodes[k].1,
            }),
{
    lemma_visited(begun, calls, nodes, nodes.len() as int);
}

/// Why a stream of encoded record batches broke off.
#[derive(Debug)]
pub enum StreamFailure {
    /// A remote call failed.
    Status(RpcStatus),
    /// Something else went wrong, which is told in this text.
    Other(String),
}

/// The status with which a broken stream ends.
pub fn stream_failure_status(failure: StreamFailure) -> (r: RpcStatus)
    ensures
        match failure {
            StreamFailure::Status(status) => r == status,
            StreamFailure::Other(error) => r@ == crate::status::plain_status(
                StatusCode::Internal,
                "Error during flight stream: "@ + error@,
            ),
        },
{
    match failure {
        StreamFailure::Status(status) => status,
        StreamFailure::Other(error) => {
            let mut message = "Error during flight stream: ".to_string();
            message.append(error.as_str());
            RpcStatus::new(StatusCode::Internal, message)
        },
    }
}

/// How an array holds its values.
#[derive(Clone, Copy, Debug, PartialEq, Eq, Structural)]
pub enum ArrayKind {
    /// As keys into a dictionary.
    Dictionary,
    /// As views into buffers of text.
    StringView,
    /// As views into buffers of bytes.
    BinaryView,
    /// As they are.
    Plain,
}

/// How an array holds its values, by what it can be read as.
pub fn array_kind(
    as_dictionary: bool,
    as_string_view: bool,
    as_binary_view: bool,
) -> (r: ArrayKind)
    ensures
        r == if as_dictionary {
            ArrayKind::Dictionary
        } else if as_string_view {
            ArrayKind::StringView
        } else if as_binary_view {
            ArrayKind::BinaryView
        } else {
            ArrayKind::Plain
        },
{
    if as_dictionary {
        ArrayKind::Dictionary
    } else if as_string_view {
        ArrayKind::StringView
    } else if as_binary_view {
        ArrayKind::BinaryView
    } else {
        ArrayKind::Plain
    }
}

/// How the values that nothing refers to are dropped from an array, by the way in which it holds
/// them.
pub struct Collectors<D, S, B> {
    /// Drops the entries of a dictionary that no key refers to.
    pub dictionary: D,
    /// Drops the buffers that no view of text refers to.
    pub string_view: S,
    /// Drops the buffers that no view of bytes refers to.
    pub binary_view: B,
}

impl<D, S, B> Collectors<D, S, B> {
    /// Whether every array can be collected.
    pub open spec fn total<A, E>(&self) -> bool where
        D: Fn(A) -> Result<A, E>,
        S: Fn(A) -> A,
        B: Fn(A) -> A,
     {
        &&& forall|array: A| #[trigger] call_requires(self.dictionary, (array,))
        &&& forall|array: A| #[trigger] call_requires(self.string_view, (array,))
        &&& forall|array: A| #[trigger] call_requires(self.binary_view, (array,))
    }

    /// Whether `outcome` may come of collecting `array`.
    pub open spec fn collects<A, E>(
        &self,
        array: (ArrayKind, A),
        outcome: Result<A, E>,
    ) -> bool where D: Fn(A) -> Result<A, E>, S: Fn(A) -> A, B: Fn(A) -> A {
        match array.0 {
            ArrayKind::Dictionary => call_ensures(self.dictionary, (array.1,), outcome),
            ArrayKind::StringView => outcome matches Ok(a) && call_ensures(
                self.string_view,
                (array.1,),
                a,
            ),
            ArrayKind::BinaryView => outcome matches Ok(a) && call_ensures(
                self.binary_view,
                (array.1,),
                a,
            ),
            ArrayKind::Plain => outcome == Ok::<A, E>(array.1),
        }
    }

    /// Whether `out` may come of collecting the first of `arrays`.
    pub open spec fn collects_first<A, E>(
        &self,
        arrays: Seq<(ArrayKind, A)>,
        out: Seq<A>,
    ) -> bool where D: Fn(A) -> Result<A, E>, S: Fn(A) -> A, B: Fn(A) -> A {
        out.len() <= arrays.len() && forall|i: int|
            0 <= i < out.len() ==> self.collects(arrays[i], Ok::<A, E>(#[trigger] out[i]))
    }

    /// Whether `error` may come of collecting the one of `arrays` that comes after `out`.
    pub open spec fn fails_after<A, E>(
        &self,
        arrays: Seq<(ArrayKind, A)>,
        out: Seq<A>,
        error: E,
    ) -> bool where D: Fn(A) -> Result<A, E>, S: Fn(A) -> A, B: Fn(A) -> A {
        out.len() < arrays.len() && self.collects(arrays[out.len() as int], Err::<A, E>(error))
    }

    /// Whether `error` may come of one of `arrays`, after all those before it were collected.
    pub open spec fn fails<A, E>(&self, arrays: Seq<(ArrayKind, A)>, error: E) -> bool where
        D: Fn(A) -> Result<A, E>,
        S: Fn(A) -> A,
        B: Fn(A) -> A,
     {
        exists|out: Seq<A>| #[trigger]
            self.fails_after(arrays, out, error) && self.collects_first(arrays, out)
    }

    /// Whether `r` may come of collecting all of `arrays`.
    pub open spec fn collects_all<A, E>(
        &self,
        arrays: Seq<(ArrayKind, A)>,
        r: Result<Vec<A>, E>,
    ) -> bool where D: Fn(A) -> Result<A, E>, S: Fn(A) -> A, B: Fn(A) -> A {
        match r {
            Ok(out) => out@.len() == arrays.len() && self.collects_first(arrays, out@),
            Err(error) => self.fails::<A, E>(arrays, error),
        }
    }
}

/// Drops the values that nothing refers to from arrays that are about to be sent: unused entries
/// of dictionaries, and unused buffers behind views. Other arrays stay as they are. The first array
/// for which this fails decides.
pub fn garbage_collect_arrays<A, E, D: Fn(A) -> Result<A, E>, S: Fn(A) -> A, B: Fn(A) -> A>(
    arrays: Vec<(ArrayKind, A)>,
    collectors: &Collectors<D, S, B>,
) -> (r: Result<Vec<A>, E>)
    requires
        collectors.total::<A, E>(),
    ensures
        collectors.collects_all(arrays@, r),
{
    let mut out: Vec<A> = Vec::new();
    for array in rest: arrays
        invariant
            rest.seq() == arrays@,
            out@.len() == rest.index(),
            collectors.total::<A, E>(),
            collectors.collects_first::<A, E>(arrays@, out@),
    {
        let (kind, array) = array;
        match kind {
            ArrayKind::Dictionary => match (collectors.dictionary)(array) {
                Ok(array) => {
                    out.push(array);
                },
                Err(error) => {
                    assert(collectors.fails_after(arrays@, out@, error));
                    return Err(error);
                },
            },
            ArrayKind::StringView => {
                out.push((collectors.string_view)(array));
            },
            ArrayKind::BinaryView => {
                out.push((collectors.binary_view)(array));
            },
            ArrayKind::Plain => {
                out.push(array);
            },
        }
    }
    Ok(out)
}

/// Arrays that are about to be sent keep their number and their order. One that holds its values
/// as they are is sent as it is, and every other one is what its own collector returned. Where this
/// fails, the error is that of the collector of one of the dictionaries.
pub proof fn arrays_are_collected_one_by_one<
    A,
    E,
    D: Fn(A) -> Result<A, E>,
    S: Fn(A) -> A,
    B: Fn(A) -> A,
>(
    arrays: Vec<(ArrayKind, A)>,
    collectors: &Collectors<D, S, B>,
    r: Result<Vec<A>, E>,
)
    requires
        call_ensures(garbage_collect_arrays::<A, E, D, S, B>, (arrays, collectors), r),
    ensures
        match r {
            Ok(out) => out@.len() == arrays@.len() && forall|i: int|
                0 <= i < arrays@.len() ==> match (#[trigger] arrays@[i]).0 {
                    ArrayKind::Plain => out@[i] == arrays@[i].1,
                    ArrayKind::Dictionary => call_ensures(
                        collectors.dictionary,
                        (arrays@[i].1,),
                        Ok::<A, E>(out@[i]),
                    ),
                    ArrayKind::StringView => call_ensures(
                        collectors.string_view,
                        (arrays@[i].1,),
                        out@[i],
                    ),
                    ArrayKind::BinaryView => call_ensures(
                        collectors.binary_view,
                        (arrays@[i].1,),
                        out@[i],
                    ),
                },
            Err(error) => exists|i: int|
                0 <= i < arrays@.len() && (#[trigger] arrays@[i]).0 == ArrayKind::Dictionary
                    && call_ensures(collectors.dictionary, (arrays@[i].1,), Err::<A, E>(error)),
        },
{
    match r {
        Ok(out) => {
            assert forall|i: int| 0 <= i < arrays@.len() implies collectors.collects(
                #[trigger] arrays@[i],
                Ok::<A, E>(out@[i]),
            ) by {}
        },
        Err(error) => {
            let out = choose|out: Seq<A>| #[trigger]
                collectors.fails_after(arrays@, out, error) && collectors.collects_first::<A, E>(
                    arrays@,
                    out,
                );
            assert(arrays@[out.len() as int].0 == ArrayKind::Dictionary);
        },
    }
}

/// Record batches are compressed as their session asks for by name, for three names and no others;
/// any other name is refused and told.
pub proof fn compressions_are_known_by_name(
    name: &String,
    r: Result<Option<WireCompression>, RpcStatus>,
)
    requires
        call_ensures(wire_compression, (name,), r),
    ensures
        r is Ok <==> name@ == "lz4"@ || name@ == "zstd"@ || name@ == "none"@,
        name@ == "none"@ ==> r->Ok_0 is None,
        name@ == "lz4"@ ==> r->Ok_0 == Some(WireCompression::Lz4Frame),
        name@ == "zstd"@ ==> r->Ok_0 == Some(WireCompression::Zstd),
        r matches Err(status) ==> status.code == StatusCode::InvalidArgument && status.message@
            == "Unknown compression type "@ + name@,
{
    reveal_strlit("lz4");
    reveal_strlit("zstd");
    reveal_strlit("none");
    assert("lz4"@.len() == 3 && "zstd"@.len() == 4 && "none"@.len() == 4);
    assert("zstd"@[0] == 'z' && "none"@[0] == 'n');
}

/// An array that can be read in several ways is a dictionary before it is anything else, then text,
/// then bytes; one that can be read in none of these ways holds its values as they are. A stream
/// that breaks off ends with the status of the call that failed, or with an internal one that tells
/// the error.
pub proof fn arrays_and_failures_are_told_apart(
    as_dictionary: bool,
    as_string_view: bool,
    as_binary_view: bool,
    kind: ArrayKind,
    failure: StreamFailure,
    status: RpcStatus,
)
    requires
        call_ensures(array_kind, (as_dictionary, as_string_view, as_binary_view), kind),
        call_ensures(stream_failure_status, (failure,), status),
    ensures
        kind == ArrayKind::Dictionary <==> as_dictionary,
        kind == ArrayKind::StringView <==> !as_dictionary && as_string_view,
        kind == ArrayKind::BinaryView <==> !as_dictionary && !as_string_view && as_binary_view,
        kind == ArrayKind::Plain <==> !as_dictionary && !as_string_view && !as_binary_view,
        failure matches StreamFailure::Status(of_call) ==> status == of_call,
        failure matches StreamFailure::Other(error) ==> status.code == StatusCode::Internal
            && status.message@ == "Error during flight stream: "@ + error@,
{
}

/// The partitions that a request asks for are gone through one by one, from the first to the one
/// before the end, up to one that the plan does not have. A request has to name a task and a head.
pub proof fn requested_partitions_are_gone_through<H>(
    request: &ExecuteTaskRequest<H>,
    target: Result<(&TaskKey, &H), PlanError>,
    begun: RequestedPartitions,
    partitions: &mut RequestedPartitions,
    partition_count: usize,
    plan_name: &str,
    r: Option<Result<usize, PlanError>>,
    following: &mut RequestedPartitions,
    next: Option<Result<usize, PlanError>>,
)
    requires
        call_ensures(ExecuteTaskRequest::<H>::target, (request,), target),
        call_ensures(RequestedPartitions::of::<H>, (request,), begun),
        *partitions == begun,
        call_ensures(
            RequestedPartitions::advance,
            (partitions, partition_count, plan_name),
            r,
        ),
        *following == *final(partitions),
        call_ensures(
            RequestedPartitions::advance,
            (following, partition_count, plan_name),
            next,
        ),
    ensures
        target is Ok <==> request.task_key is Some && request.producer_head is Some,
        target matches Ok((key, head)) ==> Some(*key) == request.task_key && Some(*head)
            == request.producer_head,
        target matches Err(error) ==> error@ == crate::error::PlanErrorView::Internal(
            if request.task_key is None {
                "Missing task_key in LocalWorkerConnection"@
            } else {
                "Missing producer_head"@
            },
        ),
        r is None <==> request.target_partition_start >= request.target_partition_end,
        r matches Some(Ok(partition)) ==> partition == request.target_partition_start && partition
            < partition_count,
        r matches Some(Err(_)) ==> request.target_partition_start >= partition_count && (next
            matches Some(Err(_))),
        r matches Some(Ok(_)) ==> (next is None <==> request.target_partition_start + 1
            == request.target_partition_end) && (next matches Some(Ok(partition)) ==> partition
            == request.target_partition_start + 1),
{
}

} // verus!
