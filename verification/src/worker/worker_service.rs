//! The settings of a worker, and the withdrawal of plans from it.

use crate::messages::CancelPlanRequest;
use crate::status::{RpcStatus, StatusCode};
use crate::task_key::TaskKey;
use crate::worker::execute_task::PartitionCountdown;
use vstd::prelude::*;
use vstd::string::*;

verus! {

/// For how many seconds an unused task plan is kept.
pub const TASK_CACHE_TTI_SECS: u64 = 600;

/// For how many seconds the withdrawal of a plan is remembered, while nobody asks for it.
pub const CANCELLED_TASK_CACHE_TTI_SECS: u64 = 600;

/// A change of what a worker remembers.
#[derive(Debug)]
pub enum CacheOp {
    /// Remember that the plan of the task is withdrawn.
    MarkCancelled(TaskKey),
    /// Forget the plan of the task.
    Invalidate(TaskKey),
}

/// What a [`CacheOp`] says.
pub enum CacheOpView {
    MarkCancelled(crate::task_key::TaskKeyView),
    Invalidate(crate::task_key::TaskKeyView),
}

impl View for CacheOp {
    type V = CacheOpView;

    open spec fn view(&self) -> CacheOpView {
        match *self {
            CacheOp::MarkCancelled(key) => CacheOpView::MarkCancelled(key@),
            CacheOp::Invalidate(key) => CacheOpView::Invalidate(key@),
        }
    }
}

/// What `ops` say.
pub open spec fn op_views(ops: Seq<CacheOp>) -> Seq<CacheOpView> {
    ops.map_values(|op: CacheOp| op@)
}

/// What a worker remembers: the tasks whose plans it holds, and those whose plans are withdrawn.
pub struct WorkerMemory {
    pub plans: Set<crate::task_key::TaskKeyView>,
    pub cancelled: Set<crate::task_key::TaskKeyView>,
}

impl WorkerMemory {
    /// What is remembered once `op` is done.
    pub open spec fn after(self, op: CacheOpView) -> WorkerMemory {
        match op {
            CacheOpView::MarkCancelled(key) => WorkerMemory {
                cancelled: self.cancelled.insert(key),
                ..self
            },
            CacheOpView::Invalidate(key) => WorkerMemory { plans: self.plans.remove(key), ..self },
        }
    }

    /// What is remembered once all of `ops` are done.
    pub open spec fn after_all(self, ops: Seq<CacheOpView>) -> WorkerMemory
        decreases ops.len(),
    {
        if ops.len() == 0 {
            self
        } else {
            self.after_all(ops.drop_last()).after(ops.last())
        }
    }
}

/// The changes that withdraw the plan of `key`: the withdrawal is remembered before the plan is
/// forgotten.
pub open spec fn cancellation_ops(key: crate::task_key::TaskKeyView) -> Seq<CacheOpView> {
    seq![CacheOpView::MarkCancelled(key), CacheOpView::Invalidate(key)]
}

/// The message of a request that lacks a field.
pub open spec fn missing_text(field: Seq<char>) -> Seq<char> {
    "Missing field '"@ + field + "'"@
}

/// The status of a request that lacks a field.
pub fn missing(field: &str) -> (r: RpcStatus)
    ensures
        r@ == crate::status::plain_status(StatusCode::InvalidArgument, missing_text(field@)),
{
    let mut message = "Missing field '".to_string();
    message.append(field);
    message.append("'");
    RpcStatus::new(StatusCode::InvalidArgument, message)
}

/// The changes that withdraw the plan of `key`, in the order in which they are made.
pub fn cancel_published_plan(key: &TaskKey) -> (r: Vec<CacheOp>)
    ensures
        op_views(r@) == cancellation_ops(key@),
{
    let mut ops: Vec<CacheOp> = Vec::new();
    ops.push(CacheOp::MarkCancelled(key.clone()));
    ops.push(CacheOp::Invalidate(key.clone()));
    assert(op_views(ops@) =~= cancellation_ops(key@));
    ops
}

/// The changes that a request to withdraw a plan asks for. A request that names no task is
/// refused.
pub fn cancel_plan(request: CancelPlanRequest) -> (r: Result<Vec<CacheOp>, RpcStatus>)
    ensures
        match request.task_key {
            Some(key) => r matches Ok(ops) && op_views(ops@) == cancellation_ops(key@),
            None => r matches Err(status) && status@ == crate::status::plain_status(
                StatusCode::InvalidArgument,
                missing_text("task_key"@),
            ),
        },
{
    match request.task_key {
        Some(key) => Ok(cancel_published_plan(&key)),
        None => Err(missing("task_key")),
    }
}

/// A request to withdraw a plan is turned into two changes for the task that it names: first the
/// withdrawal is remembered, and then the plan is forgotten. A request that names no task is
/// refused, as any request is that lacks a field.
pub proof fn withdrawals_are_remembered_first(
    request: CancelPlanRequest,
    r: Result<Vec<CacheOp>, RpcStatus>,
    field: &str,
    refusal: RpcStatus,
)
    requires
        call_ensures(cancel_plan, (request,), r),
        call_ensures(missing, (field,), refusal),
    ensures
        refusal.code == StatusCode::InvalidArgument,
        refusal.message@ == "Missing field '"@ + field@ + "'"@,
        r is Ok <==> request.task_key is Some,
        r matches Ok(ops) ==> ops@.len() == 2 && (ops@[0] matches CacheOp::MarkCancelled(key)
            && key@ == request.task_key->0@) && (ops@[1] matches CacheOp::Invalidate(key) && key@
            == request.task_key->0@),
        r matches Err(status) ==> status.code == StatusCode::InvalidArgument && status.message@
            == "Missing field '"@ + "task_key"@ + "'"@,
{
    if let Ok(ops) = r {
        let views = op_views(ops@);
        assert(views.len() == ops@.len());
        assert(views[0] == ops@[0]@ && views[1] == ops@[1]@);
    }
}

/// A withdrawn plan is gone, its withdrawal is remembered, and nothing else changes, whether or
/// not the worker held the plan.
pub proof fn cancellation_withdraws_the_plan(
    memory: WorkerMemory,
    key: crate::task_key::TaskKeyView,
)
    ensures
        ({
            let after = memory.after_all(cancellation_ops(key));
            &&& !after.plans.contains(key)
            &&& after.cancelled.contains(key)
            &&& forall|other: crate::task_key::TaskKeyView|
                other != key ==> (#[trigger] after.plans.contains(other) <==> memory.plans.contains(
                    other,
                ))
            &&& forall|other: crate::task_key::TaskKeyView|
                other != key ==> (#[trigger] after.cancelled.contains(other)
                    <==> memory.cancelled.contains(other))
        }),
{
    let ops = cancellation_ops(key);
    assert(ops.drop_last() =~= seq![CacheOpView::MarkCancelled(key)]);
    assert(ops.drop_last().drop_last() =~= Seq::<CacheOpView>::empty());
    reveal_with_fuel(WorkerMemory::after_all, 3);
}

/// Withdrawing a plan twice is the same as withdrawing it once.
pub proof fn cancellation_is_idempotent(memory: WorkerMemory, key: crate::task_key::TaskKeyView)
    ensures
        memory.after_all(cancellation_ops(key)).after_all(cancellation_ops(key))
            == memory.after_all(cancellation_ops(key)),
{
    let once = memory.after_all(cancellation_ops(key));
    let twice = once.after_all(cancellation_ops(key));
    cancellation_withdraws_the_plan(memory, key);
    cancellation_withdraws_the_plan(once, key);
    assert(twice.plans =~= once.plans);
    assert(twice.cancelled =~= once.cancelled);
}

/// Callbacks of type `H` that a worker applies to every plan that it receives, in this order.
pub struct WorkerHooks<H> {
    pub on_plan: Vec<H>,
}

/// The settings of a worker with a runtime of type `R`, a session builder of type `S` and
/// callbacks of type `H`.
pub struct Worker<R, S, H> {
    /// Used in all queries.
    pub runtime: R,
    /// Builds the session of every query.
    pub session_builder: S,
    /// Applied to every plan that is received.
    pub hooks: WorkerHooks<H>,
    /// Largest size of a chunk of data.
    pub max_message_size: Option<usize>,
    /// Version that the worker reports.
    pub version: String,
}

/// The largest sizes of the messages that a server accepts and sends.
#[derive(Clone, Copy, Debug, PartialEq, Eq, Structural)]
pub struct MessageLimits {
    /// Largest message that is accepted.
    pub max_decoding_message_size: usize,
    /// Largest message that is sent.
    pub max_encoding_message_size: usize,
}

/// Whether applying `hooks` one after the other may turn the first of `plans` into the last.
pub open spec fn hooked<P, H: Fn(P) -> P>(hooks: Seq<H>, plans: Seq<P>) -> bool {
    &&& plans.len() == hooks.len() + 1
    &&& forall|i: int|
        0 <= i < hooks.len() ==> call_ensures(#[trigger] hooks[i], (plans[i],), plans[i + 1])
}

impl<H> WorkerHooks<H> {
    /// Applies all callbacks to a plan, each to what the one before it returned.
    pub fn apply_on_plan<P>(&self, plan: P) -> (r: P) where H: Fn(P) -> P
        requires
            forall|i: int, p: P|
                0 <= i < self.on_plan@.len() ==> #[trigger] call_requires(self.on_plan@[i], (p,)),
        ensures
            exists|plans: Seq<P>| #[trigger]
                hooked(self.on_plan@, plans) && plans[0] == plan && plans.last() == r,
    {
        let mut current = plan;
        let ghost mut plans: Seq<P> = seq![plan];
        let mut i: usize = 0;
        while i < self.on_plan.len()
            invariant
                i <= self.on_plan@.len(),
                forall|i: int, p: P|
                    0 <= i < self.on_plan@.len() ==> #[trigger] call_requires(
                        self.on_plan@[i],
                        (p,),
                    ),
                plans.len() == i + 1,
                plans[0] == plan,
                plans.last() == current,
                forall|k: int|
                    0 <= k < i ==> call_ensures(
                        #[trigger] self.on_plan@[k],
                        (plans[k],),
                        plans[k + 1],
                    ),
            decreases self.on_plan@.len() - i,
        {
            let hook = &self.on_plan[i];
            assert(call_requires(self.on_plan@[i as int], (current,)));
            let ghost before = current;
            current = hook(current);
            proof {
                assert(call_ensures(self.on_plan@[i as int], (before,), current));
                plans = plans.push(current);
            }
            i += 1;
        }
        assert(hooked(self.on_plan@, plans));
        current
    }
}

/// A plan that was received, ready to be executed.
pub struct ReceivedPlan<P> {
    /// The plan, after all callbacks.
    pub base_plan: P,
    /// How many of its partitions have not ended yet.
    pub countdown: PartitionCountdown,
}

/// Whether `received` may come of `node`: all of `hooks` were applied in order to what `into_plan`
/// makes of the node, and the partitions of the last plan are counted.
pub open spec fn receives<N, P, E, H: Fn(P) -> P, I: Fn(N) -> Result<P, E>, C: Fn(&P) -> usize>(
    hooks: Seq<H>,
    node: N,
    into_plan: I,
    partition_count: C,
    received: ReceivedPlan<P>,
) -> bool {
    &&& exists|plans: Seq<P>| #[trigger]
        hooked(hooks, plans) && call_ensures(into_plan, (node,), Ok::<P, E>(plans[0]))
            && plans.last() == received.base_plan
    &&& call_ensures(partition_count, (&received.base_plan,), received.countdown.remaining())
}

impl<H> WorkerHooks<H> {
    /// Turns a decoded plan into one that can be executed, and applies all callbacks to it. A plan
    /// that `into_plan` refuses ends this with the error.
    pub fn receive_plan<N, P, E, I: Fn(N) -> Result<P, E>, C: Fn(&P) -> usize>(
        &self,
        node: N,
        into_plan: I,
        partition_count: C,
    ) -> (r: Result<ReceivedPlan<P>, E>) where H: Fn(P) -> P
        requires
            forall|node: N| #[trigger] call_requires(into_plan, (node,)),
            forall|plan: &P| #[trigger] call_requires(partition_count, (plan,)),
            forall|i: int, p: P|
                0 <= i < self.on_plan@.len() ==> #[trigger] call_requires(self.on_plan@[i], (p,)),
        ensures
            match r {
                Err(error) => call_ensures(into_plan, (node,), Err::<P, E>(error)),
                Ok(received) => receives::<N, P, E, H, I, C>(
                    self.on_plan@,
                    node,
                    into_plan,
                    partition_count,
                    received,
                ),
            },
    {
        let plan = match into_plan(node) {
            Ok(plan) => plan,
            Err(error) => {
                return Err(error);
            },
        };
        let base_plan = self.apply_on_plan(plan);
        let countdown = PartitionCountdown::new(partition_count(&base_plan));
        Ok(ReceivedPlan { base_plan, countdown })
    }
}

/// The plan that a worker executes for a request is what its callbacks, in the order in which they
/// were added, make of the plan that the bytes of the request are read as, and all of its
/// partitions are waited for.
pub proof fn received_plans_pass_every_hook<
    P,
    H: Fn(P) -> P,
    I: Fn(datafusion_proto::protobuf::PhysicalPlanNode) -> Result<
        P,
        datafusion::error::DataFusionError,
    >,
    C: Fn(&P) -> usize,
>(
    hooks: Seq<H>,
    build: crate::worker::coordinator_channel::TaskBuild,
    key: crate::task_key::TaskKeyView,
    request: crate::messages::SetPlanRequest,
    into_plan: I,
    partition_count: C,
    received: ReceivedPlan<P>,
)
    requires
        crate::worker::coordinator_channel::builds(build, key, request),
        build.plan matches Ok(node) && receives::<
            datafusion_proto::protobuf::PhysicalPlanNode,
            P,
            datafusion::error::DataFusionError,
            H,
            I,
            C,
        >(hooks, node, into_plan, partition_count, received),
    ensures
        crate::worker::plan_proto::decoded_plan(request.plan_proto@) matches Some(node)
            && exists|plans: Seq<P>| #[trigger]
            hooked(hooks, plans) && call_ensures(
                into_plan,
                (node,),
                Ok::<P, datafusion::error::DataFusionError>(plans[0]),
            ) && plans.last() == received.base_plan,
        call_ensures(partition_count, (&received.base_plan,), received.countdown.remaining()),
{
}

impl<R, S, H> Worker<R, S, H> {
    /// The largest size of the chunks of data that results are encoded with.
    pub open spec fn encoding_size(&self) -> usize {
        match self.max_message_size {
            Some(size) => size,
            None => usize::MAX,
        }
    }

    /// A worker with this session builder: without callbacks or version, and with chunks of any
    /// size.
    pub fn from_session_builder(session_builder: S, runtime: R) -> (r: Self)
        ensures
            r.session_builder == session_builder,
            r.runtime == runtime,
            r.hooks.on_plan@.len() == 0,
            r.max_message_size == Some(usize::MAX),
            r.version@ == ""@,
    {
        Worker {
            runtime,
            session_builder,
            hooks: WorkerHooks { on_plan: Vec::new() },
            max_message_size: Some(usize::MAX),
            version: "".to_string(),
        }
    }

    /// Uses this runtime in all queries.
    pub fn with_runtime_env(self, runtime_env: R) -> (r: Self)
        ensures
            r == (Worker { runtime: runtime_env, ..self }),
    {
        Worker { runtime: runtime_env, ..self }
    }

    /// Applies one more callback to every plan, after those that were added before.
    pub fn add_on_plan_hook(&mut self, hook: H)
        ensures
            final(self).hooks.on_plan@ == old(self).hooks.on_plan@.push(hook),
            final(self).runtime == old(self).runtime,
            final(self).session_builder == old(self).session_builder,
            final(self).max_message_size == old(self).max_message_size,
            final(self).version == old(self).version,
    {
        self.hooks.on_plan.push(hook);
    }

    /// Sets the largest size of a chunk of data that results are encoded with.
    pub fn with_max_message_size(self, size: usize) -> (r: Self)
        ensures
            r == (Worker { max_message_size: Some(size), ..self }),
            r.encoding_size() == size,
    {
        Worker { max_message_size: Some(size), ..self }
    }

    /// The largest size of the chunks of data that results are encoded with.
    pub fn flight_data_size(&self) -> (r: usize)
        ensures
            r == self.encoding_size(),
    {
        match self.max_message_size {
            Some(size) => size,
            None => usize::MAX,
        }
    }

    /// Sets the version that the worker reports.
    pub fn with_version(self, version: String) -> (r: Self)
        ensures
            r == (Worker { version, ..self }),
    {
        Worker { version, ..self }
    }

    /// The version that the worker reports.
    pub fn get_worker_info(&self) -> (r: String)
        ensures
            r@ == self.version@,
    {
        self.version.clone()
    }
}

/// The limits of the server of a worker: none, for traffic between parts of one system.
pub fn worker_server_limits() -> (r: MessageLimits)
    ensures
        r.max_decoding_message_size == usize::MAX,
        r.max_encoding_message_size == usize::MAX,
{
    MessageLimits { max_decoding_message_size: usize::MAX, max_encoding_message_size: usize::MAX }
}

/// The plan that a worker is ready to execute is what comes of applying every callback, in the
/// order in which they were added, to what is made of the node: the first to that plan itself, and
/// each other one to what the one before it returned. Its partitions are counted after the last.
/// Where no plan can be made of the node, that error is passed on.
pub proof fn every_hook_is_applied_in_order<
    N,
    P,
    E,
    H: Fn(P) -> P,
    I: Fn(N) -> Result<P, E>,
    C: Fn(&P) -> usize,
>(
    hooks: &WorkerHooks<H>,
    node: N,
    into_plan: I,
    partition_count: C,
    r: Result<ReceivedPlan<P>, E>,
)
    requires
        call_ensures(
            WorkerHooks::<H>::receive_plan::<N, P, E, I, C>,
            (hooks, node, into_plan, partition_count),
            r,
        ),
    ensures
        match r {
            Err(error) => call_ensures(into_plan, (node,), Err::<P, E>(error)),
            Ok(received) => call_ensures(
                partition_count,
                (&received.base_plan,),
                received.countdown.remaining(),
            ) && exists|plans: Seq<P>|
                plans.len() == hooks.on_plan@.len() + 1 && call_ensures(
                    into_plan,
                    (node,),
                    Ok::<P, E>(#[trigger] plans[0]),
                ) && plans[hooks.on_plan@.len() as int] == received.base_plan && forall|i: int|
                    0 <= i < hooks.on_plan@.len() ==> call_ensures(
                        #[trigger] hooks.on_plan@[i],
                        (plans[i],),
                        plans[i + 1],
                    ),
        },
{
    if let Ok(received) = r {
        let plans = choose|plans: Seq<P>| #[trigger]
            hooked(hooks.on_plan@, plans) && call_ensures(
                into_plan,
                (node,),
                Ok::<P, E>(plans[0]),
            ) && plans.last() == received.base_plan;
        assert(call_ensures(into_plan, (node,), Ok::<P, E>(plans[0])));
    }
}

/// The size of the chunks that results are encoded with is the one that was set last, and any size
/// where none was.
pub proof fn chunks_have_the_size_that_was_set<R, S, H>(
    session_builder: S,
    runtime: R,
    made: Worker<R, S, H>,
    made_size: usize,
    size: usize,
    sized: Worker<R, S, H>,
    sized_size: usize,
)
    requires
        call_ensures(
            Worker::<R, S, H>::from_session_builder,
            (session_builder, runtime),
            made,
        ),
        call_ensures(Worker::<R, S, H>::flight_data_size, (&made,), made_size),
        call_ensures(Worker::<R, S, H>::with_max_message_size, (made, size), sized),
        call_ensures(Worker::<R, S, H>::flight_data_size, (&sized,), sized_size),
    ensures
        made_size == usize::MAX,
        sized_size == size,
{
}

/// A worker reports the version that was set last and uses the runtime that was set last, and
/// applies callbacks in the order in which they were added. Setting one thing changes no other.
pub proof fn settings_are_kept_apart<R, S, H>(
    worker: Worker<R, S, H>,
    version: String,
    versioned: Worker<R, S, H>,
    reported: String,
    runtime: R,
    rerun: Worker<R, S, H>,
    hooked_up: &mut Worker<R, S, H>,
    hook: H,
)
    requires
        call_ensures(Worker::<R, S, H>::with_version, (worker, version), versioned),
        call_ensures(Worker::<R, S, H>::get_worker_info, (&versioned,), reported),
        call_ensures(Worker::<R, S, H>::with_runtime_env, (versioned, runtime), rerun),
        *hooked_up == rerun,
        call_ensures(Worker::<R, S, H>::add_on_plan_hook, (hooked_up, hook), ()),
    ensures
        reported@ == version@,
        rerun.runtime == runtime,
        rerun.version@ == version@,
        rerun.session_builder == worker.session_builder,
        rerun.max_message_size == worker.max_message_size,
        rerun.hooks == worker.hooks,
        final(hooked_up).hooks.on_plan@ == worker.hooks.on_plan@.push(hook),
        final(hooked_up).version@ == version@,
        final(hooked_up).runtime == runtime,
        final(hooked_up).session_builder == worker.session_builder,
        final(hooked_up).max_message_size == worker.max_message_size,
{
}

} // verus!
