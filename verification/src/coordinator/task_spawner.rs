//! The tasks that carry the conversation between the coordinator and the workers of one stage.

use crate::coordinator::publication::{PlanCancellation, PlanPublication, PublicationTask};
use crate::ids::serialize_uuid;
use crate::messages::{
    SetPlanRequest, TaskMetrics, WorkUnit, WorkUnitFeedDeclaration, WorkerToCoordinator,
    WorkerToCoordinatorMsg,
};
use crate::task_key::TaskKey;
use std::collections::hash_map::DefaultHasher;
use std::hash::{Hash, Hasher};
use vstd::prelude::*;
use vstd::std_specs::hash::DefaultHasherAdditionalSpecFns;
use vstd::string::*;

verus! {

/// How many work units may be chunked together into one message, where they are ready at the
/// same time.
pub const WORK_UNIT_FEED_CHUNK_SIZE: usize = 256;

/// A stage whose plan is still held by the coordinator.
#[derive(Clone, Copy, Debug, PartialEq, Eq, Structural)]
pub struct LocalStage {
    /// The query that the stage belongs to.
    pub query_id: u128,
    /// Number of the stage inside the query.
    pub num: usize,
    /// Number of tasks that execute the stage.
    pub tasks: usize,
}

/// The place of a task inside its stage.
#[derive(Clone, Copy, Debug, PartialEq, Eq, Structural)]
pub struct DistributedTaskContext {
    /// Number of the task.
    pub task_index: usize,
    /// Number of tasks of the stage.
    pub task_count: usize,
}

/// The kinds of plan nodes that are told apart when a plan is specialized for one task.
#[derive(Clone, Copy, Debug, PartialEq, Eq, Structural)]
pub enum PlanNodeKind {
    /// A union that runs each child in some of the tasks.
    ChildrenIsolatorUnion,
    /// A leaf that has a variant for each task.
    DistributedLeaf,
    /// Any other node.
    Other,
}

/// What becomes of a plan node when a plan is specialized for one task.
#[derive(Clone, Copy, Debug, PartialEq, Eq, Structural)]
pub enum Specialization {
    /// Replace the union by its specialization for the task.
    SpecializeUnion(usize),
    /// Replace the leaf by its variant for the task.
    SpecializeLeaf(usize),
    /// Keep the node.
    Keep,
}

/// Whether `declaration` announces the feed `id` with this many partitions.
pub open spec fn declares(
    declaration: WorkUnitFeedDeclaration,
    id: u128,
    partitions: usize,
) -> bool {
    declaration.id@ == crate::ids::id_bytes(id) && declaration.partitions == partitions
}

/// Visits one node of a plan that is specialized for one task: a node with a work unit feed is
/// declared, and unions and leaves that are shared between tasks are specialized. `task_index`
/// is the number of the task at that node.
pub fn specialize_node(
    declarations: &mut Vec<WorkUnitFeedDeclaration>,
    feed: Option<u128>,
    partitions: usize,
    kind: PlanNodeKind,
    task_index: usize,
) -> (r: Specialization)
    ensures
        r == (match kind {
            PlanNodeKind::ChildrenIsolatorUnion => Specialization::SpecializeUnion(task_index),
            PlanNodeKind::DistributedLeaf => Specialization::SpecializeLeaf(task_index),
            PlanNodeKind::Other => Specialization::Keep,
        }),
        feed is None ==> final(declarations)@ == old(declarations)@,
        feed matches Some(id) ==> final(declarations)@.len() == old(declarations)@.len() + 1
            && final(declarations)@.drop_last() == old(declarations)@ && declares(
            final(declarations)@.last(),
            id,
            partitions,
        ),
{
    if let Some(id) = feed {
        declarations.push(
            WorkUnitFeedDeclaration { id: serialize_uuid(id), partitions: partitions as u64 },
        );
        assert(declarations@.drop_last() =~= old(declarations)@);
    }
    match kind {
        PlanNodeKind::ChildrenIsolatorUnion => Specialization::SpecializeUnion(task_index),
        PlanNodeKind::DistributedLeaf => Specialization::SpecializeLeaf(task_index),
        PlanNodeKind::Other => Specialization::Keep,
    }
}

/// A node with a feed adds one declaration behind those that are there, with the identifier and
/// the number of partitions of its own feed; a node without one adds nothing. Only unions and
/// leaves that tasks share are specialized, for the task that they are visited for.
pub proof fn nodes_are_specialized_for_their_task(
    declarations: &mut Vec<WorkUnitFeedDeclaration>,
    feed: Option<u128>,
    partitions: usize,
    kind: PlanNodeKind,
    task_index: usize,
    r: Specialization,
)
    requires
        call_ensures(
            specialize_node,
            (declarations, feed, partitions, kind, task_index),
            r,
        ),
    ensures
        r == Specialization::Keep <==> kind == PlanNodeKind::Other,
        r == Specialization::SpecializeUnion(task_index) <==> kind
            == PlanNodeKind::ChildrenIsolatorUnion,
        r == Specialization::SpecializeLeaf(task_index) <==> kind == PlanNodeKind::DistributedLeaf,
        final(declarations)@.len() == old(declarations)@.len() + if feed is Some {
            1int
        } else {
            0
        },
        forall|i: int|
            0 <= i < old(declarations)@.len() ==> #[trigger] final(declarations)@[i]
                == old(declarations)@[i],
        feed matches Some(id) ==> final(declarations)@.last().id@ == crate::ids::id_bytes(id)
            && final(declarations)@.last().partitions == partitions,
{
    if feed is Some {
        assert forall|i: int|
            0 <= i < old(declarations)@.len() implies #[trigger] final(declarations)@[i]
            == old(declarations)@[i] by {
            assert(final(declarations)@.drop_last()[i] == old(declarations)@[i]);
        }
    }
}

/// The writes that the `Hash` implementation of `Vec<u8>` makes for a vector of these bytes, on a
/// machine with words of so many bits and with this byte order.
pub uninterp spec fn byte_vec_writes(
    bytes: Seq<u8>,
    word_bits: nat,
    little_endian: bool,
) -> Seq<Seq<u8>>;

/// Feeds `bytes` to a hasher with the `Hash` implementation of `Vec<u8>`: it adds writes that
/// depend on the bytes, on the word size and on the byte order of the machine alone.
#[verifier::external_body]
fn hash_bytes(bytes: &Vec<u8>, hasher: &mut DefaultHasher)
    ensures
        exists|little_endian: bool|
            final(hasher)@ == old(hasher)@ + #[trigger] byte_vec_writes(
                bytes@,
                usize::BITS as nat,
                little_endian,
            ),
{
    bytes.hash(hasher)
}

/// Whether `fingerprint` is the digest of these bytes, on a machine of either byte order.
pub open spec fn is_fingerprint(bytes: Seq<u8>, fingerprint: u64) -> bool {
    exists|little_endian: bool|
        fingerprint == DefaultHasher::spec_finish(
            #[trigger] byte_vec_writes(bytes, usize::BITS as nat, little_endian),
        )
}

/// A fingerprint of an encoded plan, for those who read the messages about it: the digest of its
/// bytes.
pub fn plan_fingerprint(plan_proto: &Vec<u8>) -> (r: u64)
    ensures
        is_fingerprint(plan_proto@, r),
{
    let mut hasher = DefaultHasher::new();
    hash_bytes(plan_proto, &mut hasher);
    proof {
        let little_endian = choose|little_endian: bool|
            hasher@ == Seq::<Seq<u8>>::empty() + #[trigger] byte_vec_writes(
                plan_proto@,
                usize::BITS as nat,
                little_endian,
            );
        assert(hasher@ =~= byte_vec_writes(plan_proto@, usize::BITS as nat, little_endian));
    }
    hasher.finish()
}

/// A task plan that is ready to be sent to its worker.
pub struct PlanTask {
    /// The first message on the stream to the worker.
    pub request: SetPlanRequest,
    /// The publication of the plan.
    pub publication: PublicationTask,
    /// The withdrawal of the plan.
    pub cancellation: PlanCancellation,
}

/// Builds the tasks that carry the conversation between the coordinator and the workers of one
/// stage.
pub struct CoordinatorToWorkerTaskSpawner {
    query_id: u128,
    stage_id: usize,
    task_count: usize,
    query_start_time_ns: u64,
}

/// What a task asks of a feed.
#[derive(Debug)]
pub struct TaskFeeds {
    /// The partitions of the feed that the task reads.
    pub slots: Vec<FeedSlot>,
    /// Number of tasks that the feed is shared out among.
    pub fan_out_tasks: usize,
}

/// What is noted about the metrics of a task.
#[derive(Debug)]
pub enum MetricsFiling<M> {
    /// File these metrics of the task.
    File { key: TaskKey, metrics: TaskMetrics<M> },
    /// Note that no more metrics of the task will come.
    Close(TaskKey),
    /// Nothing.
    Nothing,
}

/// A partition of a feed in one task, and the number of that partition over all tasks.
#[derive(Clone, Copy, Debug, PartialEq, Eq, Structural)]
pub struct FeedSlot {
    /// Number of the partition inside the task.
    pub partition: usize,
    /// Number of the partition over all tasks.
    pub feed_index: usize,
}

/// The key of a task.
pub open spec fn stage_task_key(
    query_id: u128,
    stage_id: usize,
    task_i: usize,
) -> crate::task_key::TaskKeyView {
    crate::task_key::TaskKeyView {
        query_id: crate::ids::id_bytes(query_id),
        stage_id: stage_id as u64,
        task_number: task_i as u64,
    }
}

/// The key of a task.
pub(crate) fn make_task_key(query_id: u128, stage_id: usize, task_i: usize) -> (r: TaskKey)
    ensures
        r@ == stage_task_key(query_id, stage_id, task_i),
{
    TaskKey {
        query_id: serialize_uuid(query_id),
        stage_id: stage_id as u64,
        task_number: task_i as u64,
    }
}

impl CoordinatorToWorkerTaskSpawner {
    /// The stage that is fanned out.
    pub closed spec fn stage(&self) -> LocalStage {
        LocalStage { query_id: self.query_id, num: self.stage_id, tasks: self.task_count }
    }

    /// When the query started.
    pub closed spec fn query_start_time_ns(&self) -> u64 {
        self.query_start_time_ns
    }

    /// The key of one task of the stage.
    pub open spec fn key_of(&self, task_i: usize) -> crate::task_key::TaskKeyView {
        stage_task_key(self.stage().query_id, self.stage().num, task_i)
    }

    /// Prepares to fan a stage out to its workers.
    pub fn new(stage: &LocalStage, query_start_time_ns: u64) -> (r: Self)
        ensures
            r.stage() == *stage,
            r.query_start_time_ns() == query_start_time_ns,
    {
        CoordinatorToWorkerTaskSpawner {
            query_id: stage.query_id,
            stage_id: stage.num,
            task_count: stage.tasks,
            query_start_time_ns,
        }
    }

    /// The key of one task of the stage.
    pub fn task_key(&self, task_i: usize) -> (r: TaskKey)
        ensures
            r@ == self.key_of(task_i),
    {
        make_task_key(self.query_id, self.stage_id, task_i)
    }

    /// The place of one task in the stage.
    pub fn task_context(&self, task_i: usize) -> (r: DistributedTaskContext)
        ensures
            r == (DistributedTaskContext { task_index: task_i, task_count: self.stage().tasks }),
    {
        DistributedTaskContext { task_index: task_i, task_count: self.task_count }
    }

    /// Whether `task` carries this plan of task `task_i` to the worker at `url`.
    pub open spec fn carries(
        &self,
        task: PlanTask,
        task_i: usize,
        url: Seq<char>,
        plan_proto: Seq<u8>,
        declarations: Seq<WorkUnitFeedDeclaration>,
        plan_fingerprint: u64,
    ) -> bool {
        &&& task.request.plan_proto@ == plan_proto
        &&& task.request.task_count == self.stage().tasks
        &&& task.request.task_key matches Some(key) && key@ == self.key_of(task_i)
        &&& task.request.work_unit_feed_declarations@ == declarations
        &&& task.request.target_worker_url@ == url
        &&& task.request.query_start_time_ns == self.query_start_time_ns()
        &&& task.publication.publication().task_key@ == self.key_of(task_i)
        &&& task.publication.publication().plan_fingerprint == plan_fingerprint
        &&& task.publication.publication().worker@ == url
        &&& task.publication.plan_size() == plan_proto.len()
        &&& task.publication.phase()
            == crate::coordinator::publication::PublicationPhase::Publishing
        &&& task.cancellation.task_key@ == self.key_of(task_i)
        &&& task.cancellation.url@ == url
    }

    /// Addresses the encoded plan of task `task_i`, whose fingerprint is known, to the worker at
    /// `url`.
    pub fn plan_task(
        &self,
        task_i: usize,
        url: String,
        plan_proto: Vec<u8>,
        work_unit_feed_declarations: Vec<WorkUnitFeedDeclaration>,
        plan_fingerprint: u64,
    ) -> (r: PlanTask)
        ensures
            self.carries(
                r,
                task_i,
                url@,
                plan_proto@,
                work_unit_feed_declarations@,
                plan_fingerprint,
            ),
    {
        let task_key = self.task_key(task_i);
        let publication = PlanPublication {
            task_key: task_key.clone(),
            plan_fingerprint,
            worker: url.clone(),
        };
        let cancellation = PlanCancellation { task_key: task_key.clone(), url: url.clone() };
        let plan_size: usize = plan_proto.len();
        PlanTask {
            request: SetPlanRequest {
                plan_proto,
                task_count: self.task_count as u64,
                task_key: Some(task_key),
                work_unit_feed_declarations,
                target_worker_url: url,
                query_start_time_ns: self.query_start_time_ns,
            },
            publication: PublicationTask::new(publication, plan_size),
            cancellation,
        }
    }

    /// Addresses the encoded plan of task `task_i` to the worker at `url`, under the fingerprint
    /// of its bytes.
    pub fn send_plan_task(
        &self,
        task_i: usize,
        url: String,
        plan_proto: Vec<u8>,
        work_unit_feed_declarations: Vec<WorkUnitFeedDeclaration>,
    ) -> (r: PlanTask)
        ensures
            exists|fingerprint: u64| #[trigger]
                self.carries(
                    r,
                    task_i,
                    url@,
                    plan_proto@,
                    work_unit_feed_declarations@,
                    fingerprint,
                ) && is_fingerprint(plan_proto@, fingerprint),
    {
        let fingerprint: u64 = plan_fingerprint(&plan_proto);
        self.plan_task(task_i, url, plan_proto, work_unit_feed_declarations, fingerprint)
    }

    /// What follows when the worker of task `task_i` says `message`, or has closed its channel:
    /// nothing when no metrics are collected, or when the worker says something else.
    pub fn metrics_collection_task<M>(
        &self,
        task_i: usize,
        message: Option<WorkerToCoordinatorMsg<M>>,
        collecting: bool,
    ) -> (r: MetricsFiling<M>)
        ensures
            if !collecting {
                r is Nothing
            } else {
                match message {
                    None => r matches MetricsFiling::Close(key) && key@ == self.key_of(task_i),
                    Some(message) => match message.inner {
                        Some(WorkerToCoordinator::TaskMetrics(reported)) =>
                        r matches MetricsFiling::File { key, metrics } && key@ == self.key_of(
                            task_i,
                        ) && metrics == reported,
                        None => r is Nothing,
                    },
                }
            },
    {
        if !collecting {
            return MetricsFiling::Nothing;
        }
        match message {
            None => MetricsFiling::Close(self.task_key(task_i)),
            Some(message) => match message.inner {
                Some(WorkerToCoordinator::TaskMetrics(metrics)) => MetricsFiling::File {
                    key: self.task_key(task_i),
                    metrics,
                },
                None => MetricsFiling::Nothing,
            },
        }
    }
}

/// What goes to the worker of a task, and what is kept about it: the plan and the feeds as they
/// are, the number of tasks, the key of the task in the request, in the publication and in the
/// withdrawal alike, the address of the worker in all three, and the digest of the whole plan.
pub proof fn plan_tasks_carry_what_they_are_given(
    stage: &LocalStage,
    query_start_time_ns: u64,
    spawner: CoordinatorToWorkerTaskSpawner,
    task_i: usize,
    url: String,
    plan_proto: Vec<u8>,
    declarations: Vec<WorkUnitFeedDeclaration>,
    r: PlanTask,
)
    requires
        call_ensures(
            CoordinatorToWorkerTaskSpawner::new,
            (stage, query_start_time_ns),
            spawner,
        ),
        call_ensures(
            CoordinatorToWorkerTaskSpawner::send_plan_task,
            (&spawner, task_i, url, plan_proto, declarations),
            r,
        ),
    ensures
        r.request.plan_proto@ == plan_proto@,
        r.request.task_count == stage.tasks,
        r.request.work_unit_feed_declarations@ == declarations@,
        r.request.target_worker_url@ == url@,
        r.request.query_start_time_ns == query_start_time_ns,
        r.request.task_key matches Some(key) && key.query_id@ == crate::ids::id_bytes(
            stage.query_id,
        ) && key.stage_id == stage.num && key.task_number == task_i && key@
            == r.publication.publication().task_key@ && key@ == r.cancellation.task_key@,
        r.publication.publication().worker@ == url@,
        r.publication.plan_size() == plan_proto@.len(),
        r.cancellation.url@ == url@,
        exists|little_endian: bool|
            r.publication.publication().plan_fingerprint == DefaultHasher::spec_finish(
                #[trigger] byte_vec_writes(plan_proto@, usize::BITS as nat, little_endian),
            ),
{
    let fingerprint = choose|fingerprint: u64| #[trigger]
        spawner.carries(r, task_i, url@, plan_proto@, declarations@, fingerprint)
            && is_fingerprint(plan_proto@, fingerprint);
}

/// What is known about a task is the same wherever it is asked for: its key names its query, its
/// stage and its own number, and its place is that number among all tasks of the stage.
pub proof fn tasks_are_named_by_their_stage<M>(
    stage: &LocalStage,
    query_start_time_ns: u64,
    spawner: CoordinatorToWorkerTaskSpawner,
    task_i: usize,
    key: TaskKey,
    context: DistributedTaskContext,
    message: Option<WorkerToCoordinatorMsg<M>>,
    collecting: bool,
    filing: MetricsFiling<M>,
)
    requires
        call_ensures(
            CoordinatorToWorkerTaskSpawner::new,
            (stage, query_start_time_ns),
            spawner,
        ),
        call_ensures(CoordinatorToWorkerTaskSpawner::task_key, (&spawner, task_i), key),
        call_ensures(CoordinatorToWorkerTaskSpawner::task_context, (&spawner, task_i), context),
        call_ensures(
            CoordinatorToWorkerTaskSpawner::metrics_collection_task::<M>,
            (&spawner, task_i, message, collecting),
            filing,
        ),
    ensures
        key.query_id@ == crate::ids::id_bytes(stage.query_id),
        key.stage_id == stage.num,
        key.task_number == task_i,
        context.task_index == task_i,
        context.task_count == stage.tasks,
        !collecting ==> filing is Nothing,
        collecting && message is None ==> (filing matches MetricsFiling::Close(closed) && closed@
            == key@),
        collecting ==> (message matches Some(said) ==> match said.inner {
            Some(WorkerToCoordinator::TaskMetrics(reported)) =>
            filing matches MetricsFiling::File { key: filed, metrics } && filed@ == key@ && metrics
                == reported,
            None => filing is Nothing,
        }),
{
}

/// The partitions that a feed with so many partitions per task has in one task: a run of
/// consecutive numbers over all tasks, in order.
pub open spec fn feed_slots(partitions: usize, task_index: usize) -> Seq<FeedSlot> {
    Seq::new(
        partitions as nat,
        |p: int|
            FeedSlot {
                partition: p as usize,
                feed_index: (partitions * task_index + p) as usize,
            },
    )
}

/// What a task asks of a feed with `partitions` partitions per task: its own run of partitions, out
/// of those of all tasks.
pub fn work_unit_feed_task(partitions: usize, context: DistributedTaskContext) -> (r: TaskFeeds)
    requires
        partitions * context.task_index + partitions <= usize::MAX,
    ensures
        r.slots@ == feed_slots(partitions, context.task_index),
        r.slots@.len() == partitions,
        r.fan_out_tasks == context.task_count,
{
    let task_index: usize = context.task_index;
    assert(0 <= partitions * task_index) by (nonlinear_arith);
    let start_partition: usize = partitions * task_index;
    let mut slots: Vec<FeedSlot> = Vec::new();
    let mut partition: usize = 0;
    while partition < partitions
        invariant
            partition <= partitions,
            start_partition == partitions * task_index,
            start_partition + partitions <= usize::MAX,
            slots@ == feed_slots(partitions, task_index).take(partition as int),
        decreases partitions - partition,
    {
        slots.push(FeedSlot { partition, feed_index: start_partition + partition });
        partition += 1;
        assert(slots@ =~= feed_slots(partitions, task_index).take(partition as int));
    }
    assert(slots@ =~= feed_slots(partitions, task_index));
    TaskFeeds { slots, fan_out_tasks: context.task_count }
}

proof fn lemma_slots_in_range(partitions: usize, tasks: usize, task: usize)
    requires
        partitions * tasks <= usize::MAX,
        task < tasks,
    ensures
        0 <= partitions * task,
        partitions * task + partitions <= partitions * tasks,
{
    assert(0 <= partitions * task && partitions * task + partitions <= partitions * tasks)
        by (nonlinear_arith)
        requires
            task < tasks,
            0 <= partitions,
            0 <= task,
    ;
}

/// Over all tasks of a stage, every partition of a feed is asked for exactly once: by one task, as
/// one of its own partitions.
pub proof fn feeds_are_shared_out(partitions: usize, tasks: usize, feed_index: usize)
    requires
        partitions * tasks <= usize::MAX,
        feed_index < partitions * tasks,
    ensures
        ({
            let task = feed_index / partitions;
            let partition = feed_index % partitions;
            &&& task < tasks
            &&& partition < partitions
            &&& feed_slots(partitions, task).len() == partitions
            &&& feed_slots(partitions, task)[partition as int] == (FeedSlot {
                partition,
                feed_index,
            })
            &&& forall|t: usize, p: int|
                t < tasks && 0 <= p < feed_slots(partitions, t).len() && (#[trigger] feed_slots(
                    partitions,
                    t,
                )[p]).feed_index == feed_index ==> t == task && p == partition
        }),
{
    assert(partitions > 0) by (nonlinear_arith)
        requires
            feed_index < partitions * tasks,
            0 <= partitions,
            0 <= feed_index,
    ;
    vstd::arithmetic::div_mod::lemma_fundamental_div_mod(feed_index as int, partitions as int);
    vstd::arithmetic::div_mod::lemma_mod_bound(feed_index as int, partitions as int);
    let task = feed_index / partitions;
    assert(task < tasks) by (nonlinear_arith)
        requires
            partitions * task <= feed_index,
            feed_index < partitions * tasks,
            partitions > 0,
    ;
    lemma_slots_in_range(partitions, tasks, task);
    assert forall|t: usize, p: int|
        t < tasks && 0 <= p < feed_slots(partitions, t).len() && (#[trigger] feed_slots(
            partitions,
            t,
        )[p]).feed_index == feed_index implies t == task && p == feed_index % partitions by {
        lemma_slots_in_range(partitions, tasks, t);
        vstd::arithmetic::div_mod::lemma_fundamental_div_mod_converse(
            feed_index as int,
            partitions as int,
            t as int,
            p,
        );
    }
}

/// A task asks for exactly as many partitions of a feed as the feed has per task, numbered from
/// zero, and for no partition that another task asks for.
pub proof fn no_feed_is_read_twice(
    partitions: usize,
    a: DistributedTaskContext,
    feeds_a: TaskFeeds,
    b: DistributedTaskContext,
    feeds_b: TaskFeeds,
)
    requires
        partitions * a.task_index + partitions <= usize::MAX,
        partitions * b.task_index + partitions <= usize::MAX,
        call_ensures(work_unit_feed_task, (partitions, a), feeds_a),
        call_ensures(work_unit_feed_task, (partitions, b), feeds_b),
    ensures
        feeds_a.fan_out_tasks == a.task_count,
        feeds_a.slots@.len() == partitions,
        forall|p: int|
            0 <= p < feeds_a.slots@.len() ==> (#[trigger] feeds_a.slots@[p]).partition == p
                && feeds_a.slots@[p].feed_index == partitions * a.task_index + p,
        a.task_index != b.task_index ==> forall|p: int, q: int|
            0 <= p < feeds_a.slots@.len() && 0 <= q < feeds_b.slots@.len() ==> (
            #[trigger] feeds_a.slots@[p]).feed_index != (#[trigger] feeds_b.slots@[q]).feed_index,
{
    assert(0 <= partitions * a.task_index) by (nonlinear_arith);
    assert(0 <= partitions * b.task_index) by (nonlinear_arith);
    if a.task_index < b.task_index {
        assert(partitions * a.task_index + partitions <= partitions * b.task_index)
            by (nonlinear_arith)
            requires
                a.task_index < b.task_index,
                0 <= partitions,
        ;
    }
    if b.task_index < a.task_index {
        assert(partitions * b.task_index + partitions <= partitions * a.task_index)
            by (nonlinear_arith)
            requires
                b.task_index < a.task_index,
                0 <= partitions,
        ;
    }
}

/// Whether `unit` was addressed to this partition of the feed `id`.
pub open spec fn addressed_to<U>(unit: WorkUnit<U>, id: u128, partition: usize) -> bool {
    unit.id@ == crate::ids::id_bytes(id) && unit.partition == partition
}

/// Addresses what a feed carries to one of its partitions in a task.
pub fn work_unit<U>(id: u128, partition: usize, unit: U) -> (r: WorkUnit<U>)
    ensures
        addressed_to(r, id, partition),
        r.unit == unit,
{
    WorkUnit { id: serialize_uuid(id), partition: partition as u64, unit }
}

/// Whether `batch` is what the units of `chunk` become, as far as they could be had.
pub open spec fn batched<U, E>(
    id: u128,
    chunk: Seq<(usize, Result<U, E>)>,
    batch: Seq<WorkUnit<U>>,
) -> bool {
    &&& batch.len() <= chunk.len()
    &&& forall|i: int|
        0 <= i < batch.len() ==> addressed_to(#[trigger] batch[i], id, chunk[i].0) && chunk[i].1
            == Ok::<U, E>(batch[i].unit)
}

/// Whether `error` is why the first unit of `chunk` that could not be had is missing.
pub open spec fn first_missing<U, E>(chunk: Seq<(usize, Result<U, E>)>, error: E) -> bool {
    exists|i: int|
        0 <= i < chunk.len() && (#[trigger] chunk[i]).1 == Err::<U, E>(error) && forall|k: int|
            0 <= k < i ==> (#[trigger] chunk[k]).1 is Ok
}

/// Addresses a chunk of what the feed `id` carries, each unit to its partition. The first unit that
/// could not be had ends the feed.
pub fn work_unit_batch<U, E>(id: u128, chunk: Vec<(usize, Result<U, E>)>) -> (r: Result<
    Vec<WorkUnit<U>>,
    E,
>)
    ensures
        match r {
            Ok(batch) => batch@.len() == chunk@.len() && batched(id, chunk@, batch@),
            Err(error) => first_missing(chunk@, error),
        },
{
    let mut batch: Vec<WorkUnit<U>> = Vec::new();
    for item in rest: chunk
        invariant
            rest.seq() == chunk@,
            batch@.len() == rest.index(),
            batched(id, chunk@, batch@),
    {
        let (partition, unit) = item;
        match unit {
            Ok(unit) => {
                batch.push(work_unit(id, partition, unit));
            },
            Err(error) => {
                proof {
                    let i = batch@.len() as int;
                    assert(chunk@[i].1 == Err::<U, E>(error));
                    assert forall|k: int| 0 <= k < i implies (#[trigger] chunk@[k]).1 is Ok by {
                        assert(addressed_to(batch@[k], id, chunk@[k].0));
                    }
                }
                return Err(error);
            },
        }
    }
    Ok(batch)
}

/// A chunk of a feed becomes one work unit for each of its items, in order, each for the feed and
/// the partition that it was produced for; unless an item could not be had, and then the error of
/// the first such item is passed on.
pub proof fn chunks_become_work_units<U, E>(
    id: u128,
    chunk: Vec<(usize, Result<U, E>)>,
    r: Result<Vec<WorkUnit<U>>, E>,
)
    requires
        call_ensures(work_unit_batch::<U, E>, (id, chunk), r),
    ensures
        match r {
            Ok(batch) => batch@.len() == chunk@.len() && forall|i: int|
                0 <= i < chunk@.len() ==> (#[trigger] batch@[i]).id@ == crate::ids::id_bytes(id)
                    && batch@[i].partition == chunk@[i].0 && chunk@[i].1 == Ok::<U, E>(
                    batch@[i].unit,
                ),
            Err(error) => exists|i: int|
                0 <= i < chunk@.len() && (#[trigger] chunk@[i]).1 == Err::<U, E>(error)
                    && forall|k: int| 0 <= k < i ==> (#[trigger] chunk@[k]).1 is Ok,
        },
{
    if let Ok(batch) = r {
        assert forall|i: int| 0 <= i < chunk@.len() implies (#[trigger] batch@[i]).id@
            == crate::ids::id_bytes(id) && batch@[i].partition == chunk@[i].0 && chunk@[i].1
            == Ok::<U, E>(batch@[i].unit) by {
            assert(addressed_to(batch@[i], id, chunk@[i].0));
        }
    }
}

/// What `batch` carries to one partition, in order.
pub open spec fn carried_to<U>(batch: Seq<WorkUnit<U>>, partition: usize) -> Seq<U>
    decreases batch.len(),
{
    if batch.len() == 0 {
        Seq::empty()
    } else {
        let before = carried_to(batch.drop_last(), partition);
        if batch.last().partition == partition {
            before.push(batch.last().unit)
        } else {
            before
        }
    }
}

/// What `chunk` holds for one partition, in order.
pub open spec fn produced_for<U, E>(
    chunk: Seq<(usize, Result<U, E>)>,
    partition: usize,
) -> Seq<U>
    decreases chunk.len(),
{
    if chunk.len() == 0 {
        Seq::empty()
    } else {
        let before = produced_for(chunk.drop_last(), partition);
        match chunk.last() {
            (p, Ok(unit)) => if p == partition {
                before.push(unit)
            } else {
                before
            },
            _ => before,
        }
    }
}

/// A chunk carries to every partition what was produced for it, and in the same order.
pub proof fn units_keep_their_order<U, E>(
    id: u128,
    chunk: Seq<(usize, Result<U, E>)>,
    batch: Seq<WorkUnit<U>>,
    partition: usize,
)
    requires
        batch.len() == chunk.len(),
        batched(id, chunk, batch),
    ensures
        carried_to(batch, partition) == produced_for(chunk, partition),
    decreases chunk.len(),
{
    if chunk.len() > 0 {
        let last = chunk.len() - 1;
        assert(addressed_to(batch[last], id, chunk[last].0));
        assert forall|i: int| 0 <= i < batch.drop_last().len() implies addressed_to(
            #[trigger] batch.drop_last()[i],
            id,
            chunk.drop_last()[i].0,
        ) && chunk.drop_last()[i].1 == Ok::<U, E>(batch.drop_last()[i].unit) by {
            assert(addressed_to(batch[i], id, chunk[i].0));
        }
        units_keep_their_order(id, chunk.drop_last(), batch.drop_last(), partition);
    }
}

/// What a feed hears about the publication of the plans of its query.
#[derive(Clone, Copy, Debug, PartialEq, Eq, Structural)]
pub enum FeedSignal {
    /// Whether every plan is published.
    Published(bool),
    /// The query has ended.
    QueryEnded,
}

/// What a feed does about it.
#[derive(Clone, Copy, Debug, PartialEq, Eq, Structural)]
pub enum FeedStep {
    /// Wait for the next signal.
    Wait,
    /// Start to send work units.
    Start,
    /// End without having sent anything.
    Stop,
}

/// A feed is not consumed before every plan of its query is published.
pub fn feed_step(signal: FeedSignal) -> (r: FeedStep)
    ensures
        r == FeedStep::Start <==> signal == FeedSignal::Published(true),
        r == FeedStep::Stop <==> signal == FeedSignal::QueryEnded,
{
    match signal {
        FeedSignal::Published(true) => FeedStep::Start,
        FeedSignal::Published(false) => FeedStep::Wait,
        FeedSignal::QueryEnded => FeedStep::Stop,
    }
}

} // verus!
