//! Prepares a distributed plan for execution: assigns workers to the tasks of every stage, sends
//! them their plans, and takes back what was sent when something fails on the way.

use crate::coordinator::publication::PlanCancellation;
use crate::coordinator::task_spawner::LocalStage;
use crate::error::{DistributedError, PlanError};
use crate::plan_telemetry::{
    DistributedPlanTelemetry, DistributedPlanTelemetryObserver, DistributedPlanTelemetryState,
    Notification, PlanPublicationOutcome,
};
use crate::text::push_decimal;
use rand::Rng;
use vstd::prelude::*;
use vstd::string::*;

verus! {

/// How the user wants the tasks of a stage to be routed.
#[derive(Debug)]
pub enum Routing {
    /// To these workers, one for each task.
    Routed(Vec<String>),
    /// To any workers.
    Unrouted,
    /// The user's choice failed, for this reason.
    Failed(String),
}

/// The message of a stage that was routed to a wrong number of workers.
pub open spec fn mismatch_text(tasks: usize, urls: nat) -> Seq<char> {
    "number of tasks ("@ + crate::text::decimal(tasks as nat)
        + ") was not equal to number of urls ("@ + crate::text::decimal(urls)
        + ") at execution time"@
}

/// Whether `workers` takes `tasks` workers in turn, beginning at position `start`.
pub open spec fn in_turn(
    workers: Seq<String>,
    available: Seq<String>,
    tasks: usize,
    start: nat,
) -> bool {
    &&& workers.len() == tasks
    &&& forall|i: int|
        0 <= i < tasks ==> (#[trigger] workers[i])@ == available[(start + i)
            % available.len() as int]@
}

/// Whether `r` is the assignment of workers to the tasks of a stage, where unrouted tasks are
/// taken in turn from position `start` on.
pub open spec fn assigned(
    r: Result<Vec<String>, PlanError>,
    tasks: usize,
    routing: Routing,
    available: Seq<String>,
    start: nat,
) -> bool {
    match routing {
        Routing::Failed(reason) => r matches Err(error) && error@
            == crate::error::PlanErrorView::Execution(
            "error routing tasks to workers: "@ + reason@,
        ),
        Routing::Routed(urls) => if urls@.len() == tasks {
            r == Ok::<Vec<String>, PlanError>(urls)
        } else {
            r matches Err(error) && error@ == crate::error::PlanErrorView::Execution(
                mismatch_text(tasks, urls@.len()),
            )
        },
        Routing::Unrouted => r matches Ok(workers) && in_turn(workers@, available, tasks, start),
    }
}

/// Takes `tasks` workers in turn, beginning at position `start`.
fn round_robin(available: &Vec<String>, tasks: usize, start: usize) -> (r: Vec<String>)
    requires
        start < available@.len(),
    ensures
        in_turn(r@, available@, tasks, start as nat),
{
    let count: usize = available.len();
    let mut workers: Vec<String> = Vec::new();
    let mut next: usize = start;
    let ghost mut turns: int = 0;
    let mut i: usize = 0;
    while i < tasks
        invariant
            i <= tasks,
            count == available@.len(),
            next < count,
            start + i == turns * available@.len() + next,
            workers@.len() == i,
            forall|k: int|
                0 <= k < i ==> (#[trigger] workers@[k])@ == available@[(start + k)
                    % available@.len() as int]@,
        decreases tasks - i,
    {
        proof {
            vstd::arithmetic::div_mod::lemma_fundamental_div_mod_converse(
                start + i,
                available@.len() as int,
                turns,
                next as int,
            );
        }
        workers.push(available[next].clone());
        if next + 1 == count {
            next = 0;
            proof {
                assert((turns + 1) * available@.len() == turns * available@.len()
                    + available@.len()) by (nonlinear_arith);
                turns = turns + 1;
            }
        } else {
            next += 1;
        }
        i += 1;
    }
    workers
}

/// Assigns workers to the tasks of a stage. Tasks that the user did not route are taken in turn,
/// beginning at position `start`.
pub fn assign_workers(
    tasks: usize,
    routing: Routing,
    available: &Vec<String>,
    start: usize,
) -> (r: Result<Vec<String>, PlanError>)
    requires
        routing is Unrouted ==> start < available@.len(),
    ensures
        assigned(r, tasks, routing, available@, start as nat),
{
    match routing {
        Routing::Failed(reason) => {
            let mut message = "error routing tasks to workers: ".to_string();
            message.append(reason.as_str());
            Err(PlanError::Execution(message))
        },
        Routing::Routed(urls) => {
            if urls.len() != tasks {
                let mut message = "number of tasks (".to_string();
                push_decimal(&mut message, tasks as u64);
                message.append(") was not equal to number of urls (");
                push_decimal(&mut message, urls.len() as u64);
                message.append(") at execution time");
                return Err(PlanError::Execution(message));
            }
            Ok(urls)
        },
        Routing::Unrouted => Ok(round_robin(available, tasks, start)),
    }
}

/// Draws a position below `len` with `random_range` on the generator of `rand::rng`.
#[verifier::external_body]
fn random_position(len: usize) -> (r: usize)
    requires
        len > 0,
    ensures
        r < len,
{
    rand::rng().random_range(0..len)
}

/// Tasks that are taken in turn share a worker position only when they are a multiple of the
/// number of workers apart, so no worker gets a second task before every other has one.
pub proof fn turns_are_fair(start: nat, workers: nat, i: nat, j: nat)
    requires
        workers > 0,
        i <= j,
    ensures
        (start + i) % workers == (start + j) % workers <==> (j - i) % workers as int == 0,
        i < j < i + workers ==> (start + i) % workers != (start + j) % workers,
{
    let w = workers as int;
    let a = (start + i) as int;
    let d = j - i;
    vstd::arithmetic::div_mod::lemma_add_mod_noop(a, d, w);
    vstd::arithmetic::div_mod::lemma_mod_bound(a, w);
    vstd::arithmetic::div_mod::lemma_mod_bound(d, w);
    let x = a % w;
    let y = d % w;
    assert((x + y) % w == (a + d) % w);
    if x + y < w {
        vstd::arithmetic::div_mod::lemma_small_mod((x + y) as nat, workers);
    } else {
        vstd::arithmetic::div_mod::lemma_mod_sub_multiples_vanish(x + y, w);
        vstd::arithmetic::div_mod::lemma_small_mod((x + y - w) as nat, workers);
    }
    if d < w {
        vstd::arithmetic::div_mod::lemma_small_mod(d as nat, workers);
    }
}

/// Who executes the tasks of a stage, for every way in which they may be routed: those whom the
/// user has chosen, if there is one for each task, and otherwise as many as there are tasks, each
/// the next one after that of the task before, all around the workers that can be had.
pub proof fn tasks_are_dealt_out(
    tasks: usize,
    routing: Routing,
    available: &Vec<String>,
    start: usize,
    r: Result<Vec<String>, PlanError>,
)
    requires
        routing is Unrouted ==> start < available@.len(),
        call_ensures(assign_workers, (tasks, routing, available, start), r),
    ensures
        match routing {
            Routing::Failed(reason) => r matches Err(error) && error@
                == crate::error::PlanErrorView::Execution(
                "error routing tasks to workers: "@ + reason@,
            ),
            Routing::Routed(urls) => if urls@.len() == tasks {
                r == Ok::<Vec<String>, PlanError>(urls)
            } else {
                r matches Err(error) && error@ == crate::error::PlanErrorView::Execution(
                    "number of tasks ("@ + crate::text::decimal(tasks as nat)
                        + ") was not equal to number of urls ("@ + crate::text::decimal(urls@.len())
                        + ") at execution time"@,
                )
            },
            Routing::Unrouted => {
                &&& r matches Ok(workers)
                &&& workers@.len() == tasks
                &&& tasks > 0 ==> workers@[0]@ == available@[start as int]@
                &&& forall|i: int|
                    0 <= i < tasks ==> (#[trigger] workers@[i])@ == available@[(start + i)
                        % available@.len() as int]@
            },
        },
{
    if routing is Unrouted {
        vstd::arithmetic::div_mod::lemma_small_mod(start as nat, available@.len());
    }
}

/// The position after `from` whose turn it is for worker `w`, among `workers` workers of whom
/// `start` comes first.
spec fn turn_of(start: int, workers: int, from: int, w: int) -> int {
    from + (w - start - from) % workers
}

proof fn lemma_turn_of(start: int, workers: int, from: int, w: int)
    requires
        workers > 0,
        0 <= w < workers,
        0 <= start,
        0 <= from,
    ensures
        from <= turn_of(start, workers, from, w) < from + workers,
        (start + turn_of(start, workers, from, w)) % workers == w,
{
    let d = w - start - from;
    vstd::arithmetic::div_mod::lemma_mod_bound(d, workers);
    vstd::arithmetic::div_mod::lemma_add_mod_noop_right(start + from, d, workers);
    vstd::arithmetic::div_mod::lemma_small_mod(w as nat, workers as nat);
}

/// Unrouted tasks are shared out fairly: among any run of as many tasks as there are workers, each
/// worker has exactly one.
pub proof fn every_worker_has_its_turn(
    tasks: usize,
    available: &Vec<String>,
    start: usize,
    r: Result<Vec<String>, PlanError>,
    from: int,
    w: int,
)
    requires
        call_ensures(assign_workers, (tasks, Routing::Unrouted, available, start), r),
        start < available@.len(),
        forall|a: int, b: int|
            0 <= a < b < available@.len() ==> (#[trigger] available@[a])@ != (
            #[trigger] available@[b])@,
        0 <= from,
        from + available@.len() <= tasks,
        0 <= w < available@.len(),
    ensures
        r matches Ok(workers) && exists|i: int|
            from <= i < from + available@.len() && (#[trigger] workers@[i])@ == available@[w]@
                && forall|j: int|
                from <= j < from + available@.len() && (#[trigger] workers@[j])@ == available@[w]@
                    ==> j == i,
{
    let n = available@.len() as int;
    let workers = r->Ok_0;
    tasks_are_dealt_out(tasks, Routing::Unrouted, available, start, r);
    lemma_turn_of(start as int, n, from, w);
    let i = turn_of(start as int, n, from, w);
    assert(workers@[i]@ == available@[w]@);
    assert forall|j: int|
        from <= j < from + n && (#[trigger] workers@[j])@ == available@[w]@ implies j == i by {
        let p = (start + j) % n;
        vstd::arithmetic::div_mod::lemma_mod_bound(start + j, n);
        assert(workers@[j]@ == available@[p]@);
        if p < w {
            assert(available@[p]@ != available@[w]@);
        }
        if w < p {
            assert(available@[w]@ != available@[p]@);
        }
        if i < j {
            turns_are_fair(start as nat, n as nat, i as nat, j as nat);
        }
        if j < i {
            turns_are_fair(start as nat, n as nat, j as nat, i as nat);
        }
    }
}

/// A stage whose plans are held by workers.
#[derive(Debug)]
pub struct RemoteStage {
    /// The query that the stage belongs to.
    pub query_id: u128,
    /// Number of the stage inside the query.
    pub num: usize,
    /// The worker of each task.
    pub workers: Vec<String>,
}

/// What is found at a node of a plan.
#[derive(Clone, Copy, Debug, PartialEq, Eq, Structural)]
pub enum PlanNode {
    /// No network boundary.
    Inner,
    /// A network boundary whose input stage is held by the coordinator.
    LocalBoundary(LocalStage),
    /// A network boundary whose input stage is not held by the coordinator.
    RemoteBoundary,
}

/// How far the preparation of a plan has come.
#[derive(Clone, Copy, Debug, PartialEq, Eq, Structural)]
pub enum PreparationStep {
    /// Waits for the resolver of workers.
    ResolvingWorkers,
    /// Waits for the addresses of the workers.
    FetchingUrls,
    /// Waits for the next node, children before their parents.
    Traversing,
    /// Waits for the user's routing of the tasks of a stage.
    Routing,
    /// Waits for the plan of a task to be on its way.
    Sending,
    /// Waits for the feeds of a task to be set up.
    Feeding,
    /// Waits for a boundary to be turned to its remote stage.
    Replacing,
    /// Nothing is left to do.
    Ended,
}

/// What the preparation of a plan does next.
pub enum PreparationAction<O: DistributedPlanTelemetryObserver + ?Sized, E> {
    /// Ask for the addresses of the workers.
    FetchUrls,
    /// Walk over the plan.
    Traverse,
    /// Leave the node as it is and go on to the next.
    KeepNode,
    /// Ask the user how the tasks of the stage are routed.
    RouteTasks(LocalStage),
    /// Send the plan of the task to the worker.
    SendPlan { task_i: usize, url: String },
    /// Collect the metrics of the task, and set up its feeds.
    StartFeeds { task_i: usize },
    /// Turn the boundary to the remote stage.
    ReplaceStage(RemoteStage),
    /// The plan is prepared; these withdraw what was sent.
    Prepared { cancellations: Vec<PlanCancellation> },
    /// The plan cannot be executed: withdraw what was sent, and tell the observer.
    Failed {
        error: DistributedError<E>,
        cancellations: Vec<PlanCancellation>,
        due: Option<Notification<O, DistributedPlanTelemetry>>,
    },
    /// This was not waited for; nothing has changed.
    Unexpected,
}

/// Prepares one plan for execution.
pub struct PlanPreparation {
    step: PreparationStep,
    available_urls: Vec<String>,
    stage: LocalStage,
    workers: Vec<String>,
    task: usize,
    cancellations: Vec<PlanCancellation>,
    tasks_of_replaced_stages: Ghost<nat>,
}

/// Whether `telemetry` is finished with `Other`, and `due` is what its observer is told.
pub open spec fn finished_with_other<O: DistributedPlanTelemetryObserver + ?Sized>(
    before: DistributedPlanTelemetryState<O>,
    after: DistributedPlanTelemetryState<O>,
    due: Option<Notification<O, DistributedPlanTelemetry>>,
) -> bool {
    &&& after@ == before@.after(crate::plan_telemetry::TelemetryEvent::Finished)
    &&& after.observer() == before.observer()
    &&& due is Some <==> !before@.reported && before.observer() is Some
    &&& due matches Some(due) ==> Some(due.observer) == before.observer()
        && before@.aggregated_by(due.telemetry, PlanPublicationOutcome::Other)
}

impl PlanPreparation {
    /// What is waited for.
    pub closed spec fn step(&self) -> PreparationStep {
        self.step
    }

    /// The workers that can be had.
    pub closed spec fn available_urls(&self) -> Seq<String> {
        self.available_urls@
    }

    /// The stage whose plans are being sent.
    pub closed spec fn stage(&self) -> LocalStage {
        self.stage
    }

    /// The workers of the tasks of that stage.
    pub closed spec fn workers(&self) -> Seq<String> {
        self.workers@
    }

    /// The task whose plan is being sent.
    pub closed spec fn task(&self) -> usize {
        self.task
    }

    /// The withdrawals of everything that was sent, in the order in which it was sent.
    pub closed spec fn sent(&self) -> Seq<PlanCancellation> {
        self.cancellations@
    }

    /// How many tasks the stages have whose boundaries were turned to their remote stages.
    pub closed spec fn replaced_tasks(&self) -> nat {
        self.tasks_of_replaced_stages@
    }

    /// How many plans were sent for the stage whose plans are being sent.
    pub open spec fn sent_for_stage(&self) -> int {
        self.sent().len() - self.replaced_tasks()
    }

    /// What holds between two events: every task of every stage whose boundary was turned to its
    /// remote stage has its plan, and nothing else was sent; while the plans of a stage are being
    /// sent, every task has a worker, and every task before the current one has its plan as well.
    pub open spec fn wf(&self) -> bool {
        &&& self.step() == PreparationStep::ResolvingWorkers || self.step()
            == PreparationStep::FetchingUrls || self.step() == PreparationStep::Traversing
            || self.step() == PreparationStep::Routing ==> self.sent_for_stage() == 0
        &&& self.step() == PreparationStep::Sending ==> self.task() < self.stage().tasks
            && self.workers().len() == self.stage().tasks && self.sent_for_stage() == self.task()
        &&& self.step() == PreparationStep::Feeding ==> self.task() < self.stage().tasks
            && self.workers().len() == self.stage().tasks && self.sent_for_stage() == self.task()
            + 1
        &&& self.step() == PreparationStep::Replacing ==> self.workers().len()
            == self.stage().tasks && self.sent_for_stage() == self.stage().tasks
    }

    /// Whether everything but what is waited for is as it was.
    pub open spec fn keeps(&self, before: Self) -> bool {
        &&& self.available_urls() == before.available_urls()
        &&& self.sent() == before.sent()
        &&& self.replaced_tasks() == before.replaced_tasks()
        &&& self.stage() == before.stage()
        &&& self.workers() == before.workers()
        &&& self.task() == before.task()
    }

    /// Whether `action` ends the preparation: everything that was sent is withdrawn, and the
    /// measurements are finished with [`PlanPublicationOutcome::Other`].
    pub open spec fn failed<O: DistributedPlanTelemetryObserver + ?Sized, E>(
        &self,
        before: Self,
        telemetry_before: DistributedPlanTelemetryState<O>,
        telemetry_after: DistributedPlanTelemetryState<O>,
        action: PreparationAction<O, E>,
    ) -> bool {
        &&& self.step() == PreparationStep::Ended
        &&& self.sent() == Seq::<PlanCancellation>::empty()
        &&& action matches PreparationAction::Failed { cancellations, due, .. }
            && cancellations@ == before.sent() && finished_with_other(
            telemetry_before,
            telemetry_after,
            due,
        )
    }

    /// Whether `action` moves on to task `task_i` of the stage, or past its last task.
    pub open spec fn moves_on<O: DistributedPlanTelemetryObserver + ?Sized, E>(
        &self,
        task_i: int,
        action: PreparationAction<O, E>,
    ) -> bool {
        if task_i < self.stage().tasks {
            &&& self.step() == PreparationStep::Sending
            &&& self.task() == task_i
            &&& action matches PreparationAction::SendPlan { task_i: next, url } && next == task_i
                && url@ == self.workers()[task_i]@
        } else {
            &&& self.step() == PreparationStep::Replacing
            &&& action matches PreparationAction::ReplaceStage(remote) && remote.query_id
                == self.stage().query_id && remote.num == self.stage().num
                && crate::coordinator::prepare_static_plan::same_urls(
                remote.workers@,
                self.workers(),
            )
        }
    }

    /// Starts to prepare a plan. The resolver of workers is asked for first.
    pub fn begin() -> (r: Self)
        ensures
            r.wf(),
            r.step() == PreparationStep::ResolvingWorkers,
            r.sent() == Seq::<PlanCancellation>::empty(),
            r.replaced_tasks() == 0,
    {
        PlanPreparation {
            step: PreparationStep::ResolvingWorkers,
            available_urls: Vec::new(),
            stage: LocalStage { query_id: 0, num: 0, tasks: 0 },
            workers: Vec::new(),
            task: 0,
            cancellations: Vec::new(),
            tasks_of_replaced_stages: Ghost(0),
        }
    }

    fn fail<O: DistributedPlanTelemetryObserver + ?Sized, E>(
        &mut self,
        error: DistributedError<E>,
        telemetry: &mut DistributedPlanTelemetryState<O>,
    ) -> (action: PreparationAction<O, E>)
        ensures
            final(self).wf(),
            final(self).failed(*old(self), *old(telemetry), *final(telemetry), action),
            action matches PreparationAction::Failed { error: e, .. } && e == error,
    {
        self.step = PreparationStep::Ended;
        let mut cancellations: Vec<PlanCancellation> = Vec::new();
        std::mem::swap(&mut cancellations, &mut self.cancellations);
        let due = telemetry.finish(PlanPublicationOutcome::Other);
        PreparationAction::Failed { error, cancellations, due }
    }

    fn move_on<O: DistributedPlanTelemetryObserver + ?Sized, E>(
        &mut self,
        task_i: usize,
    ) -> (action: PreparationAction<O, E>)
        requires
            old(self).workers().len() == old(self).stage().tasks,
            task_i <= old(self).stage().tasks,
            old(self).sent_for_stage() == task_i,
        ensures
            final(self).wf(),
            final(self).moves_on(task_i as int, action),
            final(self).available_urls() == old(self).available_urls(),
            final(self).sent() == old(self).sent(),
            final(self).replaced_tasks() == old(self).replaced_tasks(),
            final(self).stage() == old(self).stage(),
            final(self).workers() == old(self).workers(),
    {
        if task_i < self.stage.tasks {
            self.step = PreparationStep::Sending;
            self.task = task_i;
            PreparationAction::SendPlan { task_i, url: self.workers[task_i].clone() }
        } else {
            self.step = PreparationStep::Replacing;
            PreparationAction::ReplaceStage(
                RemoteStage {
                    query_id: self.stage.query_id,
                    num: self.stage.num,
                    workers: copy_urls(&self.workers),
                },
            )
        }
    }

    /// The resolver of workers could be had, or it could not.
    pub fn on_worker_resolver<O: DistributedPlanTelemetryObserver + ?Sized, E>(
        &mut self,
        resolver: Result<(), E>,
        telemetry: &mut DistributedPlanTelemetryState<O>,
    ) -> (action: PreparationAction<O, E>)
        requires
            old(self).wf(),
        ensures
            final(self).wf(),
            if old(self).step() != PreparationStep::ResolvingWorkers {
                action is Unexpected && *final(self) == *old(self) && *final(telemetry)
                    == *old(telemetry)
            } else {
                match resolver {
                    Ok(_) => action is FetchUrls && final(self).step()
                        == PreparationStep::FetchingUrls && final(self).keeps(*old(self))
                        && *final(telemetry) == *old(telemetry),
                    Err(e) => final(self).failed(
                        *old(self),
                        *old(telemetry),
                        *final(telemetry),
                        action,
                    ) && action->Failed_error == DistributedError::Source(e),
                }
            },
    {
        if self.step != PreparationStep::ResolvingWorkers {
            return PreparationAction::Unexpected;
        }
        match resolver {
            Ok(_) => {
                self.step = PreparationStep::FetchingUrls;
                PreparationAction::FetchUrls
            },
            Err(error) => self.fail(DistributedError::Source(error), telemetry),
        }
    }

    /// The addresses of the workers could be had, or they could not.
    pub fn on_urls<O: DistributedPlanTelemetryObserver + ?Sized, E>(
        &mut self,
        urls: Result<Vec<String>, E>,
        telemetry: &mut DistributedPlanTelemetryState<O>,
    ) -> (action: PreparationAction<O, E>)
        requires
            old(self).wf(),
        ensures
            final(self).wf(),
            if old(self).step() != PreparationStep::FetchingUrls {
                action is Unexpected && *final(self) == *old(self) && *final(telemetry)
                    == *old(telemetry)
            } else {
                match urls {
                    Ok(urls) => action is Traverse && final(self).step()
                        == PreparationStep::Traversing && final(self).available_urls() == urls@
                        && final(self).sent() == old(self).sent() && final(self).replaced_tasks()
                        == old(self).replaced_tasks() && final(telemetry)@ == old(telemetry)@.after(
                        crate::plan_telemetry::TelemetryEvent::WorkerPoolSize(urls@.len() as usize),
                    ) && final(telemetry).observer() == old(telemetry).observer(),
                    Err(e) => final(self).failed(
                        *old(self),
                        *old(telemetry),
                        *final(telemetry),
                        action,
                    ) && action->Failed_error == DistributedError::Source(e),
                }
            },
    {
        if self.step != PreparationStep::FetchingUrls {
            return PreparationAction::Unexpected;
        }
        match urls {
            Ok(urls) => {
                telemetry.set_worker_pool_size(urls.len());
                self.available_urls = urls;
                self.step = PreparationStep::Traversing;
                PreparationAction::Traverse
            },
            Err(error) => self.fail(DistributedError::Source(error), telemetry),
        }
    }

    /// The walk over the plan has reached a node.
    pub fn on_node<O: DistributedPlanTelemetryObserver + ?Sized, E>(
        &mut self,
        node: PlanNode,
        telemetry: &mut DistributedPlanTelemetryState<O>,
    ) -> (action: PreparationAction<O, E>)
        requires
            old(self).wf(),
        ensures
            final(self).wf(),
            if old(self).step() != PreparationStep::Traversing {
                action is Unexpected && *final(self) == *old(self) && *final(telemetry)
                    == *old(telemetry)
            } else {
                match node {
                    PlanNode::Inner => action is KeepNode && *final(self) == *old(self)
                        && *final(telemetry) == *old(telemetry),
                    PlanNode::LocalBoundary(stage) => action == PreparationAction::<
                        O,
                        E,
                    >::RouteTasks(stage) && final(self).step() == PreparationStep::Routing
                        && final(self).stage() == stage && final(self).available_urls()
                        == old(self).available_urls() && final(self).sent() == old(self).sent()
                        && final(self).replaced_tasks() == old(self).replaced_tasks()
                        && final(telemetry)@ == old(telemetry)@.after(
                        crate::plan_telemetry::TelemetryEvent::StageStarted,
                    ) && final(telemetry).observer() == old(telemetry).observer(),
                    PlanNode::RemoteBoundary => final(self).failed(
                        *old(self),
                        *old(telemetry),
                        *final(telemetry),
                        action,
                    ) && (action->Failed_error matches DistributedError::Plan(error) && error@
                        == crate::error::PlanErrorView::Execution(
                        "Input stage from network boundary was not in Local state"@,
                    )),
                }
            },
    {
        if self.step != PreparationStep::Traversing {
            return PreparationAction::Unexpected;
        }
        match node {
            PlanNode::Inner => PreparationAction::KeepNode,
            PlanNode::LocalBoundary(stage) => {
                telemetry.stage_started();
                self.stage = stage;
                self.step = PreparationStep::Routing;
                PreparationAction::RouteTasks(stage)
            },
            PlanNode::RemoteBoundary => self.fail(
                DistributedError::Plan(
                    PlanError::Execution(
                        "Input stage from network boundary was not in Local state".to_string(),
                    ),
                ),
                telemetry,
            ),
        }
    }

    /// The user's routing of the tasks of the stage is known, and unrouted tasks are taken in
    /// turn from position `start` on; or the user could not be asked.
    pub fn on_routing<O: DistributedPlanTelemetryObserver + ?Sized, E>(
        &mut self,
        routing: Result<Routing, E>,
        start: usize,
        telemetry: &mut DistributedPlanTelemetryState<O>,
    ) -> (action: PreparationAction<O, E>)
        requires
            old(self).wf(),
            routing matches Ok(Routing::Unrouted) ==> old(self).step() == PreparationStep::Routing
                ==> start < old(self).available_urls().len(),
        ensures
            final(self).wf(),
            final(self).routed(
                *old(self),
                routing,
                start as nat,
                *old(telemetry),
                *final(telemetry),
                action,
            ),
    {
        if self.step != PreparationStep::Routing {
            return PreparationAction::Unexpected;
        }
        let routing = match routing {
            Ok(routing) => routing,
            Err(error) => {
                return self.fail(DistributedError::Source(error), telemetry);
            },
        };
        let assignment = assign_workers(self.stage.tasks, routing, &self.available_urls, start);
        assert(assigned(
            assignment,
            old(self).stage().tasks,
            routing,
            old(self).available_urls(),
            start as nat,
        ));
        match assignment {
            Ok(workers) => {
                self.workers = workers;
                self.move_on(0)
            },
            Err(error) => self.fail(DistributedError::Plan(error), telemetry),
        }
    }

    /// What follows on the routing of the tasks of the stage.
    pub open spec fn routed<O: DistributedPlanTelemetryObserver + ?Sized, E>(
        &self,
        before: Self,
        routing: Result<Routing, E>,
        start: nat,
        telemetry_before: DistributedPlanTelemetryState<O>,
        telemetry_after: DistributedPlanTelemetryState<O>,
        action: PreparationAction<O, E>,
    ) -> bool {
        if before.step() != PreparationStep::Routing {
            action is Unexpected && *self == before && telemetry_after == telemetry_before
        } else {
            match routing {
                Ok(routing) => exists|r: Result<Vec<String>, PlanError>|
                    #[trigger] assigned(
                        r,
                        before.stage().tasks,
                        routing,
                        before.available_urls(),
                        start,
                    ) && match r {
                        Ok(workers) => self.moves_on(0, action) && self.workers() == workers@
                            && self.stage() == before.stage() && self.available_urls()
                            == before.available_urls() && self.sent() == before.sent()
                            && self.replaced_tasks() == before.replaced_tasks()
                            && telemetry_after == telemetry_before,
                        Err(error) => self.failed(
                            before,
                            telemetry_before,
                            telemetry_after,
                            action,
                        ) && action->Failed_error == DistributedError::<E>::Plan(error),
                    },
                Err(e) => self.failed(before, telemetry_before, telemetry_after, action)
                    && action->Failed_error == DistributedError::Source(e),
            }
        }
    }

    /// The user's routing of the tasks of the stage is known, and unrouted tasks are taken in
    /// turn from a random position on; or the user could not be asked.
    pub fn on_routing_at_random<O: DistributedPlanTelemetryObserver + ?Sized, E>(
        &mut self,
        routing: Result<Routing, E>,
        telemetry: &mut DistributedPlanTelemetryState<O>,
    ) -> (action: PreparationAction<O, E>)
        requires
            old(self).wf(),
            routing matches Ok(Routing::Unrouted) ==> old(self).step() == PreparationStep::Routing
                ==> old(self).available_urls().len() > 0,
        ensures
            final(self).wf(),
            exists|start: nat|
                (routing matches Ok(Routing::Unrouted) ==> old(self).step()
                    == PreparationStep::Routing ==> start < old(self).available_urls().len())
                    && #[trigger] final(self).routed(
                    *old(self),
                    routing,
                    start,
                    *old(telemetry),
                    *final(telemetry),
                    action,
                ),
    {
        let start: usize = match &routing {
            Ok(Routing::Unrouted) => if self.step == PreparationStep::Routing {
                random_position(self.available_urls.len())
            } else {
                0
            },
            _ => 0,
        };
        self.on_routing(routing, start, telemetry)
    }

    /// The plan of a task is on its way, and `sent` withdraws it; or it could not be sent.
    pub fn on_plan_sent<O: DistributedPlanTelemetryObserver + ?Sized, E>(
        &mut self,
        sent: Result<PlanCancellation, E>,
        telemetry: &mut DistributedPlanTelemetryState<O>,
    ) -> (action: PreparationAction<O, E>)
        requires
            old(self).wf(),
        ensures
            final(self).wf(),
            if old(self).step() != PreparationStep::Sending {
                action is Unexpected && *final(self) == *old(self) && *final(telemetry)
                    == *old(telemetry)
            } else {
                match sent {
                    Ok(cancellation) => action == (PreparationAction::<O, E>::StartFeeds {
                        task_i: old(self).task(),
                    }) && final(self).step() == PreparationStep::Feeding && final(self).sent()
                        == old(self).sent().push(cancellation) && final(self).replaced_tasks()
                        == old(self).replaced_tasks() && final(self).available_urls()
                        == old(self).available_urls() && final(self).stage() == old(self).stage()
                        && final(self).workers() == old(self).workers() && final(self).task()
                        == old(self).task() && *final(telemetry) == *old(telemetry),
                    Err(e) => final(self).failed(
                        *old(self),
                        *old(telemetry),
                        *final(telemetry),
                        action,
                    ) && action->Failed_error == DistributedError::Source(e),
                }
            },
    {
        if self.step != PreparationStep::Sending {
            return PreparationAction::Unexpected;
        }
        match sent {
            Ok(cancellation) => {
                self.cancellations.push(cancellation);
                self.step = PreparationStep::Feeding;
                PreparationAction::StartFeeds { task_i: self.task }
            },
            Err(error) => self.fail(DistributedError::Source(error), telemetry),
        }
    }

    /// The feeds of a task are set up, or they could not be.
    pub fn on_feeds_started<O: DistributedPlanTelemetryObserver + ?Sized, E>(
        &mut self,
        started: Result<(), E>,
        telemetry: &mut DistributedPlanTelemetryState<O>,
    ) -> (action: PreparationAction<O, E>)
        requires
            old(self).wf(),
        ensures
            final(self).wf(),
            if old(self).step() != PreparationStep::Feeding {
                action is Unexpected && *final(self) == *old(self) && *final(telemetry)
                    == *old(telemetry)
            } else {
                match started {
                    Ok(_) => final(self).moves_on(old(self).task() + 1, action)
                        && final(self).available_urls() == old(self).available_urls()
                        && final(self).sent() == old(self).sent()
                        && final(self).replaced_tasks() == old(self).replaced_tasks()
                        && final(self).stage() == old(self).stage() && final(self).workers()
                        == old(self).workers() && *final(telemetry) == *old(telemetry),
                    Err(e) => final(self).failed(
                        *old(self),
                        *old(telemetry),
                        *final(telemetry),
                        action,
                    ) && action->Failed_error == DistributedError::Source(e),
                }
            },
    {
        if self.step != PreparationStep::Feeding {
            return PreparationAction::Unexpected;
        }
        match started {
            Ok(_) => self.move_on(self.task + 1),
            Err(error) => self.fail(DistributedError::Source(error), telemetry),
        }
    }

    /// The boundary was turned to its remote stage, or it could not be.
    pub fn on_stage_replaced<O: DistributedPlanTelemetryObserver + ?Sized, E>(
        &mut self,
        replaced: Result<(), E>,
        telemetry: &mut DistributedPlanTelemetryState<O>,
    ) -> (action: PreparationAction<O, E>)
        requires
            old(self).wf(),
        ensures
            final(self).wf(),
            if old(self).step() != PreparationStep::Replacing {
                action is Unexpected && *final(self) == *old(self) && *final(telemetry)
                    == *old(telemetry)
            } else {
                match replaced {
                    Ok(_) => action is Traverse && final(self).step()
                        == PreparationStep::Traversing && final(self).available_urls()
                        == old(self).available_urls() && final(self).sent() == old(self).sent()
                        && final(self).replaced_tasks() == old(self).replaced_tasks()
                        + old(self).stage().tasks && *final(telemetry) == *old(telemetry),
                    Err(e) => final(self).failed(
                        *old(self),
                        *old(telemetry),
                        *final(telemetry),
                        action,
                    ) && action->Failed_error == DistributedError::Source(e),
                }
            },
    {
        if self.step != PreparationStep::Replacing {
            return PreparationAction::Unexpected;
        }
        match replaced {
            Ok(_) => {
                self.step = PreparationStep::Traversing;
                self.tasks_of_replaced_stages = Ghost(
                    self.tasks_of_replaced_stages@ + self.stage.tasks as nat,
                );
                PreparationAction::Traverse
            },
            Err(error) => self.fail(DistributedError::Source(error), telemetry),
        }
    }

    /// The walk over the plan has come to its end, or it broke off. Where it has come to its end,
    /// there is a plan to withdraw for every task of every stage.
    pub fn on_traversal_end<O: DistributedPlanTelemetryObserver + ?Sized, E>(
        &mut self,
        end: Result<(), E>,
        telemetry: &mut DistributedPlanTelemetryState<O>,
    ) -> (action: PreparationAction<O, E>)
        requires
            old(self).wf(),
        ensures
            final(self).wf(),
            if old(self).step() != PreparationStep::Traversing {
                action is Unexpected && *final(self) == *old(self) && *final(telemetry)
                    == *old(telemetry)
            } else {
                match end {
                    Ok(_) => final(self).step() == PreparationStep::Ended && *final(telemetry)
                        == *old(telemetry) && (action matches PreparationAction::Prepared {
                        cancellations,
                    } && cancellations@ == old(self).sent() && cancellations@.len()
                        == old(self).replaced_tasks()),
                    Err(e) => final(self).failed(
                        *old(self),
                        *old(telemetry),
                        *final(telemetry),
                        action,
                    ) && action->Failed_error == DistributedError::Source(e),
                }
            },
    {
        if self.step != PreparationStep::Traversing {
            return PreparationAction::Unexpected;
        }
        match end {
            Ok(_) => {
                self.step = PreparationStep::Ended;
                let mut cancellations: Vec<PlanCancellation> = Vec::new();
                std::mem::swap(&mut cancellations, &mut self.cancellations);
                PreparationAction::Prepared { cancellations }
            },
            Err(error) => self.fail(DistributedError::Source(error), telemetry),
        }
    }
}

/// Whether two lists hold the same addresses in the same order.
pub open spec fn same_urls(a: Seq<String>, b: Seq<String>) -> bool {
    a.len() == b.len() && forall|i: int| 0 <= i < a.len() ==> (#[trigger] a[i])@ == b[i]@
}

fn copy_urls(urls: &Vec<String>) -> (r: Vec<String>)
    ensures
        same_urls(r@, urls@),
{
    let mut copies: Vec<String> = Vec::new();
    let mut i: usize = 0;
    while i < urls.len()
        invariant
            i <= urls@.len(),
            copies@.len() == i,
            forall|k: int| 0 <= k < i ==> (#[trigger] copies@[k])@ == urls@[k]@,
        decreases urls@.len() - i,
    {
        copies.push(urls[i].clone());
        i += 1;
    }
    copies
}

/// What happens while a plan is prepared: one for each of the calls that a preparation answers.
pub enum PreparationEvent<E> {
    /// The resolver of workers could be had, or it could not.
    Resolver(Result<(), E>),
    /// The addresses of the workers could be had, or they could not.
    Urls(Result<Vec<String>, E>),
    /// The walk over the plan has reached a node.
    Node(PlanNode),
    /// The user's routing is known, with the position at which unrouted tasks begin; or it is not.
    Routing(Result<Routing, E>, usize),
    /// The plan of a task is on its way, or it could not be sent.
    Sent(Result<PlanCancellation, E>),
    /// The feeds of a task are set up, or they could not be.
    Feeds(Result<(), E>),
    /// A boundary was turned to its remote stage, or it could not be.
    Replaced(Result<(), E>),
    /// The walk over the plan has come to its end, or it broke off.
    End(Result<(), E>),
}

/// What is waited for after `actions`: what the last of them that was not refused asks for.
pub open spec fn awaited<O: DistributedPlanTelemetryObserver + ?Sized, E>(
    actions: Seq<PreparationAction<O, E>>,
) -> PreparationStep
    decreases actions.len(),
{
    if actions.len() == 0 {
        PreparationStep::ResolvingWorkers
    } else {
        match actions.last() {
            PreparationAction::FetchUrls => PreparationStep::FetchingUrls,
            PreparationAction::Traverse | PreparationAction::KeepNode =>
            PreparationStep::Traversing,
            PreparationAction::RouteTasks(_) => PreparationStep::Routing,
            PreparationAction::SendPlan { .. } => PreparationStep::Sending,
            PreparationAction::StartFeeds { .. } => PreparationStep::Feeding,
            PreparationAction::ReplaceStage(_) => PreparationStep::Replacing,
            PreparationAction::Prepared { .. } | PreparationAction::Failed { .. } =>
            PreparationStep::Ended,
            PreparationAction::Unexpected => awaited(actions.drop_last()),
        }
    }
}

/// The withdrawals of the plans that were sent, in order: those of the tasks whose feeds were to be
/// set up next.
pub open spec fn sent_so_far<O: DistributedPlanTelemetryObserver + ?Sized, E>(
    events: Seq<PreparationEvent<E>>,
    actions: Seq<PreparationAction<O, E>>,
) -> Seq<PlanCancellation>
    decreases actions.len(),
{
    if actions.len() == 0 {
        Seq::empty()
    } else {
        let before = sent_so_far(events.drop_last(), actions.drop_last());
        match (events.last(), actions.last()) {
            (
                PreparationEvent::Sent(Ok(cancellation)),
                PreparationAction::StartFeeds { .. },
            ) => before.push(cancellation),
            _ => before,
        }
    }
}

/// The workers that can be had, as they were told when they were asked for.
pub open spec fn pool_so_far<O: DistributedPlanTelemetryObserver + ?Sized, E>(
    events: Seq<PreparationEvent<E>>,
    actions: Seq<PreparationAction<O, E>>,
) -> Seq<String>
    decreases actions.len(),
{
    if actions.len() == 0 {
        Seq::empty()
    } else {
        match (events.last(), actions.last()) {
            (PreparationEvent::Urls(Ok(urls)), PreparationAction::Traverse) => urls@,
            _ => pool_so_far(events.drop_last(), actions.drop_last()),
        }
    }
}

/// The stage whose tasks were to be routed last.
pub open spec fn stage_so_far<O: DistributedPlanTelemetryObserver + ?Sized, E>(
    actions: Seq<PreparationAction<O, E>>,
) -> LocalStage
    decreases actions.len(),
{
    if actions.len() == 0 {
        LocalStage { query_id: 0, num: 0, tasks: 0 }
    } else {
        match actions.last() {
            PreparationAction::RouteTasks(stage) => stage,
            _ => stage_so_far(actions.drop_last()),
        }
    }
}

/// How the tasks of that stage are routed, and where unrouted ones begin.
pub open spec fn routing_so_far<O: DistributedPlanTelemetryObserver + ?Sized, E>(
    events: Seq<PreparationEvent<E>>,
    actions: Seq<PreparationAction<O, E>>,
) -> (Routing, usize)
    decreases actions.len(),
{
    if actions.len() == 0 {
        (Routing::Unrouted, 0)
    } else {
        match events.last() {
            PreparationEvent::Routing(Ok(routing), start) if !(actions.last() is Unexpected) => (
                routing,
                start,
            ),
            _ => routing_so_far(events.drop_last(), actions.drop_last()),
        }
    }
}

/// How many tasks of that stage have their feeds.
pub open spec fn fed_so_far<O: DistributedPlanTelemetryObserver + ?Sized, E>(
    events: Seq<PreparationEvent<E>>,
    actions: Seq<PreparationAction<O, E>>,
) -> int
    decreases actions.len(),
{
    if actions.len() == 0 {
        0
    } else {
        let before = fed_so_far(events.drop_last(), actions.drop_last());
        if actions.last() is RouteTasks {
            0
        } else if events.last() is Feeds && !(actions.last() is Unexpected) {
            before + 1
        } else {
            before
        }
    }
}

/// The worker of task `i`, where tasks are routed like this.
pub open spec fn worker_of(routing: (Routing, usize), pool: Seq<String>, i: int) -> Seq<char> {
    match routing.0 {
        Routing::Routed(urls) => urls@[i]@,
        _ => pool[(routing.1 + i) % pool.len() as int]@,
    }
}

/// Whether `action` goes on to task `i` of `stage`: its plan is sent to its worker. Where there is
/// no such task, the boundary is turned to a stage with the worker of every task.
pub open spec fn goes_on_to<O: DistributedPlanTelemetryObserver + ?Sized, E>(
    action: PreparationAction<O, E>,
    stage: LocalStage,
    routing: (Routing, usize),
    pool: Seq<String>,
    i: int,
) -> bool {
    if i < stage.tasks {
        action matches PreparationAction::SendPlan { task_i, url } && task_i == i && url@
            == worker_of(routing, pool, i)
    } else {
        action matches PreparationAction::ReplaceStage(remote) && remote.query_id == stage.query_id
            && remote.num == stage.num && remote.workers@.len() == stage.tasks && forall|t: int|
            0 <= t < stage.tasks ==> (#[trigger] remote.workers@[t])@ == worker_of(
                routing,
                pool,
                t,
            )
    }
}

/// Whether `action` gives up with an error of this crate: what was sent is withdrawn.
pub open spec fn gives_up<O: DistributedPlanTelemetryObserver + ?Sized, E>(
    action: PreparationAction<O, E>,
    sent: Seq<PlanCancellation>,
    text: Seq<char>,
) -> bool {
    action matches PreparationAction::Failed { error, cancellations, .. } && cancellations@ == sent
        && (error matches DistributedError::Plan(error) && error@
        == crate::error::PlanErrorView::Execution(text))
}

/// Whether `action` gives up with an error that was handed in: what was sent is withdrawn.
pub open spec fn passes_on<O: DistributedPlanTelemetryObserver + ?Sized, E>(
    action: PreparationAction<O, E>,
    sent: Seq<PlanCancellation>,
    error: E,
) -> bool {
    action matches PreparationAction::Failed { error: e, cancellations, .. } && cancellations@
        == sent && e == DistributedError::Source(error)
}

/// Whether `state` fits what has happened.
pub closed spec fn fits<O: DistributedPlanTelemetryObserver + ?Sized, E>(
    state: PlanPreparation,
    events: Seq<PreparationEvent<E>>,
    actions: Seq<PreparationAction<O, E>>,
) -> bool {
    let stage = stage_so_far(actions);
    let routing = routing_so_far(events, actions);
    let pool = pool_so_far(events, actions);
    let fed = fed_so_far(events, actions);
    let step = awaited(actions);
    &&& state.step() == step
    &&& state.wf()
    &&& step != PreparationStep::Ended ==> state.sent() == sent_so_far(events, actions)
    &&& step != PreparationStep::ResolvingWorkers && step != PreparationStep::FetchingUrls && step
        != PreparationStep::Ended ==> state.available_urls() == pool
    &&& step == PreparationStep::Routing ==> state.stage() == stage && fed == 0
    &&& step == PreparationStep::Sending || step == PreparationStep::Feeding || step
        == PreparationStep::Replacing ==> state.stage() == stage && state.workers().len()
        == stage.tasks && forall|t: int|
        0 <= t < stage.tasks ==> (#[trigger] state.workers()[t])@ == worker_of(routing, pool, t)
    &&& step == PreparationStep::Sending || step == PreparationStep::Feeding ==> state.task() == fed
}

/// Everything that the preparation of a plan does, call by call, follows from what it has asked for
/// and what it was told: the workers are asked for once; every stage that the walk reaches is
/// routed; each of its tasks in turn, from the first to the last, has its plan sent to its own
/// worker and its feeds set up; then the boundary is turned to the stage with all of these workers.
/// What was sent is handed on when the walk ends, and withdrawn with the first error. Anything else
/// that is said is refused.
#[verifier::rlimit(60)]
pub proof fn plans_are_prepared_in_order<O: DistributedPlanTelemetryObserver + ?Sized, E>(
    begun: PlanPreparation,
    calls: Seq<&mut PlanPreparation>,
    telemetry: Seq<&mut DistributedPlanTelemetryState<O>>,
    events: Seq<PreparationEvent<E>>,
    actions: Seq<PreparationAction<O, E>>,
    k: int,
)
    requires
        call_ensures(PlanPreparation::begin, (), begun),
        calls.len() == events.len(),
        actions.len() == events.len(),
        telemetry.len() == events.len(),
        calls.len() > 0 ==> *calls[0] == begun,
        forall|i: int|
            #![trigger calls[i]]
            0 <= i < calls.len() ==> match events[i] {
                PreparationEvent::Resolver(result) => call_ensures(
                    PlanPreparation::on_worker_resolver::<O, E>,
                    (calls[i], result, telemetry[i]),
                    actions[i],
                ),
                PreparationEvent::Urls(urls) => call_ensures(
                    PlanPreparation::on_urls::<O, E>,
                    (calls[i], urls, telemetry[i]),
                    actions[i],
                ),
                PreparationEvent::Node(node) => call_ensures(
                    PlanPreparation::on_node::<O, E>,
                    (calls[i], node, telemetry[i]),
                    actions[i],
                ),
                PreparationEvent::Routing(routing, start) => call_ensures(
                    PlanPreparation::on_routing::<O, E>,
                    (calls[i], routing, start, telemetry[i]),
                    actions[i],
                ),
                PreparationEvent::Sent(sent) => call_ensures(
                    PlanPreparation::on_plan_sent::<O, E>,
                    (calls[i], sent, telemetry[i]),
                    actions[i],
                ),
                PreparationEvent::Feeds(started) => call_ensures(
                    PlanPreparation::on_feeds_started::<O, E>,
                    (calls[i], started, telemetry[i]),
                    actions[i],
                ),
                PreparationEvent::Replaced(replaced) => call_ensures(
                    PlanPreparation::on_stage_replaced::<O, E>,
                    (calls[i], replaced, telemetry[i]),
                    actions[i],
                ),
                PreparationEvent::End(end) => call_ensures(
                    PlanPreparation::on_traversal_end::<O, E>,
                    (calls[i], end, telemetry[i]),
                    actions[i],
                ),
            },
        forall|i: int| 0 < i < calls.len() ==> *(#[trigger] calls[i]) == *final(calls[i - 1]),
        0 <= k < calls.len(),
    ensures
        ({
            let earlier = (events.take(k), actions.take(k));
            let sent = sent_so_far(earlier.0, earlier.1);
            let stage = stage_so_far(earlier.1);
            let pool = pool_so_far(earlier.0, earlier.1);
            let fed = fed_so_far(earlier.0, earlier.1);
            let action = actions[k];
            match (awaited(earlier.1), events[k]) {
                (PreparationStep::ResolvingWorkers, PreparationEvent::Resolver(Ok(_))) => action
                    is FetchUrls,
                (PreparationStep::FetchingUrls, PreparationEvent::Urls(Ok(_))) => action
                    is Traverse,
                (PreparationStep::Traversing, PreparationEvent::Node(PlanNode::Inner)) => action
                    is KeepNode,
                (
                    PreparationStep::Traversing,
                    PreparationEvent::Node(PlanNode::LocalBoundary(found)),
                ) => action == PreparationAction::<O, E>::RouteTasks(found),
                (
                    PreparationStep::Traversing,
                    PreparationEvent::Node(PlanNode::RemoteBoundary),
                ) => gives_up(
                    action,
                    sent,
                    "Input stage from network boundary was not in Local state"@,
                ),
                (PreparationStep::Routing, PreparationEvent::Routing(Ok(routing), start)) =>
                match routing {
                    Routing::Failed(reason) => gives_up(
                        action,
                        sent,
                        "error routing tasks to workers: "@ + reason@,
                    ),
                    Routing::Routed(urls) => if urls@.len() == stage.tasks {
                        goes_on_to(action, stage, (routing, start), pool, 0)
                    } else {
                        gives_up(
                            action,
                            sent,
                            "number of tasks ("@ + crate::text::decimal(stage.tasks as nat)
                                + ") was not equal to number of urls ("@ + crate::text::decimal(
                                urls@.len(),
                            ) + ") at execution time"@,
                        )
                    },
                    Routing::Unrouted => goes_on_to(action, stage, (routing, start), pool, 0),
                },
                (PreparationStep::Sending, PreparationEvent::Sent(Ok(_))) =>
                action matches PreparationAction::StartFeeds { task_i } && task_i == fed,
                (PreparationStep::Feeding, PreparationEvent::Feeds(Ok(_))) => goes_on_to(
                    action,
                    stage,
                    routing_so_far(earlier.0, earlier.1),
                    pool,
                    fed + 1,
                ),
                (PreparationStep::Replacing, PreparationEvent::Replaced(Ok(_))) => action
                    is Traverse,
                (PreparationStep::Traversing, PreparationEvent::End(Ok(_))) =>
                action matches PreparationAction::Prepared { cancellations } && cancellations@
                    == sent,
                (PreparationStep::ResolvingWorkers, PreparationEvent::Resolver(Err(error)))
                | (PreparationStep::FetchingUrls, PreparationEvent::Urls(Err(error)))
                | (PreparationStep::Routing, PreparationEvent::Routing(Err(error), _))
                | (PreparationStep::Sending, PreparationEvent::Sent(Err(error)))
                | (PreparationStep::Feeding, PreparationEvent::Feeds(Err(error)))
                | (PreparationStep::Replacing, PreparationEvent::Replaced(Err(error)))
                | (PreparationStep::Traversing, PreparationEvent::End(Err(error))) => passes_on(
                    action,
                    sent,
                    error,
                ),
                _ => action is Unexpected,
            }
        }),
        fits(*final(calls[k]), events.take(k + 1), actions.take(k + 1)),
    decreases k,
{
    let old_events = events.take(k);
    let old_actions = actions.take(k);
    if k == 0 {
        assert(old_events =~= Seq::empty());
        assert(old_actions =~= Seq::empty());
    } else {
        plans_are_prepared_in_order(begun, calls, telemetry, events, actions, k - 1);
        assert(*calls[k] == *final(calls[k - 1]));
    }
    assert(fits(*calls[k], old_events, old_actions));
    let new_events = events.take(k + 1);
    let new_actions = actions.take(k + 1);
    assert(new_events.drop_last() =~= old_events);
    assert(new_actions.drop_last() =~= old_actions);
    assert(new_events.last() == events[k]);
    assert(new_actions.last() == actions[k]);
}

/// What a preparation measures: the number of workers that it was told of, and one more stage for
/// each whose tasks are to be routed. A preparation that fails reports the query, where there is
/// an observer and nothing was reported before, and it reports it as failed for another reason.
pub proof fn preparations_are_measured<O: DistributedPlanTelemetryObserver + ?Sized, E>(
    fetched: &mut PlanPreparation,
    urls: Vec<String>,
    sized: &mut DistributedPlanTelemetryState<O>,
    traverse: PreparationAction<O, E>,
    walked: &mut PlanPreparation,
    stage: LocalStage,
    counted: &mut DistributedPlanTelemetryState<O>,
    route: PreparationAction<O, E>,
    broken: &mut PlanPreparation,
    error: E,
    finished: &mut DistributedPlanTelemetryState<O>,
    failed: PreparationAction<O, E>,
)
    requires
        call_ensures(
            PlanPreparation::on_urls::<O, E>,
            (fetched, Ok::<Vec<String>, E>(urls), sized),
            traverse,
        ),
        !(traverse is Unexpected),
        call_ensures(
            PlanPreparation::on_node::<O, E>,
            (walked, PlanNode::LocalBoundary(stage), counted),
            route,
        ),
        !(route is Unexpected),
        call_ensures(
            PlanPreparation::on_plan_sent::<O, E>,
            (broken, Err::<PlanCancellation, E>(error), finished),
            failed,
        ),
        !(failed is Unexpected),
    ensures
        final(sized)@.worker_pool_size == urls@.len(),
        final(sized)@.stage_count == old(sized)@.stage_count,
        final(sized)@.reported == old(sized)@.reported,
        old(counted)@.stage_count < usize::MAX ==> final(counted)@.stage_count
            == old(counted)@.stage_count + 1,
        final(counted)@.worker_pool_size == old(counted)@.worker_pool_size,
        final(counted)@.reported == old(counted)@.reported,
        final(finished)@.reported,
        failed matches PreparationAction::Failed { due, .. } && (due is Some
            <==> !old(finished)@.reported && old(finished).observer() is Some) && (
        due matches Some(n) ==> Some(n.observer) == old(finished).observer()
            && n.telemetry.outcome == PlanPublicationOutcome::Other && n.telemetry.stage_count
            == old(finished)@.stage_count && n.telemetry.task_count == old(finished)@.task_count),
{
    if old(counted)@.stage_count < usize::MAX {
        vstd::arithmetic::div_mod::lemma_small_mod(
            (old(counted)@.stage_count + 1) as nat,
            (usize::MAX + 1) as nat,
        );
    }
    assert(urls.len() == urls@.len());
}

/// Tasks that nobody has routed begin at some worker that can be had and go around all of them from
/// there; routed ones do not depend on chance.
pub proof fn random_starts_are_starts<O: DistributedPlanTelemetryObserver + ?Sized, E>(
    preparation: &mut PlanPreparation,
    telemetry: &mut DistributedPlanTelemetryState<O>,
    action: PreparationAction<O, E>,
)
    requires
        call_ensures(
            PlanPreparation::on_routing_at_random::<O, E>,
            (preparation, Ok::<Routing, E>(Routing::Unrouted), telemetry),
            action,
        ),
        preparation.wf(),
        preparation.step() == PreparationStep::Routing,
        preparation.available_urls().len() > 0,
    ensures
        exists|start: int|
            0 <= start < old(preparation).available_urls().len() && #[trigger] goes_on_to(
                action,
                old(preparation).stage(),
                (Routing::Unrouted, start as usize),
                old(preparation).available_urls(),
                0,
            ),
{
    let start = choose|start: nat|
        start < preparation.available_urls().len() && #[trigger] final(preparation).routed(
            *preparation,
            Ok::<Routing, E>(Routing::Unrouted),
            start,
            *telemetry,
            *final(telemetry),
            action,
        );
    lemma_url_count(preparation);
    assert(start as usize == start);
    assert(goes_on_to(
        action,
        preparation.stage(),
        (Routing::Unrouted, start as int as usize),
        preparation.available_urls(),
        0,
    ));
}

proof fn lemma_url_count(preparation: &PlanPreparation)
    ensures
        preparation.available_urls().len() <= usize::MAX,
{
    assert(preparation.available_urls.len() == preparation.available_urls@.len());
}

} // verus!
