# Distributed plan execution

A coordinator assigns workers to the tasks of a query plan, sends every worker its part of the plan,
and executes the rest once all of them have acknowledged theirs. Workers publish the plans that they
receive, execute their partitions, and report metrics back.

- `src/` is the library, verified with Verus: the decisions of the coordinator
  (`src/coordinator/`) and of the workers (`src/worker/`), the messages between them, the errors, and
  the measurements of plan publication.
- `app/` connects the library to DataFusion, Arrow Flight and gRPC: sessions, streams, background
  tasks and caches.
- `tests/` runs the library on concrete values.

## How the library is used

What happens outside (a call, a timeout, a message) is handed to a state machine of the library as an
event, and the machine answers with what to do next. The machines are `PlanPreparation`,
`PublicationTask` and `PlanExecution` on the coordinator, and `PlanChannel` on the worker. Functions
that execute partitions or rewrite arrays take the outside work as a closure.

An observer of the measurements is never called by the library itself: it hands out notifications,
and whoever delivers them guards against what the observer may do.

## What is taken on trust

The contracts of the calls into `uuid`, `url`, `tonic`, `rand` and `datafusion_proto`, and of
`Duration` and the `Hash` of a byte vector, are stated and not proved.
Each of them says in its documentation what it claims.
