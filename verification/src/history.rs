//! What the runs of a worker amount to: which writes end up in the database,
//! who is notified and when, and in what order.
//!
//! A run is the sequence of events that answer the worker's actions. Its history
//! follows what those actions do: a statement that was run belongs to the open
//! transaction, and a transaction becomes durable when its commit is done and
//! leaves nothing behind otherwise. (A script that ends the transaction itself
//! is outside this account.)

use crate::task::{task_syncs, task_writes, StatementView, TaskView};
use crate::worker::{accepts, after_event, launched};
use crate::worker::{ActionView, EventView, PhaseView, PragmaView, WorkerView};
use crate::worker::{BUSY_TIMEOUT_MILLIS, JOURNAL_MODE};
use crossbeam_channel::Sender;
use vstd::prelude::*;

verus! {

/// A batch that is over: its tasks, in order, and whether it was committed.
pub struct Batch {
    pub tasks: Seq<TaskView>,
    pub committed: bool,
}

/// What has happened in a run.
pub struct History<E> {
    /// Where the worker stands.
    pub worker: WorkerView,
    /// The action that waits for its event.
    pub action: ActionView<E>,
    /// The settings made on the connection.
    pub pragmas: Seq<PragmaView>,
    /// Whether the database has been announced as ready.
    pub ready: bool,
    /// The tasks taken from the queue.
    pub received: Seq<TaskView>,
    /// The tasks of the open batch.
    pub batch: Seq<TaskView>,
    /// The batches that are over.
    pub settled: Seq<Batch>,
    /// The statements run in the open transaction.
    pub transaction: Option<Seq<StatementView>>,
    /// Whether a transaction stands open on the connection: one was begun, and
    /// since then no commit and no rollback has been done.
    pub begun: bool,
    /// The statements that have been committed.
    pub durable: Seq<StatementView>,
    /// The callers that have been notified.
    pub notified: Seq<Sender<()>>,
}

/// The history before any event.
pub open spec fn beginning<E>(path: Seq<char>) -> History<E> {
    History {
        worker: launched(path),
        action: ActionView::Open(path),
        pragmas: Seq::empty(),
        ready: false,
        received: Seq::empty(),
        batch: Seq::empty(),
        settled: Seq::empty(),
        transaction: None,
        begun: false,
        durable: Seq::empty(),
        notified: Seq::empty(),
    }
}

/// The open batch is over.
pub open spec fn settle<E>(h: History<E>, committed: bool) -> History<E> {
    History {
        batch: Seq::empty(),
        settled: h.settled.push(Batch { tasks: h.batch, committed }),
        transaction: None,
        durable: if committed {
            h.durable + h.transaction->0
        } else {
            h.durable
        },
        ..h
    }
}

/// What the answer to the last action has done, the worker's own state aside.
pub open spec fn with_effect<E>(h: History<E>, event: EventView<E>) -> History<E> {
    match event {
        EventView::Task(task) => History {
            received: h.received.push(task),
            batch: h.batch.push(task),
            ..h
        },
        EventView::NoTask => h,
        EventView::Done => match h.action {
            ActionView::SetPragma(pragma) => History { pragmas: h.pragmas.push(pragma), ..h },
            ActionView::SignalReady => History { ready: true, ..h },
            ActionView::BeginImmediate => History {
                transaction: Some(Seq::empty()),
                begun: true,
                ..h
            },
            ActionView::Run(statement) => History {
                transaction: Some(h.transaction->0.push(statement)),
                ..h
            },
            ActionView::Commit => History { begun: false, ..settle(h, true) },
            ActionView::Rollback => History { begun: false, ..h },
            ActionView::Notify(notifiers) => History { notified: h.notified + notifiers, ..h },
            _ => h,
        },
        EventView::Failed(_) => match h.action {
            ActionView::BeginImmediate | ActionView::Run(_) | ActionView::Commit => settle(h, false),
            _ => h,
        },
    }
}

/// The history after one more event.
pub open spec fn advance<E>(h: History<E>, event: EventView<E>) -> History<E> {
    let (worker, action) = after_event(h.worker, event);
    History { worker, action, ..with_effect(h, event) }
}

/// The history of a run.
pub open spec fn history<E>(path: Seq<char>, events: Seq<EventView<E>>) -> History<E>
    decreases events.len(),
{
    if events.len() == 0 {
        beginning(path)
    } else {
        advance(history(path, events.drop_last()), events.last())
    }
}

/// Each event of the run answers the action before it.
pub open spec fn is_run<E>(path: Seq<char>, events: Seq<EventView<E>>) -> bool
    decreases events.len(),
{
    events.len() > 0 ==> {
        &&& is_run(path, events.drop_last())
        &&& accepts(history(path, events.drop_last()).worker.phase, events.last())
    }
}

/// The tasks of the run come from a queue that was filled with `sent`: each one
/// taken is the next one sent, and a wait finds the queue at its end only when
/// all of them have been taken.
pub open spec fn draws_from<E>(
    path: Seq<char>,
    events: Seq<EventView<E>>,
    sent: Seq<TaskView>,
) -> bool
    decreases events.len(),
{
    events.len() > 0 ==> {
        let before = history(path, events.drop_last());
        let taken = before.received.len();
        &&& draws_from(path, events.drop_last(), sent)
        &&& events.last() matches EventView::Task(task) ==> taken < sent.len() && task
            == sent[taken as int]
        &&& events.last() is NoTask && before.action is Receive ==> taken == sent.len()
    }
}

/// The run finds all of `sent` in the queue: it draws from it, and also a look for
/// one more task finds none only when all of them have been taken.
pub open spec fn finds_queued<E>(
    path: Seq<char>,
    events: Seq<EventView<E>>,
    sent: Seq<TaskView>,
) -> bool
    decreases events.len(),
{
    &&& draws_from(path, events, sent)
    &&& events.len() > 0 ==> {
        &&& finds_queued(path, events.drop_last(), sent)
        &&& events.last() is NoTask ==> history(path, events.drop_last()).received.len()
            == sent.len()
    }
}

/// The batch at `b` holds, at `j`, what the batches hold at position `at`.
pub open spec fn stands_at(batches: Seq<Batch>, at: int, b: int, j: int) -> bool {
    &&& 0 <= b < batches.len()
    &&& 0 <= j < batches[b].tasks.len()
    &&& at == tasks_of(batches.take(b)).len() + j
}

/// The statements that these tasks ask to run, in order.
pub open spec fn writes_of(tasks: Seq<TaskView>) -> Seq<StatementView>
    decreases tasks.len(),
{
    if tasks.len() == 0 {
        Seq::empty()
    } else {
        writes_of(tasks.drop_last()) + task_writes(tasks.last())
    }
}

/// The callers that these tasks ask to notify, in order.
pub open spec fn syncs_of(tasks: Seq<TaskView>) -> Seq<Sender<()>>
    decreases tasks.len(),
{
    if tasks.len() == 0 {
        Seq::empty()
    } else {
        syncs_of(tasks.drop_last()) + task_syncs(tasks.last())
    }
}

/// The tasks of these batches, in order.
pub open spec fn tasks_of(batches: Seq<Batch>) -> Seq<TaskView>
    decreases batches.len(),
{
    if batches.len() == 0 {
        Seq::empty()
    } else {
        tasks_of(batches.drop_last()) + batches.last().tasks
    }
}

/// The tasks of those batches that were committed, in order.
pub open spec fn committed_tasks(batches: Seq<Batch>) -> Seq<TaskView>
    decreases batches.len(),
{
    if batches.len() == 0 {
        Seq::empty()
    } else if batches.last().committed {
        committed_tasks(batches.drop_last()) + batches.last().tasks
    } else {
        committed_tasks(batches.drop_last())
    }
}

/// None of these tasks is a stop.
pub open spec fn without_stop(tasks: Seq<TaskView>) -> bool {
    forall|i: int| 0 <= i < tasks.len() ==> !(#[trigger] tasks[i] is Stop)
}

/// The settings of a ready connection: none on an in-memory database, else the
/// journal mode and then the busy timeout.
pub open spec fn wanted_pragmas(in_memory: bool) -> Seq<PragmaView> {
    if in_memory {
        Seq::empty()
    } else {
        seq![PragmaView::JournalMode(JOURNAL_MODE@), PragmaView::BusyTimeout(BUSY_TIMEOUT_MILLIS)]
    }
}

/// A batch that is over had a task, and a stop only at its end.
pub open spec fn is_whole(batch: Batch) -> bool {
    &&& batch.tasks.len() > 0
    &&& without_stop(batch.tasks.drop_last())
}

} // verus!
