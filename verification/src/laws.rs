//! The laws of the worker: what holds of every run, however the queue is filled
//! and whichever actions fail.

use crate::history::{advance, history, is_run, stands_at, Batch, History};
use crate::history::{draws_from, finds_queued};
use crate::history::{committed_tasks, syncs_of, tasks_of, writes_of};
use crate::history::{is_whole, wanted_pragmas, without_stop};
use crate::path::names_shared_memory;
use crate::task::{task_step, task_syncs, task_writes, StatementView, StepView, TaskView};
use crate::worker::{accepts, ActionView, EventView, PhaseView, PragmaView};
use crate::worker::{BUSY_TIMEOUT_MILLIS, JOURNAL_MODE};
use crossbeam_channel::Sender;
use rusqlite::types::Value;
use vstd::prelude::*;

verus! {

/// What holds of the start of a worker.
spec fn start_inv<E>(path: Seq<char>, h: History<E>) -> bool {
    let w = h.worker;
    &&& w.in_memory == names_shared_memory(path)
    &&& match w.phase {
        PhaseView::Opening => {
            &&& h.action == ActionView::<E>::Open(path)
            &&& h.pragmas.len() == 0
            &&& !h.ready
        },
        PhaseView::SettingJournalMode => {
            &&& !w.in_memory
            &&& h.action == ActionView::<E>::SetPragma(PragmaView::JournalMode(JOURNAL_MODE@))
            &&& h.pragmas.len() == 0
            &&& !h.ready
        },
        PhaseView::SettingBusyTimeout => {
            &&& !w.in_memory
            &&& h.action == ActionView::<E>::SetPragma(PragmaView::BusyTimeout(BUSY_TIMEOUT_MILLIS))
            &&& h.pragmas == seq![PragmaView::JournalMode(JOURNAL_MODE@)]
            &&& !h.ready
        },
        PhaseView::Announcing => {
            &&& h.action is SignalReady
            &&& h.pragmas == wanted_pragmas(w.in_memory)
            &&& !h.ready
        },
        PhaseView::Finished => {
            &&& h.ready ==> h.pragmas == wanted_pragmas(w.in_memory)
            &&& h.action matches ActionView::Exit(result) && result is Ok == h.ready
        },
        _ => h.pragmas == wanted_pragmas(w.in_memory) && h.ready,
    }
    &&& !h.ready ==> h.received.len() == 0 && h.settled.len() == 0
}

/// What holds of the open batch.
spec fn batch_inv<E>(h: History<E>) -> bool {
    let w = h.worker;
    let open = w.phase is Running || w.phase is Draining || w.phase is Committing;
    &&& h.transaction is Some == open
    &&& h.begun == (open || w.phase is RollingBack)
    &&& open ==> h.batch.len() > 0 && w.pending == syncs_of(h.batch)
    &&& !open ==> w.pending.len() == 0
    &&& match w.phase {
        PhaseView::Beginning(first) => h.action is BeginImmediate && h.batch == seq![first],
        PhaseView::Running => {
            &&& h.action matches ActionView::Run(statement) && writes_of(h.batch)
                == h.transaction->0.push(statement)
            &&& without_stop(h.batch)
        },
        PhaseView::Draining => {
            &&& h.action is TryReceive
            &&& writes_of(h.batch) == h.transaction->0
            &&& without_stop(h.batch)
        },
        PhaseView::Committing(stop) => {
            &&& h.action is Commit
            &&& writes_of(h.batch) == h.transaction->0
            &&& without_stop(h.batch.drop_last())
            &&& stop == h.batch.last() is Stop
        },
        PhaseView::Waiting => h.action is Receive && h.batch.len() == 0,
        PhaseView::RollingBack => h.action is Rollback && h.batch.len() == 0,
        _ => h.batch.len() == 0,
    }
}

/// What holds of the batches that are over.
spec fn settled_inv<E>(h: History<E>) -> bool {
    let w = h.worker;
    &&& h.received == tasks_of(h.settled) + h.batch
    &&& h.durable == writes_of(committed_tasks(h.settled))
    &&& match w.phase {
        PhaseView::Notifying(stop) => {
            &&& h.settled.len() > 0
            &&& h.settled.last().committed
            &&& stop == h.settled.last().tasks.last() is Stop
            &&& h.action == ActionView::<E>::Notify(syncs_of(h.settled.last().tasks))
            &&& h.notified == syncs_of(committed_tasks(h.settled.drop_last()))
        },
        _ => {
            &&& !(h.action is Notify)
            &&& h.notified == syncs_of(committed_tasks(h.settled))
        },
    }
    &&& forall|i: int| 0 <= i < h.settled.len() ==> is_whole(#[trigger] h.settled[i])
    &&& forall|i: int|
        0 <= i < h.settled.len() && (#[trigger] h.settled[i]).committed
            && h.settled[i].tasks.last() is Stop ==> i == h.settled.len() - 1 && (w.phase
            == PhaseView::Notifying(true) || w.phase is Finished)
}

/// What holds in every run.
spec fn inv<E>(path: Seq<char>, h: History<E>) -> bool {
    &&& start_inv(path, h)
    &&& batch_inv(h)
    &&& settled_inv(h)
}

pub(crate) proof fn lemma_writes_of_add(a: Seq<TaskView>, b: Seq<TaskView>)
    ensures
        writes_of(a + b) == writes_of(a) + writes_of(b),
    decreases b.len(),
{
    if b.len() == 0 {
        assert(a + b =~= a);
        assert(writes_of(a) + writes_of(b) =~= writes_of(a));
    } else {
        lemma_writes_of_add(a, b.drop_last());
        assert((a + b).drop_last() =~= a + b.drop_last());
        assert((a + b).last() == b.last());
        assert(writes_of(a + b) =~= writes_of(a) + writes_of(b));
    }
}

proof fn lemma_syncs_of_add(a: Seq<TaskView>, b: Seq<TaskView>)
    ensures
        syncs_of(a + b) == syncs_of(a) + syncs_of(b),
    decreases b.len(),
{
    if b.len() == 0 {
        assert(a + b =~= a);
        assert(syncs_of(a) + syncs_of(b) =~= syncs_of(a));
    } else {
        lemma_syncs_of_add(a, b.drop_last());
        assert((a + b).drop_last() =~= a + b.drop_last());
        assert((a + b).last() == b.last());
        assert(syncs_of(a + b) =~= syncs_of(a) + syncs_of(b));
    }
}

proof fn lemma_push_batch(batches: Seq<Batch>, batch: Batch)
    ensures
        tasks_of(batches.push(batch)) == tasks_of(batches) + batch.tasks,
        committed_tasks(batches.push(batch)) == (if batch.committed {
            committed_tasks(batches) + batch.tasks
        } else {
            committed_tasks(batches)
        }),
{
    assert(batches.push(batch).drop_last() =~= batches);
}

proof fn lemma_push_task(tasks: Seq<TaskView>, task: TaskView)
    ensures
        writes_of(tasks.push(task)) == writes_of(tasks) + task_writes(task),
        syncs_of(tasks.push(task)) == syncs_of(tasks) + task_syncs(task),
{
    assert(tasks.push(task).drop_last() =~= tasks);
}

/// What a further task adds to a batch: a statement to run, or nothing to run.
proof fn lemma_task_joins(tasks: Seq<TaskView>, task: TaskView)
    ensures
        task_step(task) matches StepView::Run(statement) ==> writes_of(
            tasks.push(task),
        ) == writes_of(tasks).push(statement),
        !(task_step(task) is Run) ==> writes_of(tasks.push(task)) == writes_of(tasks),
        without_stop(tasks) && !(task is Stop) ==> without_stop(tasks.push(task)),
{
    lemma_push_task(tasks, task);
    match task_step(task) {
        StepView::Run(statement) => {
            assert(writes_of(tasks.push(task)) =~= writes_of(tasks).push(statement));
        },
        _ => {
            assert(writes_of(tasks.push(task)) =~= writes_of(tasks));
        },
    }
}

proof fn lemma_advance<E>(path: Seq<char>, h: History<E>, event: EventView<E>)
    requires
        inv(path, h),
        accepts(h.worker.phase, event),
    ensures
        inv(path, advance(h, event)),
{
    let next = advance(h, event);
    lemma_push_batch(h.settled, Batch { tasks: h.batch, committed: true });
    lemma_push_batch(h.settled, Batch { tasks: h.batch, committed: false });
    lemma_writes_of_add(committed_tasks(h.settled), h.batch);
    lemma_syncs_of_add(committed_tasks(h.settled), h.batch);
    assert(next.settled.drop_last() =~= if next.settled.len() > h.settled.len() {
        h.settled
    } else {
        h.settled.drop_last()
    });
    match event {
        EventView::Task(task) => {
            lemma_push_task(h.batch, task);
            assert(h.batch.push(task).drop_last() =~= h.batch);
            assert(next.received =~= tasks_of(h.settled) + next.batch);
            if h.worker.phase is Waiting {
                assert(next.batch =~= seq![task]);
            } else {
                lemma_task_joins(h.batch, task);
                assert(next.worker.pending =~= syncs_of(next.batch));
            }
        },
        EventView::NoTask => {},
        EventView::Done => {
            match h.worker.phase {
                PhaseView::SettingJournalMode => {
                    assert(next.pragmas =~= seq![PragmaView::JournalMode(JOURNAL_MODE@)]);
                },
                PhaseView::SettingBusyTimeout => {
                    assert(next.pragmas =~= wanted_pragmas(h.worker.in_memory));
                },
                PhaseView::Opening => {
                    assert(next.worker.in_memory ==> next.pragmas =~= wanted_pragmas(true));
                },
                PhaseView::Beginning(first) => {
                    lemma_push_task(Seq::empty(), first);
                    lemma_task_joins(Seq::empty(), first);
                    assert(h.batch =~= Seq::<TaskView>::empty().push(first));
                    assert(next.worker.pending =~= syncs_of(h.batch));
                },
                PhaseView::Notifying(_) => {
                    lemma_syncs_of_add(
                        committed_tasks(h.settled.drop_last()),
                        h.settled.last().tasks,
                    );
                },
                _ => {},
            }
        },
        EventView::Failed(_) => {},
    }
}

proof fn lemma_inv<E>(path: Seq<char>, events: Seq<EventView<E>>)
    requires
        is_run(path, events),
    ensures
        inv(path, history(path, events)),
    decreases events.len(),
{
    if events.len() > 0 {
        lemma_inv(path, events.drop_last());
        lemma_advance(path, history(path, events.drop_last()), events.last());
    }
}

/// The database is announced as ready only with its settings made, and no task
/// is taken from the queue before that.
pub proof fn law_ready_before_first_task<E>(path: Seq<char>, events: Seq<EventView<E>>)
    requires
        is_run(path, events),
    ensures
        ({
            let h = history(path, events);
            &&& h.action is SignalReady || h.ready ==> h.pragmas == wanted_pragmas(
                names_shared_memory(path),
            )
            &&& h.action is Receive || h.received.len() > 0 ==> h.ready
        }),
{
    lemma_inv(path, events);
}

/// A worker ends with an error only if its connection could not be opened or
/// set up, and then it has taken no task, committed nothing and notified nobody.
pub proof fn law_error_exit_only_before_ready<E>(path: Seq<char>, events: Seq<EventView<E>>)
    requires
        is_run(path, events),
    ensures
        ({
            let h = history(path, events);
            h.action matches ActionView::Exit(result) ==> {
                &&& result is Ok <==> h.ready
                &&& result is Err ==> {
                    &&& h.received.len() == 0
                    &&& h.durable.len() == 0
                    &&& h.notified.len() == 0
                }
            }
        }),
{
    lemma_inv(path, events);
}

/// A failure before the database is ready ends the worker with that error.
pub proof fn law_failed_start_ends_worker<E>(path: Seq<char>, events: Seq<EventView<E>>, error: E)
    requires
        is_run(path, events),
        !history(path, events).ready,
        accepts(history(path, events).worker.phase, EventView::Failed(error)),
    ensures
        history(path, events.push(EventView::Failed(error))).action == ActionView::<E>::Exit(
            Err(error),
        ),
{
    lemma_inv(path, events);
    assert(events.push(EventView::Failed(error)).drop_last() =~= events);
}

/// Statements are run and committed only in an open transaction, which holds
/// what was run of its own batch, in order. The worker begins one, waits for a
/// task, notifies and ends only with none open.
pub proof fn law_one_transaction_per_batch<E>(path: Seq<char>, events: Seq<EventView<E>>)
    requires
        is_run(path, events),
    ensures
        ({
            let h = history(path, events);
            &&& h.action is Run || h.action is TryReceive || h.action is Commit
                <==> h.transaction is Some
            &&& h.transaction matches Some(run) ==> h.batch.len() > 0 && run.is_prefix_of(
                writes_of(h.batch),
            )
            &&& h.action is Receive || h.action is Notify || h.action is Exit
                ==> h.batch.len() == 0
        }),
{
    lemma_inv(path, events);
    let h = history(path, events);
    if h.transaction is Some {
        let run = h.transaction->0;
        assert(run =~= writes_of(h.batch).take(run.len() as int));
    }
}

/// A batch takes all that is in the queue: unless it ends with a stop, it is
/// committed only after the queue was found empty.
pub proof fn law_batch_drains_the_queue<E>(path: Seq<char>, events: Seq<EventView<E>>)
    requires
        is_run(path, events),
        history(path, events).action is Commit,
    ensures
        history(path, events).batch.last() is Stop || (events.len() > 0 && events.last() is NoTask),
{
    lemma_inv(path, events);
    if events.len() > 0 {
        lemma_inv(path, events.drop_last());
    }
}

/// The tasks are taken in the order of the queue, each in exactly one batch.
pub proof fn law_batches_keep_order<E>(path: Seq<char>, events: Seq<EventView<E>>)
    requires
        is_run(path, events),
    ensures
        ({
            let h = history(path, events);
            h.received == tasks_of(h.settled) + h.batch
        }),
{
    lemma_inv(path, events);
}

/// What is durable is what the committed batches asked to write, all of it, in
/// order and once; a batch that failed leaves nothing.
pub proof fn law_durable_is_what_committed_batches_wrote<E>(
    path: Seq<char>,
    events: Seq<EventView<E>>,
)
    requires
        is_run(path, events),
    ensures
        ({
            let h = history(path, events);
            h.durable == writes_of(committed_tasks(h.settled))
        }),
{
    lemma_inv(path, events);
}

/// The callers notified, with those about to be, are those who synchronised in
/// a committed batch: each of them once, in order, and nobody else.
pub proof fn law_notified_are_the_committed_syncs<E>(path: Seq<char>, events: Seq<EventView<E>>)
    requires
        is_run(path, events),
    ensures
        ({
            let h = history(path, events);
            syncs_of(committed_tasks(h.settled)) == match h.action {
                ActionView::Notify(notifiers) => h.notified + notifiers,
                _ => h.notified,
            }
        }),
{
    lemma_inv(path, events);
    let h = history(path, events);
    if h.action is Notify {
        lemma_syncs_of_add(committed_tasks(h.settled.drop_last()), h.settled.last().tasks);
    }
}

proof fn lemma_sync_has_position(batches: Seq<Batch>, notify: Sender<()>)
    requires
        syncs_of(committed_tasks(batches)).contains(notify),
    ensures
        exists|b: int, j: int|
            {
                &&& 0 <= b < batches.len()
                &&& batches[b].committed
                &&& 0 <= j < batches[b].tasks.len()
                &&& #[trigger] batches[b].tasks[j] == TaskView::Sync(notify)
            },
    decreases batches.len(),
{
    if batches.len() > 0 {
        let earlier = batches.drop_last();
        let last = batches.last();
        if last.committed {
            lemma_syncs_of_add(committed_tasks(earlier), last.tasks);
        }
        let at = syncs_of(committed_tasks(batches)).index_of(notify);
        if at < syncs_of(committed_tasks(earlier)).len() {
            assert(syncs_of(committed_tasks(earlier))[at] == notify);
            lemma_sync_has_position(earlier, notify);
            let (b, j) = choose|b: int, j: int|
                {
                    &&& 0 <= b < earlier.len()
                    &&& earlier[b].committed
                    &&& 0 <= j < earlier[b].tasks.len()
                    &&& #[trigger] earlier[b].tasks[j] == TaskView::Sync(notify)
                };
            assert(batches[b].tasks[j] == TaskView::Sync(notify));
        } else {
            assert(syncs_of(last.tasks)[at - syncs_of(committed_tasks(earlier)).len()] == notify);
            lemma_sync_has_task(last.tasks, notify);
            let j = choose|j: int|
                0 <= j < last.tasks.len() && #[trigger] last.tasks[j] == TaskView::Sync(notify);
            assert(batches[batches.len() - 1].tasks[j] == TaskView::Sync(notify));
        }
    }
}

proof fn lemma_sync_has_task(tasks: Seq<TaskView>, notify: Sender<()>)
    requires
        syncs_of(tasks).contains(notify),
    ensures
        exists|j: int| 0 <= j < tasks.len() && #[trigger] tasks[j] == TaskView::Sync(notify),
    decreases tasks.len(),
{
    if tasks.len() > 0 {
        let at = syncs_of(tasks).index_of(notify);
        let earlier = tasks.drop_last();
        if at < syncs_of(earlier).len() {
            assert(syncs_of(earlier)[at] == notify);
            lemma_sync_has_task(earlier, notify);
            let j = choose|j: int|
                0 <= j < earlier.len() && #[trigger] earlier[j] == TaskView::Sync(notify);
            assert(tasks[j] == TaskView::Sync(notify));
        } else {
            assert(tasks[tasks.len() - 1] == TaskView::Sync(notify));
        }
    }
}

/// Whoever is notified had synchronised in a batch that was committed first.
pub proof fn law_notified_means_committed<E>(
    path: Seq<char>,
    events: Seq<EventView<E>>,
    notify: Sender<()>,
)
    requires
        is_run(path, events),
        ({
            let h = history(path, events);
            h.notified.contains(notify) || (h.action matches ActionView::Notify(notifiers)
                && notifiers.contains(notify))
        }),
    ensures
        ({
            let h = history(path, events);
            exists|b: int, j: int|
                {
                    &&& 0 <= b < h.settled.len()
                    &&& h.settled[b].committed
                    &&& 0 <= j < h.settled[b].tasks.len()
                    &&& #[trigger] h.settled[b].tasks[j] == TaskView::Sync(notify)
                }
        }),
{
    let h = history(path, events);
    law_notified_are_the_committed_syncs(path, events);
    let all = syncs_of(committed_tasks(h.settled));
    if h.notified.contains(notify) {
        let i = h.notified.index_of(notify);
        assert(all[i] == notify);
    } else {
        let notifiers = h.action->Notify_0;
        let i = notifiers.index_of(notify);
        assert(all[h.notified.len() + i] == notify);
    }
    lemma_sync_has_position(h.settled, notify);
}

proof fn lemma_earlier_batches(batches: Seq<Batch>, b: int)
    requires
        0 <= b < batches.len(),
    ensures
        (tasks_of(batches.take(b)) + batches[b].tasks).is_prefix_of(tasks_of(batches)),
        batches[b].committed ==> (committed_tasks(batches.take(b)) + batches[b].tasks).is_prefix_of(
            committed_tasks(batches),
        ),
    decreases batches.len(),
{
    if b == batches.len() - 1 {
        assert(batches.take(b) =~= batches.drop_last());
        assert(tasks_of(batches).take(tasks_of(batches).len() as int) =~= tasks_of(batches));
        assert(committed_tasks(batches).take(committed_tasks(batches).len() as int)
            =~= committed_tasks(batches));
    } else {
        let earlier = batches.drop_last();
        lemma_earlier_batches(earlier, b);
        assert(earlier.take(b) =~= batches.take(b));
        let t = tasks_of(batches.take(b)) + batches[b].tasks;
        assert(t =~= tasks_of(batches).take(t.len() as int));
        let c = committed_tasks(batches.take(b)) + batches[b].tasks;
        if batches[b].committed {
            assert(c =~= committed_tasks(batches).take(c.len() as int));
        }
    }
}

proof fn lemma_all_committed(batches: Seq<Batch>)
    requires
        forall|i: int| 0 <= i < batches.len() ==> (#[trigger] batches[i]).committed,
    ensures
        committed_tasks(batches) == tasks_of(batches),
    decreases batches.len(),
{
    if batches.len() > 0 {
        let earlier = batches.drop_last();
        assert forall|i: int| 0 <= i < earlier.len() implies (#[trigger] earlier[i]).committed by {
            assert(batches[i].committed);
        }
        lemma_all_committed(earlier);
        assert(batches[batches.len() - 1].committed);
    }
}

proof fn lemma_prefix_writes(a: Seq<TaskView>, b: Seq<TaskView>)
    requires
        a.is_prefix_of(b),
    ensures
        writes_of(a).is_prefix_of(writes_of(b)),
{
    let tail = b.skip(a.len() as int);
    assert(b =~= a + tail);
    lemma_writes_of_add(a, tail);
    assert(writes_of(a) =~= writes_of(b).take(writes_of(a).len() as int));
}

/// A synchronisation in a committed batch covers what was queued before it: the
/// writes before it in its own batch and in all earlier committed batches are
/// durable, in order. If no earlier batch failed, those are all writes queued
/// before it.
pub proof fn law_sync_covers_earlier_writes<E>(
    path: Seq<char>,
    events: Seq<EventView<E>>,
    b: int,
    j: int,
)
    requires
        is_run(path, events),
        0 <= b < history(path, events).settled.len(),
        history(path, events).settled[b].committed,
        0 <= j < history(path, events).settled[b].tasks.len(),
    ensures
        ({
            let h = history(path, events);
            let before = h.settled.take(b);
            let own = h.settled[b].tasks;
            let at = tasks_of(before).len() + j;
            &&& at < h.received.len()
            &&& h.received[at] == own[j]
            &&& writes_of(committed_tasks(before) + own.take(j)).is_prefix_of(h.durable)
            &&& (forall|i: int| 0 <= i < b ==> (#[trigger] h.settled[i]).committed) ==> writes_of(
                h.received.take(at),
            ).is_prefix_of(h.durable)
        }),
{
    lemma_inv(path, events);
    let h = history(path, events);
    let before = h.settled.take(b);
    let own = h.settled[b].tasks;
    let at = tasks_of(before).len() + j;
    lemma_earlier_batches(h.settled, b);
    let upto = tasks_of(before) + own;
    assert(upto.len() <= tasks_of(h.settled).len() <= h.received.len());
    assert(upto[at] == own[j]);
    assert(upto[at] == tasks_of(h.settled).take(upto.len() as int)[at]);
    assert(h.received[at] == tasks_of(h.settled)[at]);
    let covered = committed_tasks(before) + own.take(j);
    let all = committed_tasks(before) + own;
    assert(covered =~= all.take(covered.len() as int));
    assert(all == committed_tasks(h.settled).take(all.len() as int));
    assert(covered =~= committed_tasks(h.settled).take(covered.len() as int));
    lemma_prefix_writes(covered, committed_tasks(h.settled));
    if forall|i: int| 0 <= i < b ==> (#[trigger] h.settled[i]).committed {
        assert forall|i: int| 0 <= i < before.len() implies (#[trigger] before[i]).committed by {
            assert(h.settled[i].committed);
        }
        lemma_all_committed(before);
        assert(h.received.take(at) =~= covered) by {
            assert forall|i: int| 0 <= i < at implies h.received[i] == covered[i] by {
                assert(h.received[i] == tasks_of(h.settled)[i]);
                assert(upto[i] == tasks_of(h.settled).take(upto.len() as int)[i]);
                assert(upto[i] == covered[i]);
            }
        }
    }
}

/// A failure after the database is ready costs the open batch and no more: its
/// writes do not become durable, nobody who waits on it is notified, and the
/// worker goes on.
pub proof fn law_failure_costs_one_batch<E>(path: Seq<char>, events: Seq<EventView<E>>, error: E)
    requires
        is_run(path, events),
        history(path, events).ready,
        accepts(history(path, events).worker.phase, EventView::Failed(error)),
    ensures
        ({
            let h = history(path, events);
            let next = history(path, events.push(EventView::Failed(error)));
            &&& next.settled == h.settled.push(Batch { tasks: h.batch, committed: false })
            &&& next.durable == h.durable
            &&& next.notified == h.notified
            &&& next.worker.pending.len() == 0
            &&& next.transaction is None
            &&& next.action is Receive || next.action is Rollback
            &&& next.action is Rollback ==> history(
                path,
                events.push(EventView::Failed(error)).push(EventView::Done),
            ).action is Receive
        }),
{
    lemma_inv(path, events);
    let failed = events.push(EventView::Failed(error));
    assert(failed.drop_last() =~= events);
    assert(failed.push(EventView::Done).drop_last() =~= failed);
}

/// No task of its batch follows a stop, and once its batch is committed the stop
/// is the last task the worker takes: it answers the synchronisations of the
/// batch and ends.
pub proof fn law_stop_is_final<E>(path: Seq<char>, events: Seq<EventView<E>>)
    requires
        is_run(path, events),
    ensures
        ({
            let h = history(path, events);
            &&& forall|b: int| 0 <= b < h.settled.len() ==> is_whole(#[trigger] h.settled[b])
            &&& forall|b: int|
                0 <= b < h.settled.len() && (#[trigger] h.settled[b]).committed
                    && h.settled[b].tasks.last() is Stop ==> {
                    &&& b == h.settled.len() - 1
                    &&& h.batch.len() == 0
                    &&& h.received.last() is Stop
                    &&& h.action is Notify || h.action == ActionView::<E>::Exit(Ok(()))
                    &&& h.action is Notify ==> history(
                        path,
                        events.push(EventView::Done),
                    ).action == ActionView::<E>::Exit(Ok(()))
                }
        }),
{
    lemma_inv(path, events);
    let h = history(path, events);
    assert(events.push(EventView::Done).drop_last() =~= events);
    if h.settled.len() > 0 {
        assert(is_whole(h.settled[h.settled.len() - 1]));
    }
    assert forall|b: int|
        0 <= b < h.settled.len() && (#[trigger] h.settled[b]).committed
            && h.settled[b].tasks.last() is Stop implies h.received.last() is Stop by {
        assert(b == h.settled.len() - 1);
        assert(h.received =~= tasks_of(h.settled));
        assert(h.received.last() == h.settled.last().tasks.last());
    }
}

/// What is durable, who was notified and what was received is never taken back.
pub proof fn law_history_only_grows<E>(
    path: Seq<char>,
    events: Seq<EventView<E>>,
    event: EventView<E>,
)
    requires
        is_run(path, events.push(event)),
    ensures
        ({
            let h = history(path, events);
            let next = history(path, events.push(event));
            &&& h.durable.is_prefix_of(next.durable)
            &&& h.notified.is_prefix_of(next.notified)
            &&& h.received.is_prefix_of(next.received)
            &&& h.ready ==> next.ready
        }),
{
    let h = history(path, events);
    let next = history(path, events.push(event));
    assert(events.push(event).drop_last() =~= events);
    assert(h.durable =~= next.durable.take(h.durable.len() as int));
    assert(h.notified =~= next.notified.take(h.notified.len() as int));
    assert(h.received =~= next.received.take(h.received.len() as int));
}

proof fn lemma_draws<E>(path: Seq<char>, events: Seq<EventView<E>>, sent: Seq<TaskView>)
    requires
        draws_from(path, events, sent),
    ensures
        history(path, events).received.is_prefix_of(sent),
    decreases events.len(),
{
    let received = history(path, events).received;
    if events.len() > 0 {
        lemma_draws(path, events.drop_last(), sent);
    }
    assert(received =~= sent.take(received.len() as int));
}

/// As long as no batch fails nothing is lost: the writes of all tasks that were
/// sent and have been settled are durable, in the order in which they were sent.
pub proof fn law_without_failure_nothing_is_lost<E>(
    path: Seq<char>,
    events: Seq<EventView<E>>,
    sent: Seq<TaskView>,
)
    requires
        is_run(path, events),
        draws_from(path, events, sent),
        forall|i: int|
            0 <= i < history(path, events).settled.len() ==> (#[trigger] history(
                path,
                events,
            ).settled[i]).committed,
    ensures
        ({
            let h = history(path, events);
            &&& tasks_of(h.settled).is_prefix_of(sent)
            &&& h.durable == writes_of(tasks_of(h.settled))
        }),
{
    lemma_inv(path, events);
    lemma_draws(path, events, sent);
    let h = history(path, events);
    lemma_all_committed(h.settled);
    let done = tasks_of(h.settled);
    assert(done =~= sent.take(done.len() as int)) by {
        assert forall|i: int| 0 <= i < done.len() implies done[i] == sent[i] by {
            assert(h.received[i] == sent.take(h.received.len() as int)[i]);
        }
    }
}

/// A synchronisation that is answered is done: its notifier having been sent at
/// position `at` and nowhere else, everything sent before it has been taken and
/// settled, its own batch is committed with the writes before it, and if no
/// batch up to then failed, all writes sent before it are durable.
pub proof fn law_answered_sync_is_done<E>(
    path: Seq<char>,
    events: Seq<EventView<E>>,
    sent: Seq<TaskView>,
    notify: Sender<()>,
    at: int,
)
    requires
        is_run(path, events),
        draws_from(path, events, sent),
        0 <= at < sent.len(),
        sent[at] == TaskView::Sync(notify),
        forall|i: int|
            0 <= i < sent.len() && i != at ==> #[trigger] sent[i] != TaskView::Sync(notify),
        ({
            let h = history(path, events);
            h.notified.contains(notify) || (h.action matches ActionView::Notify(notifiers)
                && notifiers.contains(notify))
        }),
    ensures
        ({
            let h = history(path, events);
            &&& at < tasks_of(h.settled).len()
            &&& sent.take(at) == tasks_of(h.settled).take(at)
            &&& exists|b: int, j: int|
                {
                    &&& 0 <= b < h.settled.len()
                    &&& h.settled[b].committed
                    &&& 0 <= j < h.settled[b].tasks.len()
                    &&& #[trigger] h.settled[b].tasks[j] == TaskView::Sync(notify)
                    &&& at == tasks_of(h.settled.take(b)).len() + j
                    &&& writes_of(
                        committed_tasks(h.settled.take(b)) + h.settled[b].tasks.take(j),
                    ).is_prefix_of(h.durable)
                    &&& (forall|i: int| 0 <= i < b ==> (#[trigger] h.settled[i]).committed)
                        ==> writes_of(sent.take(at)).is_prefix_of(h.durable)
                }
        }),
{
    lemma_inv(path, events);
    lemma_draws(path, events, sent);
    law_notified_means_committed(path, events, notify);
    let h = history(path, events);
    let (b, j) = choose|b: int, j: int|
        {
            &&& 0 <= b < h.settled.len()
            &&& h.settled[b].committed
            &&& 0 <= j < h.settled[b].tasks.len()
            &&& #[trigger] h.settled[b].tasks[j] == TaskView::Sync(notify)
        };
    law_sync_covers_earlier_writes(path, events, b, j);
    lemma_earlier_batches(h.settled, b);
    let p = tasks_of(h.settled.take(b)).len() + j;
    assert(h.received[p] == sent.take(h.received.len() as int)[p]);
    assert(sent[p] == TaskView::Sync(notify));
    assert(p == at);
    assert(sent.take(at) =~= h.received.take(at)) by {
        assert forall|i: int| 0 <= i < at implies sent[i] == h.received[i] by {
            assert(h.received[i] == sent.take(h.received.len() as int)[i]);
        }
    }
    assert(sent.take(at) =~= tasks_of(h.settled).take(at));
    assert(h.settled[b].tasks[j] == TaskView::Sync(notify));
}

/// A worker that ends without an error has settled all it has taken, and it ends
/// only at the end of the queue or behind a stop whose batch is committed.
pub proof fn law_clean_end<E>(path: Seq<char>, events: Seq<EventView<E>>)
    requires
        is_run(path, events),
        history(path, events).action == ActionView::<E>::Exit(Ok(())),
    ensures
        ({
            let h = history(path, events);
            &&& h.received == tasks_of(h.settled)
            &&& events.len() > 0
            &&& events.last() is NoTask || {
                &&& h.settled.len() > 0
                &&& h.settled.last().committed
                &&& h.settled.last().tasks.last() is Stop
            }
        }),
{
    lemma_inv(path, events);
    let h = history(path, events);
    assert(h.received =~= tasks_of(h.settled));
    if events.len() > 0 {
        lemma_inv(path, events.drop_last());
    }
}

/// A stop leaves nothing behind: once a worker whose queue was filled with
/// `before` and then with a synchronisation and the stop has ended, it has taken
/// and settled all of it, and if no batch failed, all writes of `before` are
/// durable, in order and nothing else.
pub proof fn law_stop_leaves_nothing_pending<E>(
    path: Seq<char>,
    events: Seq<EventView<E>>,
    before: Seq<TaskView>,
    notify: Sender<()>,
)
    requires
        is_run(path, events),
        without_stop(before),
        draws_from(path, events, before + seq![TaskView::Sync(notify), TaskView::Stop]),
        history(path, events).action == ActionView::<E>::Exit(Ok(())),
    ensures
        ({
            let h = history(path, events);
            let sent = before + seq![TaskView::Sync(notify), TaskView::Stop];
            &&& h.received == sent
            &&& tasks_of(h.settled) == sent
            &&& (forall|i: int| 0 <= i < h.settled.len() ==> (#[trigger] h.settled[i]).committed)
                ==> h.durable == writes_of(before)
        }),
{
    lemma_inv(path, events);
    law_clean_end(path, events);
    let h = history(path, events);
    let sent = before + seq![TaskView::Sync(notify), TaskView::Stop];
    lemma_draws(path, events, sent);
    lemma_inv(path, events.drop_last());
    if events.last() is NoTask {
        assert(h.received.len() == sent.len());
    } else {
        assert(is_whole(h.settled[h.settled.len() - 1]));
        assert(h.received.last() == h.settled.last().tasks.last());
        let last = h.received.len() - 1;
        assert(h.received[last] == sent.take(h.received.len() as int)[last]);
        assert(sent[last] is Stop);
        assert(last == sent.len() - 1);
    }
    assert(h.received =~= sent);
    lemma_writes_of_add(before, seq![TaskView::Sync(notify), TaskView::Stop]);
    let end = seq![TaskView::Sync(notify), TaskView::Stop];
    assert(writes_of(end) =~= Seq::empty()) by {
        assert(end.drop_last() =~= seq![TaskView::Sync(notify)]);
        assert(end.drop_last().drop_last() =~= Seq::empty());
        assert(writes_of(end.drop_last().drop_last()) =~= Seq::empty());
        assert(writes_of(end.drop_last()) =~= Seq::empty());
    }
    assert(writes_of(sent) =~= writes_of(before));
    if forall|i: int| 0 <= i < h.settled.len() ==> (#[trigger] h.settled[i]).committed {
        lemma_all_committed(h.settled);
    }
}

proof fn lemma_has_place(batches: Seq<Batch>, at: int)
    requires
        0 <= at < tasks_of(batches).len(),
    ensures
        exists|b: int, j: int| #[trigger]
            stands_at(batches, at, b, j) && batches[b].tasks[j] == tasks_of(batches)[at],
    decreases batches.len(),
{
    let earlier = batches.drop_last();
    if at < tasks_of(earlier).len() {
        lemma_has_place(earlier, at);
        let (b, j) = choose|b: int, j: int| #[trigger]
            stands_at(earlier, at, b, j) && earlier[b].tasks[j] == tasks_of(earlier)[at];
        assert(earlier.take(b) =~= batches.take(b));
        assert(stands_at(batches, at, b, j));
    } else {
        let b = batches.len() - 1;
        let j = at - tasks_of(earlier).len();
        assert(batches.take(b) =~= earlier);
        assert(stands_at(batches, at, b, j));
    }
}

/// Whatever has been taken and settled is either committed or lost as a whole
/// with its batch: it stands in one batch, and if that is committed what it
/// writes is durable behind all that was committed before it, and if not the
/// batch adds nothing to what is durable.
pub proof fn law_settled_task_is_committed_or_lost<E>(
    path: Seq<char>,
    events: Seq<EventView<E>>,
    at: int,
)
    requires
        is_run(path, events),
        0 <= at < tasks_of(history(path, events).settled).len(),
    ensures
        ({
            let h = history(path, events);
            exists|b: int, j: int|
                {
                    &&& #[trigger] stands_at(h.settled, at, b, j)
                    &&& h.settled[b].tasks[j] == h.received[at]
                    &&& h.settled[b].committed ==> writes_of(
                        committed_tasks(h.settled.take(b)) + h.settled[b].tasks.take(j + 1),
                    ).is_prefix_of(h.durable)
                    &&& !h.settled[b].committed ==> committed_tasks(h.settled.take(b + 1))
                        == committed_tasks(h.settled.take(b))
                }
        }),
{
    lemma_inv(path, events);
    let h = history(path, events);
    lemma_has_place(h.settled, at);
    let (b, j) = choose|b: int, j: int| #[trigger]
        stands_at(h.settled, at, b, j) && h.settled[b].tasks[j] == tasks_of(h.settled)[at];
    assert(h.received[at] == tasks_of(h.settled)[at]);
    assert(h.settled.take(b + 1).drop_last() =~= h.settled.take(b));
    if h.settled[b].committed {
        lemma_earlier_batches(h.settled, b);
        let all = committed_tasks(h.settled.take(b)) + h.settled[b].tasks;
        let part = committed_tasks(h.settled.take(b)) + h.settled[b].tasks.take(j + 1);
        assert(part =~= all.take(part.len() as int));
        assert(all == committed_tasks(h.settled).take(all.len() as int));
        assert(part =~= committed_tasks(h.settled).take(part.len() as int));
        lemma_prefix_writes(part, committed_tasks(h.settled));
    }
}

/// An answered synchronisation leaves nothing of what was sent before it
/// pending: each such task is committed or lost with its batch.
pub proof fn law_answered_sync_leaves_nothing_pending<E>(
    path: Seq<char>,
    events: Seq<EventView<E>>,
    sent: Seq<TaskView>,
    notify: Sender<()>,
    at: int,
    earlier: int,
)
    requires
        is_run(path, events),
        draws_from(path, events, sent),
        0 <= earlier < at < sent.len(),
        sent[at] == TaskView::Sync(notify),
        forall|i: int|
            0 <= i < sent.len() && i != at ==> #[trigger] sent[i] != TaskView::Sync(notify),
        ({
            let h = history(path, events);
            h.notified.contains(notify) || (h.action matches ActionView::Notify(notifiers)
                && notifiers.contains(notify))
        }),
    ensures
        ({
            let h = history(path, events);
            exists|b: int, j: int|
                {
                    &&& #[trigger] stands_at(h.settled, earlier, b, j)
                    &&& h.settled[b].tasks[j] == sent[earlier]
                    &&& h.settled[b].committed ==> writes_of(
                        committed_tasks(h.settled.take(b)) + h.settled[b].tasks.take(j + 1),
                    ).is_prefix_of(h.durable)
                    &&& !h.settled[b].committed ==> committed_tasks(h.settled.take(b + 1))
                        == committed_tasks(h.settled.take(b))
                }
        }),
{
    law_answered_sync_is_done(path, events, sent, notify, at);
    law_settled_task_is_committed_or_lost(path, events, earlier);
    lemma_draws(path, events, sent);
    lemma_inv(path, events);
    let h = history(path, events);
    assert(h.received[earlier] == sent.take(h.received.len() as int)[earlier]);
}

/// A synchronisation changes no data: among other tasks it asks to write nothing,
/// and they ask to write what they would without it.
pub proof fn law_sync_writes_nothing(
    before: Seq<TaskView>,
    notify: Sender<()>,
    after: Seq<TaskView>,
)
    ensures
        writes_of(before.push(TaskView::Sync(notify)) + after) == writes_of(before + after),
{
    lemma_push_task(before, TaskView::Sync(notify));
    lemma_writes_of_add(before.push(TaskView::Sync(notify)), after);
    lemma_writes_of_add(before, after);
    assert(writes_of(before.push(TaskView::Sync(notify))) =~= writes_of(before));
}

/// A statement reaches the connection as it was queued, with its parameters in
/// their order: a task taken into the open batch is run at once, and the first
/// task of a batch as soon as its transaction is begun.
pub proof fn law_statement_is_run_as_queued<E>(
    path: Seq<char>,
    events: Seq<EventView<E>>,
    sql: Seq<char>,
    params: Seq<Value>,
)
    requires
        is_run(path, events.push(EventView::Task(TaskView::Execute { sql, params }))),
    ensures
        ({
            let h = history(path, events);
            let taken = events.push(EventView::Task(TaskView::Execute { sql, params }));
            let run = ActionView::<E>::Run(StatementView::Execute { sql, params });
            &&& h.action is TryReceive ==> history(path, taken).action == run
            &&& h.action is Receive ==> {
                &&& history(path, taken).action is BeginImmediate
                &&& history(path, taken.push(EventView::Done)).action == run
            }
            &&& h.action is TryReceive || h.action is Receive
        }),
{
    let taken = events.push(EventView::Task(TaskView::Execute { sql, params }));
    assert(taken.drop_last() =~= events);
    assert(taken.push(EventView::Done).drop_last() =~= taken);
    lemma_inv(path, events);
}

/// A worker that finds its queue at the end while it waits for a task ends
/// without an error. So it ends also where a stop was lost with its batch: after
/// that it waits again, and the queue is closed behind the stop.
pub proof fn law_closed_queue_ends_worker<E>(path: Seq<char>, events: Seq<EventView<E>>)
    requires
        is_run(path, events),
        history(path, events).action is Receive,
    ensures
        is_run(path, events.push(EventView::NoTask)),
        history(path, events.push(EventView::NoTask)).action == ActionView::<E>::Exit(Ok(())),
{
    lemma_inv(path, events);
    assert(events.push(EventView::NoTask).drop_last() =~= events);
}

proof fn lemma_commit_has_all<E>(path: Seq<char>, events: Seq<EventView<E>>, sent: Seq<TaskView>)
    requires
        is_run(path, events),
        finds_queued(path, events, sent),
        sent.len() > 0 ==> without_stop(sent.drop_last()),
        history(path, events).action is Commit,
    ensures
        history(path, events).received == sent,
{
    lemma_inv(path, events);
    lemma_draws(path, events, sent);
    law_batch_drains_the_queue(path, events);
    let h = history(path, events);
    if h.batch.last() is Stop {
        let last = h.received.len() - 1;
        assert(h.received[last] == h.batch.last());
        assert(h.received[last] == sent.take(h.received.len() as int)[last]);
        assert(!(sent.drop_last()[last] is Stop) || last == sent.len() - 1);
        assert(last == sent.len() - 1);
    }
    assert(h.received =~= sent);
}

/// Tasks that are all in the queue when the worker comes to it are one batch: as
/// long as nothing fails, they are committed together, in one transaction. A stop
/// among them can only be the last.
pub proof fn law_filled_queue_is_one_batch<E>(
    path: Seq<char>,
    events: Seq<EventView<E>>,
    sent: Seq<TaskView>,
)
    requires
        is_run(path, events),
        finds_queued(path, events, sent),
        sent.len() > 0 ==> without_stop(sent.drop_last()),
        forall|i: int|
            0 <= i < history(path, events).settled.len() ==> (#[trigger] history(
                path,
                events,
            ).settled[i]).committed,
    ensures
        ({
            let h = history(path, events);
            &&& h.settled.len() == 0 ==> h.durable.len() == 0
            &&& h.settled.len() > 0 ==> {
                &&& h.settled == seq![Batch { tasks: sent, committed: true }]
                &&& h.batch.len() == 0
                &&& h.durable == writes_of(sent)
            }
        }),
    decreases events.len(),
{
    lemma_inv(path, events);
    let h = history(path, events);
    if events.len() > 0 {
        let before = events.drop_last();
        let p = history(path, before);
        lemma_inv(path, before);
        lemma_draws(path, before, sent);
        assert forall|i: int| 0 <= i < p.settled.len() implies (
        #[trigger] p.settled[i]).committed by {
            assert(p.settled[i] == h.settled[i]);
        }
        law_filled_queue_is_one_batch(path, before, sent);
        if p.settled.len() > 0 {
            assert(tasks_of(p.settled) =~= sent) by {
                lemma_push_batch(Seq::empty(), Batch { tasks: sent, committed: true });
                assert(p.settled =~= Seq::empty().push(Batch { tasks: sent, committed: true }));
                assert(tasks_of(Seq::empty()) + sent =~= sent);
            }
            assert(p.received.len() == sent.len());
        } else if h.settled.len() > 0 {
            let newest = h.settled[h.settled.len() - 1];
            assert(newest.committed);
            assert(p.action is Commit);
            lemma_commit_has_all(path, before, sent);
            assert(tasks_of(p.settled) + p.batch =~= p.batch);
            assert(h.settled =~= seq![Batch { tasks: sent, committed: true }]);
        }
    }
    if h.settled.len() > 0 {
        let one = Batch { tasks: sent, committed: true };
        lemma_push_batch(Seq::empty(), one);
        assert(h.settled =~= Seq::empty().push(one));
        assert(committed_tasks(Seq::empty()) + sent =~= sent);
    }
}

/// A transaction stands open on the connection exactly while statements of a
/// batch are run, more tasks are looked for, the batch is committed or it is
/// rolled back. In particular none stands open when the next one is begun, when
/// the worker waits for a task, notifies or ends: each one begun has been ended
/// by a commit or a rollback that was done.
pub proof fn law_every_transaction_is_ended<E>(path: Seq<char>, events: Seq<EventView<E>>)
    requires
        is_run(path, events),
    ensures
        ({
            let h = history(path, events);
            &&& h.begun <==> (h.action is Run || h.action is TryReceive || h.action is Commit
                || h.action is Rollback)
            &&& h.action is BeginImmediate ==> !h.begun
        }),
{
    lemma_inv(path, events);
}

/// After a statement or a commit that failed the transaction is rolled back, in
/// whatever batch that happens, and only then the worker waits for the next task.
pub proof fn law_failed_transaction_is_rolled_back<E>(
    path: Seq<char>,
    events: Seq<EventView<E>>,
    error: E,
)
    requires
        is_run(path, events),
        history(path, events).action is Run || history(path, events).action is Commit,
    ensures
        ({
            let failed = events.push(EventView::Failed(error));
            &&& is_run(path, failed)
            &&& history(path, failed).action is Rollback
            &&& history(path, failed).begun
            &&& is_run(path, failed.push(EventView::Done))
            &&& history(path, failed.push(EventView::Done)).action is Receive
            &&& !history(path, failed.push(EventView::Done)).begun
        }),
{
    lemma_inv(path, events);
    let failed = events.push(EventView::Failed(error));
    assert(failed.drop_last() =~= events);
    assert(is_run(path, failed));
    lemma_inv(path, failed);
    assert(history(path, failed).worker.phase is RollingBack);
    assert(failed.push(EventView::Done).drop_last() =~= failed);
}

/// What may come of each action: a look into the queue brings a task or none,
/// announcing, notifying and rolling back are done, nothing follows the end, and
/// everything else is done or fails.
pub proof fn law_answers_of_actions<E>(
    path: Seq<char>,
    events: Seq<EventView<E>>,
    event: EventView<E>,
)
    requires
        is_run(path, events),
    ensures
        is_run(path, events.push(event)) <==> accepts(history(path, events).worker.phase, event),
        accepts(history(path, events).worker.phase, event) <==> match history(path, events).action {
            ActionView::Receive | ActionView::TryReceive => event is Task || event is NoTask,
            ActionView::SignalReady | ActionView::Notify(_) | ActionView::Rollback => event is Done,
            ActionView::Exit(_) => false,
            _ => event is Done || event is Failed,
        },
{
    lemma_inv(path, events);
    assert(events.push(event).drop_last() =~= events);
}

/// How a worker starts: it opens the database, sets the journal mode to WAL and
/// then the busy timeout to thirty seconds unless the database is an in-memory
/// one, announces itself and waits for tasks. What fails before that ends it.
pub proof fn law_how_a_worker_starts<E>(
    path: Seq<char>,
    events: Seq<EventView<E>>,
    event: EventView<E>,
)
    requires
        is_run(path, events.push(event)),
    ensures
        ({
            let h = history(path, events);
            let next = history(path, events.push(event)).action;
            &&& events.len() == 0 <==> h.action is Open
            &&& h.action is Open ==> h.action == ActionView::<E>::Open(path)
            &&& h.action is Open && event is Done ==> next == if "file:memdb"@.is_prefix_of(path) {
                ActionView::<E>::SignalReady
            } else {
                ActionView::<E>::SetPragma(PragmaView::JournalMode("WAL"@))
            }
            &&& h.action matches ActionView::SetPragma(pragma) ==> event is Done ==> match pragma {
                PragmaView::JournalMode(_) => next == ActionView::<E>::SetPragma(
                    PragmaView::BusyTimeout(30000),
                ),
                PragmaView::BusyTimeout(_) => next is SignalReady,
            }
            &&& h.action is SignalReady ==> next is Receive
            &&& h.action is Open || h.action is SetPragma ==> (event matches EventView::Failed(error)
                ==> next == ActionView::<E>::Exit(Err(error)))
        }),
{
    assert(events.push(event).drop_last() =~= events);
    assert(is_run(path, events));
    lemma_inv(path, events);
    if events.len() > 0 {
        assert(is_run(path, events.drop_last()));
        lemma_inv(path, events.drop_last());
    }
}

/// How a batch goes: its first task begins a transaction, each task is acted on
/// as it comes, after each statement the next task is looked for, and when there
/// is none the batch is committed. A transaction that cannot be begun costs its
/// first task only.
pub proof fn law_how_a_batch_goes<E>(
    path: Seq<char>,
    events: Seq<EventView<E>>,
    event: EventView<E>,
)
    requires
        is_run(path, events.push(event)),
    ensures
        ({
            let h = history(path, events);
            let next = history(path, events.push(event)).action;
            &&& h.action is Receive && event is Task ==> next is BeginImmediate
            &&& h.action is Receive && event is NoTask ==> next == ActionView::<E>::Exit(Ok(()))
            &&& h.action is BeginImmediate ==> h.batch.len() == 1
            &&& h.action is BeginImmediate && event is Done ==> match h.batch[0] {
                TaskView::Execute { sql, params } => next == ActionView::<E>::Run(
                    StatementView::Execute { sql, params },
                ),
                TaskView::ExecuteScript { script } => next == ActionView::<E>::Run(
                    StatementView::Script { script },
                ),
                TaskView::Sync(_) => next is TryReceive,
                TaskView::Stop => next is Commit,
            }
            &&& h.action is BeginImmediate && event is Failed ==> next is Receive
            &&& h.action is Run && event is Done ==> next is TryReceive
            &&& h.action is Run && event is Failed ==> next is Rollback
            &&& h.action is TryReceive ==> (event matches EventView::Task(task) ==> match task {
                TaskView::Execute { sql, params } => next == ActionView::<E>::Run(
                    StatementView::Execute { sql, params },
                ),
                TaskView::ExecuteScript { script } => next == ActionView::<E>::Run(
                    StatementView::Script { script },
                ),
                TaskView::Sync(_) => next is TryReceive,
                TaskView::Stop => next is Commit,
            })
            &&& h.action is TryReceive && event is NoTask ==> next is Commit
        }),
{
    assert(events.push(event).drop_last() =~= events);
    assert(is_run(path, events));
    lemma_inv(path, events);
}

/// How a batch ends: a commit that is done is followed by the notification of
/// all who synchronised in the batch, and that by the end of the worker if the
/// batch ended with a stop, else by the next wait. A commit that failed is rolled
/// back, and after a rollback the worker waits again.
pub proof fn law_how_a_batch_ends<E>(
    path: Seq<char>,
    events: Seq<EventView<E>>,
    event: EventView<E>,
)
    requires
        is_run(path, events.push(event)),
    ensures
        ({
            let h = history(path, events);
            let next = history(path, events.push(event)).action;
            &&& h.action is Commit && event is Done ==> next == ActionView::<E>::Notify(
                syncs_of(h.batch),
            )
            &&& h.action is Commit && event is Failed ==> next is Rollback
            &&& h.action is Rollback ==> next is Receive
            &&& h.action is Notify ==> next == if h.settled.last().tasks.last() is Stop {
                ActionView::<E>::Exit(Ok(()))
            } else {
                ActionView::<E>::Receive
            }
        }),
{
    assert(events.push(event).drop_last() =~= events);
    assert(is_run(path, events));
    lemma_inv(path, events);
}

/// A script reaches the connection as it was queued: a task taken into the open
/// batch is run at once, and the first task of a batch as soon as its
/// transaction is begun.
pub proof fn law_script_is_run_as_queued<E>(
    path: Seq<char>,
    events: Seq<EventView<E>>,
    script: Seq<char>,
)
    requires
        is_run(path, events.push(EventView::Task(TaskView::ExecuteScript { script }))),
    ensures
        ({
            let h = history(path, events);
            let taken = events.push(EventView::Task(TaskView::ExecuteScript { script }));
            let run = ActionView::<E>::Run(StatementView::Script { script });
            &&& h.action is TryReceive ==> history(path, taken).action == run
            &&& h.action is Receive ==> {
                &&& history(path, taken).action is BeginImmediate
                &&& history(path, taken.push(EventView::Done)).action == run
            }
            &&& h.action is TryReceive || h.action is Receive
        }),
{
    let taken = events.push(EventView::Task(TaskView::ExecuteScript { script }));
    assert(taken.drop_last() =~= events);
    assert(taken.push(EventView::Done).drop_last() =~= taken);
    lemma_inv(path, events);
}

/// What a write task asks for is durable exactly where its batch is committed:
/// after a commit that is done the durable statements are those before it with
/// what was run in the transaction behind them, and a transaction holds exactly
/// the statements that were run in it.
pub proof fn law_commit_makes_durable_what_was_run<E>(
    path: Seq<char>,
    events: Seq<EventView<E>>,
    statement: StatementView,
)
    requires
        is_run(path, events.push(EventView::Done)),
    ensures
        ({
            let h = history(path, events);
            let next = history(path, events.push(EventView::Done));
            &&& h.action is BeginImmediate ==> next.transaction == Some(Seq::<StatementView>::empty())
            &&& h.action == ActionView::<E>::Run(statement) ==> next.transaction == Some(
                h.transaction->0.push(statement),
            )
            &&& h.action is Commit ==> next.durable == h.durable + h.transaction->0
            &&& !(h.action is Commit) ==> next.durable == h.durable
        }),
{
    lemma_inv(path, events);
    assert(events.push(EventView::Done).drop_last() =~= events);
}

} // verus!
