//! Several callers share one queue: what each of them gets, whatever the order
//! in which their calls arrive.

use crate::history::{draws_from, history, is_run, tasks_of, writes_of};
use crate::laws::law_without_failure_nothing_is_lost;
use crate::task::{task_writes, StatementView, TaskView};
use crate::worker::EventView;
use vstd::prelude::*;

verus! {

/// A task that one of the callers has queued.
pub struct Call {
    pub caller: nat,
    pub task: TaskView,
}

/// A statement and the caller it came from.
pub struct Written {
    pub caller: nat,
    pub statement: StatementView,
}

/// The tasks of these calls, as they stand in the queue.
pub open spec fn queued(calls: Seq<Call>) -> Seq<TaskView> {
    calls.map_values(|c: Call| c.task)
}

/// The tasks that one caller has queued, in the order of its calls.
pub open spec fn queued_by(calls: Seq<Call>, caller: nat) -> Seq<TaskView>
    decreases calls.len(),
{
    if calls.len() == 0 {
        Seq::empty()
    } else if calls.last().caller == caller {
        queued_by(calls.drop_last(), caller).push(calls.last().task)
    } else {
        queued_by(calls.drop_last(), caller)
    }
}

/// The statements that these calls ask to run, each with its caller.
pub open spec fn written(calls: Seq<Call>) -> Seq<Written>
    decreases calls.len(),
{
    if calls.len() == 0 {
        Seq::empty()
    } else {
        written(calls.drop_last()) + task_writes(calls.last().task).map_values(
            |s: StatementView| Written { caller: calls.last().caller, statement: s },
        )
    }
}

/// The statements, without their callers.
pub open spec fn statements(all: Seq<Written>) -> Seq<StatementView> {
    all.map_values(|w: Written| w.statement)
}

/// The statements that came from one caller, in order.
pub open spec fn statements_by(all: Seq<Written>, caller: nat) -> Seq<StatementView>
    decreases all.len(),
{
    if all.len() == 0 {
        Seq::empty()
    } else if all.last().caller == caller {
        statements_by(all.drop_last(), caller).push(all.last().statement)
    } else {
        statements_by(all.drop_last(), caller)
    }
}

proof fn lemma_written(calls: Seq<Call>, caller: nat)
    ensures
        statements(written(calls)) == writes_of(queued(calls)),
        statements_by(written(calls), caller) == writes_of(queued_by(calls, caller)),
    decreases calls.len(),
{
    if calls.len() > 0 {
        let before = calls.drop_last();
        let last = calls.last();
        lemma_written(before, caller);
        assert(queued(calls).drop_last() =~= queued(before));
        assert(queued(calls).last() == last.task);
        assert(statements(written(calls)) =~= statements(written(before)) + task_writes(last.task));
        if task_writes(last.task).len() == 0 {
            assert(written(calls) =~= written(before));
        } else {
            assert(task_writes(last.task).len() == 1);
            assert(written(calls).drop_last() =~= written(before));
            assert(written(calls).last() == (Written {
                caller: last.caller,
                statement: task_writes(last.task)[0],
            }));
        }
        if last.caller == caller {
            let own = queued_by(before, caller);
            assert(own.push(last.task).drop_last() =~= own);
            assert(statements_by(written(calls), caller) =~= writes_of(own) + task_writes(
                last.task,
            ));
        }
    } else {
        assert(queued(calls) =~= Seq::empty());
        assert(statements(written(calls)) =~= Seq::empty());
    }
}

/// However the calls of several callers are interleaved in the queue, as long as
/// no batch fails every settled call takes effect exactly once: what is durable
/// is what the settled calls write in the order of the queue, and of it each
/// caller's part is what that caller's own calls write, in their order.
pub proof fn law_callers_keep_their_order<E>(
    path: Seq<char>,
    events: Seq<EventView<E>>,
    calls: Seq<Call>,
    caller: nat,
)
    requires
        is_run(path, events),
        draws_from(path, events, queued(calls)),
        forall|i: int|
            0 <= i < history(path, events).settled.len() ==> (#[trigger] history(
                path,
                events,
            ).settled[i]).committed,
    ensures
        ({
            let h = history(path, events);
            let done = calls.take(tasks_of(h.settled).len() as int);
            &&& tasks_of(h.settled).len() <= calls.len()
            &&& tasks_of(h.settled) == queued(done)
            &&& h.durable == statements(written(done))
            &&& statements_by(written(done), caller) == writes_of(queued_by(done, caller))
        }),
{
    law_without_failure_nothing_is_lost(path, events, queued(calls));
    let h = history(path, events);
    let n = tasks_of(h.settled).len() as int;
    let done = calls.take(n);
    assert(tasks_of(h.settled) =~= queued(done)) by {
        assert forall|i: int| 0 <= i < n implies tasks_of(h.settled)[i] == queued(done)[i] by {
            assert(tasks_of(h.settled)[i] == queued(calls).take(n)[i]);
        }
    }
    lemma_written(done, caller);
}

} // verus!
