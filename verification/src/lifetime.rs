//! One database over several workers: what is left by one is what the next
//! builds on, readiness is that of the last one, and reads go on between them.

use crate::history::{draws_from, history, is_run, wanted_pragmas, without_stop, writes_of};
use crate::laws::{law_ready_before_first_task, law_stop_leaves_nothing_pending};
use crate::laws::lemma_writes_of_add;
use crate::path::names_shared_memory;
use crate::ready::{announced, at_start, never_ready, ReadinessView};
use crate::task::{StatementView, TaskView};
use crate::worker::{ActionView, EventView};
use vstd::prelude::*;

verus! {

/// The time of one worker: what its queue was filled with, and its run.
pub struct Session<E> {
    pub sent: Seq<TaskView>,
    pub events: Seq<EventView<E>>,
}

/// The sessions of one database: each run is one on its own queue, and a worker
/// is started only after the one before has ended.
pub open spec fn is_lifetime<E>(path: Seq<char>, sessions: Seq<Session<E>>) -> bool {
    &&& forall|i: int|
        0 <= i < sessions.len() ==> is_run(path, (#[trigger] sessions[i]).events) && draws_from(
            path,
            sessions[i].events,
            sessions[i].sent,
        )
    &&& forall|i: int|
        0 <= i < sessions.len() - 1 ==> history(
            path,
            (#[trigger] sessions[i]).events,
        ).action is Exit
}

/// The statements committed to the database over all sessions, in order.
pub open spec fn stored<E>(path: Seq<char>, sessions: Seq<Session<E>>) -> Seq<StatementView>
    decreases sessions.len(),
{
    if sessions.len() == 0 {
        Seq::empty()
    } else {
        stored(path, sessions.drop_last()) + history(path, sessions.last().events).durable
    }
}

/// The tasks sent over all sessions, in order.
pub open spec fn sent_over<E>(sessions: Seq<Session<E>>) -> Seq<TaskView>
    decreases sessions.len(),
{
    if sessions.len() == 0 {
        Seq::empty()
    } else {
        sent_over(sessions.drop_last()) + sessions.last().sent
    }
}

/// The session was ended by a stop and none of its batches failed: behind what
/// the callers sent, the queue was given a synchronisation and the stop.
pub open spec fn stopped_without_failure<E>(path: Seq<char>, session: Session<E>) -> bool {
    let h = history(path, session.events);
    &&& h.action == ActionView::<E>::Exit(Ok(()))
    &&& forall|i: int| 0 <= i < h.settled.len() ==> (#[trigger] h.settled[i]).committed
    &&& session.sent.len() >= 2
    &&& session.sent.last() is Stop
    &&& session.sent[session.sent.len() - 2] is Sync
    &&& without_stop(session.sent.take(session.sent.len() - 2))
}

/// The readiness over one run that began with `readiness`: the worker announces
/// it, and nothing else changes it.
pub open spec fn readiness_in_run<E>(
    path: Seq<char>,
    events: Seq<EventView<E>>,
    readiness: ReadinessView,
) -> ReadinessView
    decreases events.len(),
{
    if events.len() == 0 {
        readiness
    } else if history(path, events.drop_last()).action is SignalReady && events.last() is Done {
        announced()
    } else {
        readiness_in_run(path, events.drop_last(), readiness)
    }
}

/// The readiness after these sessions, each begun by a start that gave out a
/// seat.
pub open spec fn readiness_after<E>(path: Seq<char>, sessions: Seq<Session<E>>) -> ReadinessView
    decreases sessions.len(),
{
    if sessions.len() == 0 {
        never_ready()
    } else {
        readiness_in_run(
            path,
            sessions.last().events,
            at_start(readiness_after(path, sessions.drop_last())),
        )
    }
}

proof fn lemma_readiness_in_run<E>(
    path: Seq<char>,
    events: Seq<EventView<E>>,
    readiness: ReadinessView,
)
    requires
        !readiness.worker,
    ensures
        readiness_in_run(path, events, readiness).worker == history(path, events).ready,
        readiness_in_run(path, events, readiness).reads == (readiness.reads || history(
            path,
            events,
        ).ready),
    decreases events.len(),
{
    if events.len() > 0 {
        lemma_readiness_in_run(path, events.drop_last(), readiness);
    }
}

/// Reads are served once some worker has been ready, and are never refused again
/// after that: neither by a stop, nor by a start, nor by a new worker that fails
/// to open the database.
pub proof fn law_reads_stay_served<E>(
    path: Seq<char>,
    sessions: Seq<Session<E>>,
    next: Session<E>,
)
    ensures
        readiness_after(path, sessions.push(next)).reads == (readiness_after(path, sessions).reads
            || history(path, next.events).ready),
        readiness_after(path, sessions).reads <==> exists|i: int|
            0 <= i < sessions.len() && history(path, (#[trigger] sessions[i]).events).ready,
    decreases sessions.len(),
{
    assert(sessions.push(next).drop_last() =~= sessions);
    lemma_readiness_in_run(path, next.events, at_start(readiness_after(path, sessions)));
    if sessions.len() > 0 {
        let before = sessions.drop_last();
        let last = sessions[sessions.len() - 1];
        law_reads_stay_served(path, before, last);
        assert(before.push(last) =~= sessions);
        if exists|i: int|
            0 <= i < before.len() && history(path, (#[trigger] before[i]).events).ready {
            let i = choose|i: int|
                0 <= i < before.len() && history(path, (#[trigger] before[i]).events).ready;
            assert(history(path, sessions[i].events).ready);
        }
        if exists|i: int|
            0 <= i < sessions.len() && history(path, (#[trigger] sessions[i]).events).ready {
            let i = choose|i: int|
                0 <= i < sessions.len() && history(path, (#[trigger] sessions[i]).events).ready;
            if i < before.len() {
                assert(history(path, before[i].events).ready);
            }
        }
    }
}

proof fn lemma_opened_first<E>(path: Seq<char>, events: Seq<EventView<E>>)
    requires
        is_run(path, events),
        events.len() > 0,
    ensures
        events[0] is Done || (history(path, events).worker.phase is Finished && !history(
            path,
            events,
        ).ready),
    decreases events.len(),
{
    let before = events.drop_last();
    if before.len() == 0 {
        assert(history(path, before).worker.phase is Opening);
    } else {
        lemma_opened_first(path, before);
        assert(events[0] == before[0]);
    }
}

/// While the worker counts as ready, the last one that was started, and not only
/// one before it, has opened its connection and made its settings on it.
pub proof fn law_ready_tells_of_the_last_worker<E>(path: Seq<char>, sessions: Seq<Session<E>>)
    requires
        is_lifetime(path, sessions),
        sessions.len() > 0,
    ensures
        ({
            let events = sessions.last().events;
            let h = history(path, events);
            &&& readiness_after(path, sessions).worker == h.ready
            &&& readiness_after(path, sessions).worker ==> {
                &&& events.len() > 0
                &&& events[0] is Done
                &&& h.pragmas == wanted_pragmas(names_shared_memory(path))
            }
        }),
{
    let last = sessions[sessions.len() - 1];
    let events = last.events;
    assert(is_run(path, events));
    lemma_readiness_in_run(path, events, at_start(readiness_after(path, sessions.drop_last())));
    law_ready_before_first_task(path, events);
    if events.len() > 0 {
        lemma_opened_first(path, events);
    }
}

proof fn lemma_stopped_session<E>(path: Seq<char>, session: Session<E>)
    requires
        is_run(path, session.events),
        draws_from(path, session.events, session.sent),
        stopped_without_failure(path, session),
    ensures
        history(path, session.events).durable == writes_of(session.sent),
{
    let sent = session.sent;
    let before = sent.take(sent.len() - 2);
    let notify = sent[sent.len() - 2]->Sync_0;
    assert(sent =~= before + seq![TaskView::Sync(notify), TaskView::Stop]);
    law_stop_leaves_nothing_pending(path, session.events, before, notify);
    assert(sent.drop_last().drop_last() =~= before);
    assert(writes_of(sent.drop_last()) =~= writes_of(before));
    assert(writes_of(sent) =~= writes_of(before));
}

proof fn lemma_earlier_sessions<E>(path: Seq<char>, sessions: Seq<Session<E>>, next: Session<E>)
    requires
        is_lifetime(path, sessions.push(next)),
    ensures
        is_lifetime(path, sessions),
{
    let all = sessions.push(next);
    assert forall|i: int| 0 <= i < sessions.len() implies is_run(
        path,
        (#[trigger] sessions[i]).events,
    ) && draws_from(path, sessions[i].events, sessions[i].sent) by {
        assert(all[i] == sessions[i]);
    }
    assert forall|i: int| 0 <= i < sessions.len() - 1 implies history(
        path,
        (#[trigger] sessions[i]).events,
    ).action is Exit by {
        assert(all[i] == sessions[i]);
    }
}

/// Over any number of stops and starts nothing is lost and nothing is written
/// twice: what a database in a file holds after sessions that were stopped
/// without a failure is what all their tasks write, once and in order.
pub proof fn law_stopped_sessions_are_stored<E>(path: Seq<char>, sessions: Seq<Session<E>>)
    requires
        !names_shared_memory(path),
        is_lifetime(path, sessions),
        forall|i: int|
            0 <= i < sessions.len() ==> stopped_without_failure(path, #[trigger] sessions[i]),
    ensures
        stored(path, sessions) == writes_of(sent_over(sessions)),
    decreases sessions.len(),
{
    if sessions.len() > 0 {
        let before = sessions.drop_last();
        let last = sessions[sessions.len() - 1];
        assert(sessions =~= before.push(last));
        lemma_earlier_sessions(path, before, last);
        assert forall|i: int| 0 <= i < before.len() implies stopped_without_failure(
            path,
            #[trigger] before[i],
        ) by {
            assert(before[i] == sessions[i]);
        }
        law_stopped_sessions_are_stored(path, before);
        assert(stopped_without_failure(path, last));
        lemma_stopped_session(path, last);
        lemma_writes_of_add(sent_over(before), last.sent);
    }
}

/// A worker started again builds on what the stopped ones have left: the
/// database holds all that was sent to those, and behind it what the batches of
/// the new one have committed.
pub proof fn law_restart_builds_on_what_was_stored<E>(
    path: Seq<char>,
    sessions: Seq<Session<E>>,
    next: Session<E>,
)
    requires
        !names_shared_memory(path),
        is_lifetime(path, sessions.push(next)),
        forall|i: int|
            0 <= i < sessions.len() ==> stopped_without_failure(path, #[trigger] sessions[i]),
    ensures
        stored(path, sessions.push(next)) == writes_of(sent_over(sessions)) + history(
            path,
            next.events,
        ).durable,
{
    let all = sessions.push(next);
    assert(all.drop_last() =~= sessions);
    lemma_earlier_sessions(path, sessions, next);
    law_stopped_sessions_are_stored(path, sessions);
}

} // verus!
