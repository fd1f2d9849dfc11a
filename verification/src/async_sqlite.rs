//! The manager that callers hold: it queues writes for the worker and answers
//! whether they were taken.

use crate::channel::{ack_capacity, law_unsent_task_comes_back, task_capacity, whole_seconds};
use crate::channel::{ack_channel_gives, receive_gives, send_gives, task_channel_gives};
use crate::channel::{await_ack, open_ack_channel, open_task_channel, seconds, send_task};
use crate::channel::{ACK_CAPACITY, CHANNEL_CAPACITY, STOP_TIMEOUT_SECS};
use crate::error::{ScriptError, WriteError};
use crate::path::{resolve_db_path, resolved_path};
use crate::ready::{at_start, Readiness};
use crate::task::{TaskView, WriteTask};
use crossbeam_channel::{Receiver, Sender};
use rusqlite::types::Value;
use std::time::Duration;
use vstd::prelude::*;

verus! {

/// Manages one SQLite database with a worker for its writes.
pub struct AsyncSqlite {
    db_path: String,
    task_sender: Option<Sender<WriteTask>>,
}

/// What a new worker is given: the database to open and its end of the queue.
pub struct WorkerSeat {
    pub db_path: String,
    pub receiver: Receiver<WriteTask>,
}

/// `sent` is an answer to queueing a task with these contents through `sender`.
pub open spec fn queue_gives(
    sender: Sender<WriteTask>,
    task: TaskView,
    sent: Result<(), WriteTask>,
) -> bool {
    exists|queued: WriteTask|
        queued@ == task && #[trigger] send_gives(sender, queued, sent)
}

/// `answers` is where the answer to a synchronisation request sent through
/// `sender` will come, or nothing where the worker has gone: a fresh channel for
/// one answer was made, and its sending end was queued.
pub open spec fn sync_request_gives(
    sender: Sender<WriteTask>,
    answers: Option<Receiver<()>>,
) -> bool {
    exists|notify: Sender<()>, answer: Receiver<()>, sent: Result<(), WriteTask>|
        {
            &&& #[trigger] ack_channel_gives(ACK_CAPACITY, notify, answer)
            &&& ack_capacity(notify) == ACK_CAPACITY
            &&& #[trigger] queue_gives(sender, TaskView::Sync(notify), sent)
            &&& answers == (if sent is Ok {
                Some(answer)
            } else {
                None
            })
        }
}

/// `done` is an answer to a synchronisation through `sender`: the request was
/// taken and its answer came within `timeout`.
pub open spec fn sync_gives(sender: Sender<WriteTask>, timeout: Duration, done: bool) -> bool {
    exists|answers: Option<Receiver<()>>|
        {
            &&& #[trigger] sync_request_gives(sender, answers)
            &&& match answers {
                None => !done,
                Some(answer) => receive_gives(answer, timeout, done),
            }
        }
}

/// `sent` is an answer to queueing the stop through `sender` once a
/// synchronisation has answered `drained`.
pub closed spec fn stop_gives(
    sender: Sender<WriteTask>,
    drained: bool,
    sent: Result<(), WriteTask>,
) -> bool {
    call_ensures(send_stop, (&sender, drained), sent)
}

/// Queues the stop. It takes the answer of the synchronisation that has to come
/// before it, whatever that is.
fn send_stop(sender: &Sender<WriteTask>, _drained: bool) -> (sent: Result<(), WriteTask>)
    ensures
        queue_gives(*sender, TaskView::Stop, sent),
        send_gives(*sender, WriteTask::Stop, sent),
{
    let task = WriteTask::Stop;
    let sent = send_task(sender, task);
    proof {
        assert(task@ == TaskView::Stop);
    }
    sent
}

/// The answer to a writer whose task was sent with this outcome.
pub fn write_outcome(sent: Result<(), WriteTask>) -> (outcome: Result<(), WriteError>)
    ensures
        outcome == (match sent {
            Ok(()) => Ok::<(), WriteError>(()),
            Err(_) => Err(WriteError),
        }),
{
    match sent {
        Ok(()) => Ok(()),
        Err(_) => Err(WriteError),
    }
}

/// The answer to a caller whose script was sent with this outcome.
pub fn script_outcome(sent: Result<(), WriteTask>) -> (outcome: Result<(), ScriptError>)
    ensures
        outcome == (match sent {
            Ok(()) => Ok::<(), ScriptError>(()),
            Err(_) => Err(ScriptError::Disconnected),
        }),
{
    match sent {
        Ok(()) => Ok(()),
        Err(_) => Err(ScriptError::Disconnected),
    }
}

impl AsyncSqlite {
    /// The path of the database that is opened.
    pub closed spec fn path(&self) -> Seq<char> {
        self.db_path@
    }

    /// The sending end of the queue, while a worker has been started.
    pub closed spec fn queue(&self) -> Option<Sender<WriteTask>> {
        self.task_sender
    }

    /// Whether a worker has been started and not stopped.
    pub open spec fn started(&self) -> bool {
        self.queue() is Some
    }

    /// The queue, where there is one, has the capacity of a task queue.
    #[verifier::type_invariant]
    spec fn queue_is_bounded(self) -> bool {
        self.task_sender matches Some(sender) ==> task_capacity(sender)
            == CHANNEL_CAPACITY
    }

    /// Creates a manager for the database at `db_path`, or for the shared
    /// in-memory database if that is `:memory:`. No worker is started yet.
    pub fn new(db_path: &str) -> (manager: Self)
        ensures
            manager.path() == resolved_path(db_path@),
            db_path@ != ":memory:"@ ==> manager.path() == db_path@,
            db_path@ == ":memory:"@ ==> manager.path() == "file:memdb?mode=memory&cache=shared"@,
            !manager.started(),
            manager.queue() is None,
    {
        AsyncSqlite { db_path: resolve_db_path(db_path), task_sender: None }
    }

    /// The path of the database that is opened.
    pub fn db_path(&self) -> (path: &str)
        ensures
            path@ == self.path(),
    {
        self.db_path.as_str()
    }

    /// Whether a worker has been started and not stopped.
    pub fn is_started(&self) -> (yes: bool)
        ensures
            yes == self.started(),
            yes == self.queue() is Some,
    {
        self.task_sender.is_some()
    }

    /// Opens the queue and gives out the seat of the worker that is to be
    /// started on it. `readiness` tells of the new worker from now on; reads that
    /// are served go on being served. Where a worker has been started already,
    /// nothing changes and there is no seat.
    pub fn start(&mut self, readiness: &mut Readiness) -> (seat: Option<WorkerSeat>)
        ensures
            final(readiness)@ == (if seat is Some {
                at_start(old(readiness)@)
            } else {
                old(readiness)@
            }),
            final(self).started(),
            final(self).queue() is Some,
            task_capacity(final(self).queue()->0) == CHANNEL_CAPACITY,
            task_capacity(final(self).queue()->0) == 10000,
            seat is Some ==> !final(readiness)@.worker && final(readiness)@.reads == old(
                readiness,
            )@.reads,
            seat is None <==> old(self).queue() is Some,
            final(self).path() == old(self).path(),
            old(self).started() ==> seat is None && final(self).queue() == old(self).queue(),
            !old(self).started() ==> {
                &&& seat matches Some(s)
                &&& s.db_path@ == old(self).path()
                &&& task_channel_gives(
                    CHANNEL_CAPACITY,
                    final(self).queue()->0,
                    s.receiver,
                )
                &&& task_channel_gives(10000, final(self).queue()->0, s.receiver)
            },
    {
        proof {
            use_type_invariant(&*self);
        }
        if self.task_sender.is_some() {
            return None;
        }
        let (task_sender, task_receiver) = open_task_channel();
        self.task_sender = Some(task_sender);
        readiness.restart();
        Some(WorkerSeat { db_path: self.db_path.clone(), receiver: task_receiver })
    }

    /// Answers whether the worker has its connection, given what is known of it
    /// now and how to wait for it. The wait, which tells whether it timed out,
    /// happens only where the worker is not ready yet.
    pub fn wait_for_ready<W: FnOnce() -> bool>(&self, readiness: Readiness, wait: W) -> (is_ready:
        bool)
        requires
            !readiness@.worker ==> call_requires(wait, ()),
        ensures
            readiness@.worker ==> is_ready,
            !readiness@.worker ==> call_ensures(wait, (), !is_ready),
    {
        if readiness.worker_is_ready() {
            return true;
        }
        let timed_out: bool = wait();
        !timed_out
    }

    /// Queues a synchronisation request, waiting while the queue is full, and
    /// gives the channel on which it will be answered. There is none where no
    /// worker has been started and where the worker has gone.
    pub fn request_sync(&self) -> (answers: Option<Receiver<()>>)
        ensures
            self.queue() is None ==> answers is None,
            self.queue() matches Some(sender) ==> task_capacity(sender) == CHANNEL_CAPACITY,
            self.queue() matches Some(sender) ==> task_capacity(sender) == 10000,
            self.queue() matches Some(sender) ==> sync_request_gives(sender, answers),
            self.queue() matches Some(sender) ==> exists|
                notify: Sender<()>,
                answer: Receiver<()>,
                sent: Result<(), WriteTask>,
            |
                {
                    &&& #[trigger] ack_channel_gives(1, notify, answer)
                    &&& ack_capacity(notify) == 1
                    &&& #[trigger] send_gives(sender, WriteTask::Sync(notify), sent)
                    &&& answers == (match sent {
                        Ok(()) => Some(answer),
                        Err(_) => None,
                    })
                },
    {
        proof {
            use_type_invariant(self);
        }
        match &self.task_sender {
            None => None,
            Some(sender) => {
                let send = |task: WriteTask| -> (sent: Result<(), WriteTask>)
                    ensures
                        send_gives(*sender, task, sent),
                {
                    send_task(sender, task)
                };
                let answers = Self::request_once(send);
                proof {
                    let (notify, answer, sent) = choose|
                        notify: Sender<()>,
                        answer: Receiver<()>,
                        sent: Result<(), WriteTask>,
                    |
                        {
                            &&& #[trigger] ack_channel_gives(1, notify, answer)
                            &&& ack_capacity(notify) == 1
                            &&& #[trigger] call_ensures(send, (WriteTask::Sync(notify),), sent)
                            &&& answers == (match sent {
                                Ok(()) => Some(answer),
                                Err(_) => None,
                            })
                        };
                    assert(send_gives(*sender, WriteTask::Sync(notify), sent));
                    assert(WriteTask::Sync(notify)@ == TaskView::Sync(notify));
                    assert(queue_gives(*sender, TaskView::Sync(notify), sent));
                }
                answers
            },
        }
    }

    /// Sends one synchronisation request through `send`, which can be used once,
    /// and gives the channel on which it will be answered.
    fn request_once<S: FnOnce(WriteTask) -> Result<(), WriteTask>>(send: S) -> (answers: Option<
        Receiver<()>,
    >)
        requires
            forall|task: WriteTask| #[trigger] call_requires(send, (task,)),
        ensures
            exists|notify: Sender<()>, answer: Receiver<()>, sent: Result<(), WriteTask>|
                {
                    &&& #[trigger] ack_channel_gives(1, notify, answer)
                    &&& ack_capacity(notify) == 1
                    &&& #[trigger] call_ensures(send, (WriteTask::Sync(notify),), sent)
                    &&& answers == (match sent {
                        Ok(()) => Some(answer),
                        Err(_) => None,
                    })
                },
    {
        let (notify, answer) = open_ack_channel();
        match send(WriteTask::Sync(notify)) {
            Ok(()) => Some(answer),
            Err(_) => None,
        }
    }

    /// Waits until the tasks now in the queue are done with, and answers whether
    /// that happened in time.
    pub fn sync(&self, timeout: Duration) -> (done: bool)
        ensures
            self.queue() is None ==> !done,
            self.queue() matches Some(sender) ==> task_capacity(sender) == CHANNEL_CAPACITY,
            self.queue() matches Some(sender) ==> task_capacity(sender) == 10000,
            self.queue() matches Some(sender) ==> sync_gives(sender, timeout, done),
            self.queue() matches Some(sender) ==> exists|
                notify: Sender<()>,
                answer: Receiver<()>,
                sent: Result<(), WriteTask>,
            |
                {
                    &&& #[trigger] ack_channel_gives(1, notify, answer)
                    &&& ack_capacity(notify) == 1
                    &&& #[trigger] send_gives(sender, WriteTask::Sync(notify), sent)
                    &&& sent is Ok ==> receive_gives(answer, timeout, done)
                    &&& sent is Err ==> !done
                },
    {
        match self.request_sync() {
            None => false,
            Some(answer) => await_ack(answer, timeout),
        }
    }

    /// Closes the queue: where a worker has been started, synchronises with it
    /// for at most five seconds, after that and whatever came of it sends it the
    /// stop, and tells that there is a worker to be joined.
    pub fn stop(&mut self) -> (join: bool)
        ensures
            !final(self).started(),
            final(self).queue() is None,
            final(self).path() == old(self).path(),
            join == old(self).started(),
            join == old(self).queue() is Some,
            old(self).queue() matches Some(sender) ==> exists|
                drained: bool,
                sent: Result<(), WriteTask>,
            |
                {
                    &&& sync_gives(sender, whole_seconds(STOP_TIMEOUT_SECS), drained)
                    &&& #[trigger] stop_gives(sender, drained, sent)
                    &&& queue_gives(sender, TaskView::Stop, sent)
                    &&& send_gives(sender, WriteTask::Stop, sent)
                    &&& sync_gives(sender, whole_seconds(5), drained)
                },
    {
        let join: bool = match &self.task_sender {
            None => false,
            Some(sender) => {
                let drained: bool = self.sync(seconds(STOP_TIMEOUT_SECS));
                let sent = send_stop(sender, drained);
                proof {
                    assert(stop_gives(*sender, drained, sent));
                    assert(queue_gives(*sender, TaskView::Stop, sent));
                }
                true
            },
        };
        self.task_sender = None;
        join
    }

    /// Queues one statement with its parameters, waiting while the queue is
    /// full. It fails where no worker has been started, and where the queue does
    /// not take the task because the worker has gone.
    pub fn execute_write(&self, sql: &str, params: Vec<Value>) -> (outcome: Result<
        (),
        WriteError,
    >)
        ensures
            self.queue() is None ==> outcome is Err,
            self.queue() matches Some(sender) ==> task_capacity(sender) == CHANNEL_CAPACITY,
            self.queue() matches Some(sender) ==> task_capacity(sender) == 10000,
            self.queue() matches Some(sender) ==> exists|sent: Result<(), WriteTask>|
                {
                    &&& #[trigger] queue_gives(
                        sender,
                        TaskView::Execute { sql: sql@, params: params@ },
                        sent,
                    )
                    &&& outcome is Ok == sent is Ok
                },
            self.queue() matches Some(sender) ==> exists|
                text: String,
                sent: Result<(), WriteTask>,
            |
                {
                    &&& text@ == sql@
                    &&& #[trigger] send_gives(
                        sender,
                        WriteTask::Execute { sql: text, params },
                        sent,
                    )
                    &&& outcome is Ok <==> sent is Ok
                },
    {
        proof {
            use_type_invariant(self);
        }
        match &self.task_sender {
            None => Err(WriteError),
            Some(sender) => {
                let send = |task: WriteTask| -> (sent: Result<(), WriteTask>)
                    ensures
                        send_gives(*sender, task, sent),
                {
                    send_task(sender, task)
                };
                let outcome = Self::write_once(sql, params, send);
                proof {
                    let (text, sent) = choose|text: String, sent: Result<(), WriteTask>|
                        {
                            &&& text@ == sql@
                            &&& #[trigger] call_ensures(
                                send,
                                (WriteTask::Execute { sql: text, params },),
                                sent,
                            )
                            &&& outcome is Ok <==> sent is Ok
                        };
                    let task = WriteTask::Execute { sql: text, params };
                    assert(send_gives(*sender, task, sent));
                    assert(queue_gives(*sender, task@, sent));
                }
                outcome
            },
        }
    }

    /// Sends one statement through `send`, which can be used once: whatever the
    /// statement, that one task is sent and no other.
    fn write_once<S: FnOnce(WriteTask) -> Result<(), WriteTask>>(
        sql: &str,
        params: Vec<Value>,
        send: S,
    ) -> (outcome: Result<(), WriteError>)
        requires
            forall|task: WriteTask| #[trigger] call_requires(send, (task,)),
        ensures
            exists|text: String, sent: Result<(), WriteTask>|
                {
                    &&& text@ == sql@
                    &&& #[trigger] call_ensures(
                        send,
                        (WriteTask::Execute { sql: text, params },),
                        sent,
                    )
                    &&& outcome is Ok <==> sent is Ok
                },
    {
        write_outcome(send(WriteTask::Execute { sql: sql.to_owned(), params }))
    }

    /// Queues a script of statements, waiting while the queue is full. It fails
    /// where no worker has been started, and where the queue does not take the
    /// task because the worker has gone.
    pub fn execute_script(&self, script: String) -> (outcome: Result<(), ScriptError>)
        ensures
            self.queue() is None ==> outcome == Err::<(), ScriptError>(ScriptError::NotRunning),
            self.queue() matches Some(sender) ==> task_capacity(sender) == CHANNEL_CAPACITY,
            self.queue() matches Some(sender) ==> task_capacity(sender) == 10000,
            self.queue() matches Some(sender) ==> exists|sent: Result<(), WriteTask>|
                {
                    &&& #[trigger] queue_gives(
                        sender,
                        TaskView::ExecuteScript { script: script@ },
                        sent,
                    )
                    &&& outcome == (if sent is Ok {
                        Ok::<(), ScriptError>(())
                    } else {
                        Err(ScriptError::Disconnected)
                    })
                },
            self.queue() matches Some(sender) ==> exists|sent: Result<(), WriteTask>|
                {
                    &&& #[trigger] send_gives(sender, WriteTask::ExecuteScript { script }, sent)
                    &&& outcome == (match sent {
                        Ok(()) => Ok::<(), ScriptError>(()),
                        Err(_) => Err(ScriptError::Disconnected),
                    })
                },
    {
        proof {
            use_type_invariant(self);
        }
        match &self.task_sender {
            None => Err(ScriptError::NotRunning),
            Some(sender) => {
                let send = |task: WriteTask| -> (sent: Result<(), WriteTask>)
                    ensures
                        send_gives(*sender, task, sent),
                {
                    send_task(sender, task)
                };
                let outcome = Self::script_once(script, send);
                proof {
                    let task = WriteTask::ExecuteScript { script };
                    let sent = choose|sent: Result<(), WriteTask>|
                        {
                            &&& #[trigger] call_ensures(send, (task,), sent)
                            &&& outcome == (match sent {
                                Ok(()) => Ok::<(), ScriptError>(()),
                                Err(_) => Err(ScriptError::Disconnected),
                            })
                        };
                    assert(send_gives(*sender, task, sent));
                    assert(queue_gives(*sender, task@, sent));
                }
                outcome
            },
        }
    }

    /// Sends one script through `send`, which can be used once: whatever the
    /// script, that one task is sent and no other.
    fn script_once<S: FnOnce(WriteTask) -> Result<(), WriteTask>>(script: String, send: S) -> (
    outcome: Result<(), ScriptError>)
        requires
            forall|task: WriteTask| #[trigger] call_requires(send, (task,)),
        ensures
            exists|sent: Result<(), WriteTask>|
                {
                    &&& #[trigger] call_ensures(send, (WriteTask::ExecuteScript { script },), sent)
                    &&& outcome == (match sent {
                        Ok(()) => Ok::<(), ScriptError>(()),
                        Err(_) => Err(ScriptError::Disconnected),
                    })
                },
    {
        script_outcome(send(WriteTask::ExecuteScript { script }))
    }
}

/// What is queued is a task with exactly those contents: the statement or the
/// script as the caller gave it, with its parameters, or the very notifier.
pub proof fn law_task_is_queued_as_given(
    sender: Sender<WriteTask>,
    task: TaskView,
    sent: Result<(), WriteTask>,
)
    requires
        queue_gives(sender, task, sent),
    ensures
        exists|queued: WriteTask|
            {
                &&& #[trigger] send_gives(sender, queued, sent)
                &&& match task {
                    TaskView::Execute { sql, params } => queued matches WriteTask::Execute {
                        sql: s,
                        params: p,
                    } && s@ == sql && p@ == params,
                    TaskView::ExecuteScript {
                        script,
                    } => queued matches WriteTask::ExecuteScript { script: s } && s@ == script,
                    TaskView::Sync(notify) => queued == WriteTask::Sync(notify),
                    TaskView::Stop => queued == WriteTask::Stop,
                }
                &&& sent matches Err(back) ==> back == queued
            },
{
    let queued = choose|queued: WriteTask|
        queued@ == task && #[trigger] send_gives(sender, queued, sent);
    assert(send_gives(sender, queued, sent));
    if let Err(back) = sent {
        law_unsent_task_comes_back(sender, queued, back);
    }
}

/// A request to synchronise queues the notifier of a channel for one answer, and
/// the answer comes on the other end of that channel.
pub proof fn law_sync_request_is_answered_on_its_own_channel(
    sender: Sender<WriteTask>,
    answers: Option<Receiver<()>>,
)
    requires
        sync_request_gives(sender, answers),
    ensures
        exists|notify: Sender<()>, answer: Receiver<()>, sent: Result<(), WriteTask>|
            {
                &&& #[trigger] ack_channel_gives(1, notify, answer)
                &&& #[trigger] send_gives(sender, WriteTask::Sync(notify), sent)
                &&& sent is Ok ==> answers == Some(answer)
                &&& sent is Err ==> answers is None
            },
{
    let (notify, answer, sent) = choose|
        notify: Sender<()>,
        answer: Receiver<()>,
        sent: Result<(), WriteTask>,
    |
        {
            &&& #[trigger] ack_channel_gives(ACK_CAPACITY, notify, answer)
            &&& ack_capacity(notify) == ACK_CAPACITY
            &&& #[trigger] queue_gives(sender, TaskView::Sync(notify), sent)
            &&& answers == (if sent is Ok {
                Some(answer)
            } else {
                None
            })
        };
    law_task_is_queued_as_given(sender, TaskView::Sync(notify), sent);
    assert(ack_channel_gives(1, notify, answer));
    assert(send_gives(sender, WriteTask::Sync(notify), sent));
}

/// A synchronisation answers what the receive on its own answer channel answers,
/// within its own timeout, and `false` where the request was not taken. That
/// receive takes the receiving end with it, so it is the first and the only one:
/// an answer that comes in time is not taken by another.
pub proof fn law_sync_answers_by_its_one_receive(
    sender: Sender<WriteTask>,
    timeout: Duration,
    done: bool,
)
    requires
        sync_gives(sender, timeout, done),
    ensures
        exists|notify: Sender<()>, answer: Receiver<()>, sent: Result<(), WriteTask>|
            {
                &&& #[trigger] ack_channel_gives(1, notify, answer)
                &&& #[trigger] send_gives(sender, WriteTask::Sync(notify), sent)
                &&& sent is Ok ==> receive_gives(answer, timeout, done)
                &&& sent is Err ==> !done
            },
{
    let answers = choose|answers: Option<Receiver<()>>|
        {
            &&& #[trigger] sync_request_gives(sender, answers)
            &&& match answers {
                None => !done,
                Some(answer) => receive_gives(answer, timeout, done),
            }
        };
    law_sync_request_is_answered_on_its_own_channel(sender, answers);
    let (notify, answer, sent) = choose|
        notify: Sender<()>,
        answer: Receiver<()>,
        sent: Result<(), WriteTask>,
    |
        {
            &&& #[trigger] ack_channel_gives(1, notify, answer)
            &&& #[trigger] send_gives(sender, WriteTask::Sync(notify), sent)
            &&& sent is Ok ==> answers == Some(answer)
            &&& sent is Err ==> answers is None
        };
    assert(ack_channel_gives(1, notify, answer));
    assert(send_gives(sender, WriteTask::Sync(notify), sent));
}

/// A stop queues the stop and nothing else in its place, whatever the
/// synchronisation before it answered.
pub proof fn law_stop_queues_the_stop(
    sender: Sender<WriteTask>,
    drained: bool,
    sent: Result<(), WriteTask>,
)
    requires
        stop_gives(sender, drained, sent),
    ensures
        send_gives(sender, WriteTask::Stop, sent),
{
}

} // verus!
