//! The channels between the callers and the worker.
//!
//! A channel is shared between threads, so what a send or a receive answers is
//! not decided by its arguments. The `.._gives` predicates say that an answer
//! is one that the call can give for exactly these arguments: a function that
//! promises such an answer has made the call.

use crate::task::WriteTask;
use crossbeam_channel::{Receiver, Sender};
use std::time::Duration;
use vstd::prelude::*;

verus! {

/// How many tasks the queue of the worker holds before a writer has to wait.
pub const CHANNEL_CAPACITY: usize = 10000;

/// How many answers a synchronisation request expects.
pub const ACK_CAPACITY: usize = 1;

/// How many seconds a stop waits for the queue to drain.
pub const STOP_TIMEOUT_SECS: u64 = 5;

/// The sending end of a `crossbeam_channel` channel, carried as it is.
#[verifier::external_type_specification]
#[verifier::external_body]
#[verifier::reject_recursive_types(T)]
pub struct ExSender<T>(crossbeam_channel::Sender<T>);

/// The receiving end of a `crossbeam_channel` channel, carried as it is.
#[verifier::external_type_specification]
#[verifier::external_body]
#[verifier::reject_recursive_types(T)]
pub struct ExReceiver<T>(crossbeam_channel::Receiver<T>);

/// How many tasks the channel behind `sender` was made to hold.
pub uninterp spec fn task_capacity(sender: Sender<WriteTask>) -> nat;

/// How many answers the channel behind `sender` was made to hold.
pub uninterp spec fn ack_capacity(sender: Sender<()>) -> nat;

/// The duration of that many whole seconds.
pub uninterp spec fn whole_seconds(secs: u64) -> Duration;

/// Calls `crossbeam_channel::bounded` for tasks: the two ends of a new channel
/// that holds at most `capacity` tasks. It panics only for a capacity too large
/// to allocate, which the bound rules out.
#[verifier::external_body]
pub(crate) fn task_channel(capacity: usize) -> (ends: (Sender<WriteTask>, Receiver<WriteTask>))
    requires
        0 < capacity <= CHANNEL_CAPACITY,
    ensures
        task_capacity(ends.0) == capacity,
{
    crossbeam_channel::bounded(capacity)
}

/// Calls `crossbeam_channel::bounded` for answers: the two ends of a new channel
/// that holds at most `capacity` answers.
#[verifier::external_body]
pub(crate) fn ack_channel(capacity: usize) -> (ends: (Sender<()>, Receiver<()>))
    requires
        0 < capacity <= CHANNEL_CAPACITY,
    ensures
        ack_capacity(ends.0) == capacity,
{
    crossbeam_channel::bounded(capacity)
}

/// Calls `crossbeam_channel::Sender::send`, which waits while the channel is
/// full. A message that cannot be delivered, because the receiving end is gone,
/// comes back as it was given. Which of the two happens depends on the other
/// threads and is not claimed.
#[verifier::external_body]
pub(crate) fn send_message<T>(sender: &Sender<T>, message: T) -> (sent: Result<(), T>)
    ensures
        sent matches Err(back) ==> back == message,
{
    sender.send(message).map_err(|e| e.into_inner())
}

/// Calls `crossbeam_channel::Receiver::recv_timeout` and tells whether an answer
/// came in time. That depends on the other threads and on the clock, so nothing
/// is claimed of it. The receiving end is given up with the call: an answer is
/// taken from it once, by the first receive on it and by no other.
#[verifier::external_body]
pub(crate) fn receive_within(receiver: Receiver<()>, timeout: Duration) -> (received: bool)
{
    receiver.recv_timeout(timeout).is_ok()
}

/// Calls `std::time::Duration::from_secs`.
#[verifier::external_body]
pub(crate) fn seconds(secs: u64) -> (duration: Duration)
    ensures
        duration == whole_seconds(secs),
{
    Duration::from_secs(secs)
}

/// `sender` and `receiver` are the two ends of one task channel of that capacity.
pub closed spec fn task_channel_gives(
    capacity: usize,
    sender: Sender<WriteTask>,
    receiver: Receiver<WriteTask>,
) -> bool {
    call_ensures(task_channel, (capacity,), (sender, receiver))
}

/// `sender` and `receiver` are the two ends of one answer channel of that capacity.
pub closed spec fn ack_channel_gives(
    capacity: usize,
    sender: Sender<()>,
    receiver: Receiver<()>,
) -> bool {
    call_ensures(ack_channel, (capacity,), (sender, receiver))
}

/// `sent` is an answer to sending `task` through `sender`.
pub closed spec fn send_gives(
    sender: Sender<WriteTask>,
    task: WriteTask,
    sent: Result<(), WriteTask>,
) -> bool {
    call_ensures(send_message::<WriteTask>, (&sender, task), sent)
}

/// `delivered` is an answer to notifying `sender`.
pub closed spec fn notify_gives(sender: Sender<()>, delivered: bool) -> bool {
    exists|sent: Result<(), ()>|
        #[trigger] call_ensures(send_message::<()>, (&sender, ()), sent) && delivered == (sent is Ok)
}

/// `received` is the answer to waiting that long on `receiver`, which nothing else
/// receives from.
pub closed spec fn receive_gives(receiver: Receiver<()>, timeout: Duration, received: bool) -> bool {
    call_ensures(receive_within, (receiver, timeout), received)
}

/// Makes the queue of a worker.
pub(crate) fn open_task_channel() -> (ends: (Sender<WriteTask>, Receiver<WriteTask>))
    ensures
        task_channel_gives(CHANNEL_CAPACITY, ends.0, ends.1),
        task_capacity(ends.0) == CHANNEL_CAPACITY,
{
    task_channel(CHANNEL_CAPACITY)
}

/// Makes the channel on which one synchronisation request is answered.
pub(crate) fn open_ack_channel() -> (ends: (Sender<()>, Receiver<()>))
    ensures
        ack_channel_gives(ACK_CAPACITY, ends.0, ends.1),
        ack_capacity(ends.0) == ACK_CAPACITY,
{
    ack_channel(ACK_CAPACITY)
}

/// Sends one task.
pub(crate) fn send_task(sender: &Sender<WriteTask>, task: WriteTask) -> (sent: Result<
    (),
    WriteTask,
>)
    ensures
        send_gives(*sender, task, sent),
        sent matches Err(back) ==> back == task,
{
    send_message(sender, task)
}

/// Waits for the one answer that comes through `receiver`.
pub(crate) fn await_ack(receiver: Receiver<()>, timeout: Duration) -> (received: bool)
    ensures
        receive_gives(receiver, timeout, received),
{
    receive_within(receiver, timeout)
}

/// Notifies every caller that waits on one of `notifiers`, in order, and tells
/// for each whether it was still there. One that has gone is passed over.
pub fn notify_all(notifiers: &Vec<Sender<()>>) -> (delivered: Vec<bool>)
    ensures
        delivered@.len() == notifiers@.len(),
        forall|i: int|
            0 <= i < notifiers@.len() ==> notify_gives(notifiers@[i], #[trigger] delivered@[i]),
{
    let mut delivered: Vec<bool> = Vec::new();
    let mut i: usize = 0;
    while i < notifiers.len()
        invariant
            i <= notifiers@.len(),
            delivered@.len() == i,
            forall|j: int|
                0 <= j < i ==> notify_gives(notifiers@[j], #[trigger] delivered@[j]),
        decreases notifiers@.len() - i,
    {
        let sent: Result<(), ()> = send_message(&notifiers[i], ());
        delivered.push(sent.is_ok());
        i += 1;
    }
    delivered
}

/// A task that is not taken comes back as it was sent.
pub proof fn law_unsent_task_comes_back(
    sender: Sender<WriteTask>,
    task: WriteTask,
    back: WriteTask,
)
    requires
        send_gives(sender, task, Err(back)),
    ensures
        back == task,
{
}

/// A queue and an answer channel hold what they were made to hold.
pub proof fn law_channels_hold_their_capacity(
    capacity: usize,
    tasks: (Sender<WriteTask>, Receiver<WriteTask>),
    answers: (Sender<()>, Receiver<()>),
)
    requires
        0 < capacity <= 10000,
    ensures
        task_channel_gives(capacity, tasks.0, tasks.1) ==> task_capacity(tasks.0) == capacity,
        ack_channel_gives(capacity, answers.0, answers.1) ==> ack_capacity(answers.0) == capacity,
{
}

/// The answers spoken of are those of the calls themselves.
pub(crate) proof fn law_answers_are_those_of_the_calls(
    capacity: usize,
    tasks: (Sender<WriteTask>, Receiver<WriteTask>),
    answers: (Sender<()>, Receiver<()>),
    task: WriteTask,
    sent: Result<(), WriteTask>,
    timeout: Duration,
    came: bool,
)
    ensures
        task_channel_gives(capacity, tasks.0, tasks.1) ==> call_ensures(
            task_channel,
            (capacity,),
            tasks,
        ),
        ack_channel_gives(capacity, answers.0, answers.1) ==> call_ensures(
            ack_channel,
            (capacity,),
            answers,
        ),
        send_gives(tasks.0, task, sent) ==> call_ensures(
            send_message::<WriteTask>,
            (&tasks.0, task),
            sent,
        ),
        receive_gives(answers.1, timeout, came) ==> call_ensures(
            receive_within,
            (answers.1, timeout),
            came,
        ),
        notify_gives(answers.0, came) ==> exists|told: Result<(), ()>|
            #[trigger] call_ensures(send_message::<()>, (&answers.0, ()), told) && came == (told is Ok),
{
}

} // verus!
