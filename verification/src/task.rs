//! The tasks that callers queue for the worker.

use crossbeam_channel::Sender;
use rusqlite::types::Value;
use vstd::prelude::*;

verus! {

/// A parameter of an SQL statement (`rusqlite::types::Value`), carried as it is
/// to the database.
#[verifier::external_type_specification]
#[verifier::external_body]
pub struct ExValue(rusqlite::types::Value);

/// What a caller asks of the worker.
pub enum WriteTask {
    /// Execute one statement with its parameters.
    Execute { sql: String, params: Vec<Value> },
    /// Execute a script of statements.
    ExecuteScript { script: String },
    /// Notify the sender once all tasks before this one are done with.
    Sync(Sender<()>),
    /// End the worker.
    Stop,
}

/// The contents of a task.
pub enum TaskView {
    Execute { sql: Seq<char>, params: Seq<Value> },
    ExecuteScript { script: Seq<char> },
    Sync(Sender<()>),
    Stop,
}

impl View for WriteTask {
    type V = TaskView;

    open spec fn view(&self) -> TaskView {
        match self {
            WriteTask::Execute { sql, params } => TaskView::Execute { sql: sql@, params: params@ },
            WriteTask::ExecuteScript { script } => TaskView::ExecuteScript { script: script@ },
            WriteTask::Sync(notify) => TaskView::Sync(*notify),
            WriteTask::Stop => TaskView::Stop,
        }
    }
}

/// SQL that is run inside the transaction of a batch.
pub enum Statement {
    /// One statement with its parameters.
    Execute { sql: String, params: Vec<Value> },
    /// A script of statements.
    Script { script: String },
}

/// The contents of a statement.
pub enum StatementView {
    Execute { sql: Seq<char>, params: Seq<Value> },
    Script { script: Seq<char> },
}

impl View for Statement {
    type V = StatementView;

    open spec fn view(&self) -> StatementView {
        match self {
            Statement::Execute { sql, params } => StatementView::Execute {
                sql: sql@,
                params: params@,
            },
            Statement::Script { script } => StatementView::Script { script: script@ },
        }
    }
}

/// What a task comes to inside the transaction of its batch.
pub enum TaskStep {
    /// Run this statement, then go on with the batch.
    Run(Statement),
    /// Go on with the batch.
    Continue,
    /// Commit the batch and end the worker.
    Stop,
}

/// The contents of a step.
pub enum StepView {
    Run(StatementView),
    Continue,
    Stop,
}

impl View for TaskStep {
    type V = StepView;

    open spec fn view(&self) -> StepView {
        match self {
            TaskStep::Run(statement) => StepView::Run(statement@),
            TaskStep::Continue => StepView::Continue,
            TaskStep::Stop => StepView::Stop,
        }
    }
}

/// The statements that a task asks to run: one or none.
pub open spec fn task_writes(task: TaskView) -> Seq<StatementView> {
    match task {
        TaskView::Execute { sql, params } => seq![StatementView::Execute { sql, params }],
        TaskView::ExecuteScript { script } => seq![StatementView::Script { script }],
        TaskView::Sync(_) => seq![],
        TaskView::Stop => seq![],
    }
}

/// The callers that a task asks to notify: one or none.
pub open spec fn task_syncs(task: TaskView) -> Seq<Sender<()>> {
    match task {
        TaskView::Sync(notify) => seq![notify],
        _ => seq![],
    }
}

/// What a task comes to: its statement if it has one, the end of the worker for
/// a stop, and nothing to run for a synchronisation.
pub open spec fn task_step(task: TaskView) -> StepView {
    match task {
        TaskView::Execute { sql, params } => StepView::Run(StatementView::Execute { sql, params }),
        TaskView::ExecuteScript { script } => StepView::Run(StatementView::Script { script }),
        TaskView::Sync(_) => StepView::Continue,
        TaskView::Stop => StepView::Stop,
    }
}

/// Decides what one task of a batch comes to. A synchronisation is not answered
/// yet: its notifier joins `notifiers`, to be notified after the commit.
pub fn process_task(task: WriteTask, notifiers: &mut Vec<Sender<()>>) -> (step: TaskStep)
    ensures
        step@ == task_step(task@),
        final(notifiers)@ == old(notifiers)@ + task_syncs(task@),
        task matches WriteTask::Execute { sql, params } ==> {
            &&& step matches TaskStep::Run(Statement::Execute { sql: s, params: p })
            &&& s@ == sql@
            &&& p@ == params@
            &&& final(notifiers)@ == old(notifiers)@
        },
        task matches WriteTask::ExecuteScript { script } ==> {
            &&& step matches TaskStep::Run(Statement::Script { script: s })
            &&& s@ == script@
            &&& final(notifiers)@ == old(notifiers)@
        },
        task matches WriteTask::Sync(notify) ==> {
            &&& step is Continue
            &&& final(notifiers)@ == old(notifiers)@.push(notify)
        },
        task is Stop ==> step is Stop && final(notifiers)@ == old(notifiers)@,
{
    match task {
        WriteTask::Execute { sql, params } => TaskStep::Run(Statement::Execute { sql, params }),
        WriteTask::ExecuteScript { script } => TaskStep::Run(Statement::Script { script }),
        WriteTask::Sync(notify) => {
            notifiers.push(notify);
            TaskStep::Continue
        },
        WriteTask::Stop => TaskStep::Stop,
    }
}

/// A task is known by all it holds: two tasks look the same only if they ask for
/// the same, with the same text and the same parameters in the same order.
pub proof fn law_task_is_its_contents(one: WriteTask, other: WriteTask)
    requires
        one@ == other@,
    ensures
        one matches WriteTask::Execute { sql, params } ==> (other matches WriteTask::Execute {
            sql: s,
            params: p,
        } && s@ == sql@ && p@ == params@),
        one matches WriteTask::ExecuteScript { script } ==> (
        other matches WriteTask::ExecuteScript { script: s } && s@ == script@),
        one matches WriteTask::Sync(notify) ==> other == WriteTask::Sync(notify),
        one is Stop ==> other is Stop,
{
}

/// What a task shows of itself is what it was made of.
pub proof fn law_task_shows_what_it_was_made_of(
    sql: String,
    params: Vec<Value>,
    script: String,
    notify: Sender<()>,
)
    ensures
        (WriteTask::Execute { sql, params })@ == (TaskView::Execute { sql: sql@, params: params@ }),
        (WriteTask::ExecuteScript { script })@ == (TaskView::ExecuteScript { script: script@ }),
        WriteTask::Sync(notify)@ == TaskView::Sync(notify),
        WriteTask::Stop@ == TaskView::Stop,
        (Statement::Execute { sql, params })@ == (StatementView::Execute {
            sql: sql@,
            params: params@,
        }),
        (Statement::Script { script })@ == (StatementView::Script { script: script@ }),
        TaskStep::Continue@ == StepView::Continue,
        TaskStep::Stop@ == StepView::Stop,
{
}

/// Every statement and every script is written as it was queued and once, a
/// synchronisation and a stop write nothing, and only a synchronisation has
/// someone to notify: the one who asked, once.
pub proof fn law_what_tasks_ask_for(
    sql: Seq<char>,
    params: Seq<Value>,
    script: Seq<char>,
    notify: Sender<()>,
)
    ensures
        task_writes(TaskView::Execute { sql, params }) == seq![
            StatementView::Execute { sql, params },
        ],
        task_writes(TaskView::ExecuteScript { script }) == seq![StatementView::Script { script }],
        task_writes(TaskView::Sync(notify)).len() == 0,
        task_writes(TaskView::Stop).len() == 0,
        task_syncs(TaskView::Execute { sql, params }).len() == 0,
        task_syncs(TaskView::ExecuteScript { script }).len() == 0,
        task_syncs(TaskView::Sync(notify)) == seq![notify],
        task_syncs(TaskView::Stop).len() == 0,
{
}

} // verus!
