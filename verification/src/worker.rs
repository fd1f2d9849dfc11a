//! The worker: it opens the database, then takes the queued tasks batch by
//! batch and runs each batch in one transaction.
//!
//! The worker decides and the code around it acts: every action it asks for is
//! answered by an event, which leads to the next action.

use crate::path::{is_shared_memory, names_shared_memory};
use crate::task::{process_task, Statement, StatementView, TaskStep, WriteTask};
use crate::task::{task_step, task_syncs, StepView, TaskView};
use crossbeam_channel::Sender;
use vstd::prelude::*;

verus! {

/// How many milliseconds the write connection waits for a lock.
pub const BUSY_TIMEOUT_MILLIS: u32 = 30000;

/// The journal mode of a database in a file.
pub const JOURNAL_MODE: &'static str = "WAL";

/// A setting of the write connection.
pub enum Pragma {
    /// `journal_mode`, with its value.
    JournalMode(String),
    /// `busy_timeout`, in milliseconds.
    BusyTimeout(u32),
}

/// What the worker asks to be done next.
pub enum WorkerAction<E> {
    /// Open the write connection on this database.
    Open(String),
    /// Change a setting of the connection.
    SetPragma(Pragma),
    /// Tell everyone that waits for it that the database is ready.
    SignalReady,
    /// Wait for a task, or for the end of the queue.
    Receive,
    /// Begin an immediate transaction.
    BeginImmediate,
    /// Run a statement in the transaction.
    Run(Statement),
    /// Take the next task if there is one now.
    TryReceive,
    /// Commit the transaction.
    Commit,
    /// Give up the transaction and what was run in it.
    Rollback,
    /// Notify these callers that their synchronisation is done.
    Notify(Vec<Sender<()>>),
    /// End the worker with this result.
    Exit(Result<(), E>),
}

/// What came of the last action.
pub enum WorkerEvent<E> {
    /// It was done.
    Done,
    /// It failed.
    Failed(E),
    /// It brought a task.
    Task(WriteTask),
    /// It brought no task.
    NoTask,
}

/// Where the worker stands: which action it waits for.
enum Phase {
    Opening,
    SettingJournalMode,
    SettingBusyTimeout,
    Announcing,
    Waiting,
    Beginning(WriteTask),
    Running,
    Draining,
    Committing(bool),
    RollingBack,
    Notifying(bool),
    Finished,
}

/// The dedicated worker of one database.
pub struct DatabaseWorker {
    in_memory: bool,
    phase: Phase,
    sync_notifiers: Vec<Sender<()>>,
}

/// The contents of a setting.
pub enum PragmaView {
    JournalMode(Seq<char>),
    BusyTimeout(u32),
}

impl View for Pragma {
    type V = PragmaView;

    open spec fn view(&self) -> PragmaView {
        match self {
            Pragma::JournalMode(mode) => PragmaView::JournalMode(mode@),
            Pragma::BusyTimeout(millis) => PragmaView::BusyTimeout(*millis),
        }
    }
}

/// The contents of an action.
pub enum ActionView<E> {
    Open(Seq<char>),
    SetPragma(PragmaView),
    SignalReady,
    Receive,
    BeginImmediate,
    Run(StatementView),
    TryReceive,
    Commit,
    Rollback,
    Notify(Seq<Sender<()>>),
    Exit(Result<(), E>),
}

impl<E> View for WorkerAction<E> {
    type V = ActionView<E>;

    open spec fn view(&self) -> ActionView<E> {
        match self {
            WorkerAction::Open(path) => ActionView::Open(path@),
            WorkerAction::SetPragma(pragma) => ActionView::SetPragma(pragma@),
            WorkerAction::SignalReady => ActionView::SignalReady,
            WorkerAction::Receive => ActionView::Receive,
            WorkerAction::BeginImmediate => ActionView::BeginImmediate,
            WorkerAction::Run(statement) => ActionView::Run(statement@),
            WorkerAction::TryReceive => ActionView::TryReceive,
            WorkerAction::Commit => ActionView::Commit,
            WorkerAction::Rollback => ActionView::Rollback,
            WorkerAction::Notify(notifiers) => ActionView::Notify(notifiers@),
            WorkerAction::Exit(result) => ActionView::Exit(*result),
        }
    }
}

/// The contents of an event.
pub enum EventView<E> {
    Done,
    Failed(E),
    Task(TaskView),
    NoTask,
}

impl<E> View for WorkerEvent<E> {
    type V = EventView<E>;

    open spec fn view(&self) -> EventView<E> {
        match self {
            WorkerEvent::Done => EventView::Done,
            WorkerEvent::Failed(error) => EventView::Failed(*error),
            WorkerEvent::Task(task) => EventView::Task(task@),
            WorkerEvent::NoTask => EventView::NoTask,
        }
    }
}

/// Where a worker stands.
pub enum PhaseView {
    /// The connection is being opened.
    Opening,
    /// The journal mode is being set.
    SettingJournalMode,
    /// The busy timeout is being set.
    SettingBusyTimeout,
    /// The database is being announced as ready.
    Announcing,
    /// No batch is open: the worker waits for the first task of one.
    Waiting,
    /// The transaction of a batch is being begun; the task is the first of it.
    Beginning(TaskView),
    /// A statement of the batch is being run.
    Running,
    /// The batch takes what is left in the queue.
    Draining,
    /// The batch is being committed; with `true`, the worker is to stop.
    Committing(bool),
    /// The batch has failed and is being rolled back.
    RollingBack,
    /// The batch is committed and its synchronisations are being answered; with
    /// `true`, the worker is to stop.
    Notifying(bool),
    /// The worker has ended.
    Finished,
}

/// The state of a worker.
#[verifier::ext_equal]
pub struct WorkerView {
    /// Whether the database is a shared in-memory one.
    pub in_memory: bool,
    pub phase: PhaseView,
    /// Who is to be notified once the open batch is committed.
    pub pending: Seq<Sender<()>>,
}

/// The event is an answer to the action that a worker in this phase waits for:
/// tasks come from the queue only, announcing, notifying and rolling back do not
/// fail, and a finished worker waits for nothing.
pub open spec fn accepts<E>(phase: PhaseView, event: EventView<E>) -> bool {
    match phase {
        PhaseView::Waiting | PhaseView::Draining => event is Task || event is NoTask,
        PhaseView::Announcing | PhaseView::Notifying(_) | PhaseView::RollingBack => event is Done,
        PhaseView::Finished => false,
        _ => event is Done || event is Failed,
    }
}

/// The worker in another phase.
pub open spec fn in_phase(worker: WorkerView, phase: PhaseView) -> WorkerView {
    WorkerView { phase, ..worker }
}

/// The worker in another phase, with nobody left to notify.
pub open spec fn in_phase_without_pending(worker: WorkerView, phase: PhaseView) -> WorkerView {
    WorkerView { phase, pending: Seq::empty(), ..worker }
}

/// A worker before its first action is answered.
pub open spec fn launched(path: Seq<char>) -> WorkerView {
    WorkerView {
        in_memory: names_shared_memory(path),
        phase: PhaseView::Opening,
        pending: Seq::empty(),
    }
}

/// What a worker does with a task of the open batch: it runs a statement, keeps
/// a notifier for after the commit and takes the next task, or commits and stops.
pub open spec fn after_task<E>(worker: WorkerView, task: TaskView) -> (
    WorkerView,
    ActionView<E>,
) {
    let next = WorkerView { pending: worker.pending + task_syncs(task), ..worker };
    match task_step(task) {
        StepView::Run(statement) => (
            in_phase(next, PhaseView::Running),
            ActionView::Run(statement),
        ),
        StepView::Continue => (
            in_phase(next, PhaseView::Draining),
            ActionView::TryReceive,
        ),
        StepView::Stop => (
            in_phase(next, PhaseView::Committing(true)),
            ActionView::Commit,
        ),
    }
}

/// What a worker does after an action that was done.
pub open spec fn after_done<E>(worker: WorkerView) -> (WorkerView, ActionView<E>) {
    match worker.phase {
        PhaseView::Opening => if worker.in_memory {
            (in_phase(worker, PhaseView::Announcing), ActionView::SignalReady)
        } else {
            (
                in_phase(worker, PhaseView::SettingJournalMode),
                ActionView::SetPragma(PragmaView::JournalMode(JOURNAL_MODE@)),
            )
        },
        PhaseView::SettingJournalMode => (
            in_phase(worker, PhaseView::SettingBusyTimeout),
            ActionView::SetPragma(PragmaView::BusyTimeout(BUSY_TIMEOUT_MILLIS)),
        ),
        PhaseView::SettingBusyTimeout => (
            in_phase(worker, PhaseView::Announcing),
            ActionView::SignalReady,
        ),
        PhaseView::Beginning(first) => after_task(worker, first),
        PhaseView::Running => (in_phase(worker, PhaseView::Draining), ActionView::TryReceive),
        PhaseView::Committing(stop) => (
            in_phase_without_pending(worker, PhaseView::Notifying(stop)),
            ActionView::Notify(worker.pending),
        ),
        PhaseView::Notifying(true) => (
            in_phase(worker, PhaseView::Finished),
            ActionView::Exit(Ok(())),
        ),
        _ => (in_phase(worker, PhaseView::Waiting), ActionView::Receive),
    }
}

/// What a worker does after an action that failed: before the database is ready
/// it ends with the error, later only the open batch is lost and nobody who
/// waits on it is notified.
pub open spec fn after_failure<E>(worker: WorkerView, error: E) -> (WorkerView, ActionView<E>) {
    match worker.phase {
        PhaseView::Opening | PhaseView::SettingJournalMode | PhaseView::SettingBusyTimeout => (
            in_phase(worker, PhaseView::Finished),
            ActionView::Exit(Err(error)),
        ),
        PhaseView::Beginning(_) => (
            in_phase_without_pending(worker, PhaseView::Waiting),
            ActionView::Receive,
        ),
        _ => (
            in_phase_without_pending(worker, PhaseView::RollingBack),
            ActionView::Rollback,
        ),
    }
}

/// What a worker does after an event: its next state and its next action.
pub open spec fn after_event<E>(worker: WorkerView, event: EventView<E>) -> (
    WorkerView,
    ActionView<E>,
) {
    match event {
        EventView::Done => after_done(worker),
        EventView::Failed(error) => after_failure(worker, error),
        EventView::Task(task) => if worker.phase is Waiting {
            (
                in_phase_without_pending(worker, PhaseView::Beginning(task)),
                ActionView::BeginImmediate,
            )
        } else {
            after_task(worker, task)
        },
        EventView::NoTask => if worker.phase is Waiting {
            (in_phase(worker, PhaseView::Finished), ActionView::Exit(Ok(())))
        } else {
            (in_phase(worker, PhaseView::Committing(false)), ActionView::Commit)
        },
    }
}

impl View for DatabaseWorker {
    type V = WorkerView;

    closed spec fn view(&self) -> WorkerView {
        WorkerView {
            in_memory: self.in_memory,
            phase: phase_view(self.phase),
            pending: self.sync_notifiers@,
        }
    }
}

spec fn phase_view(phase: Phase) -> PhaseView {
    match phase {
        Phase::Opening => PhaseView::Opening,
        Phase::SettingJournalMode => PhaseView::SettingJournalMode,
        Phase::SettingBusyTimeout => PhaseView::SettingBusyTimeout,
        Phase::Announcing => PhaseView::Announcing,
        Phase::Waiting => PhaseView::Waiting,
        Phase::Beginning(first) => PhaseView::Beginning(first@),
        Phase::Running => PhaseView::Running,
        Phase::Draining => PhaseView::Draining,
        Phase::Committing(stop) => PhaseView::Committing(stop),
        Phase::RollingBack => PhaseView::RollingBack,
        Phase::Notifying(stop) => PhaseView::Notifying(stop),
        Phase::Finished => PhaseView::Finished,
    }
}

impl DatabaseWorker {
    /// A worker for the database at `db_path`, and its first action, which is to
    /// open it.
    pub fn launch<E>(db_path: String) -> (start: (Self, WorkerAction<E>))
        ensures
            start.0@ == launched(db_path@),
            start.1@ == ActionView::<E>::Open(db_path@),
    {
        let worker = DatabaseWorker {
            in_memory: is_shared_memory(db_path.as_str()),
            phase: Phase::Opening,
            sync_notifiers: Vec::new(),
        };
        (worker, WorkerAction::Open(db_path))
    }

    /// Whether `event` is an answer to the action the worker waits for.
    pub fn expects<E>(&self, event: &WorkerEvent<E>) -> (yes: bool)
        ensures
            yes == accepts(self@.phase, event@),
    {
        match &self.phase {
            Phase::Waiting | Phase::Draining => match event {
                WorkerEvent::Task(_) | WorkerEvent::NoTask => true,
                _ => false,
            },
            Phase::Announcing | Phase::Notifying(_) | Phase::RollingBack => match event {
                WorkerEvent::Done => true,
                _ => false,
            },
            Phase::Finished => false,
            _ => match event {
                WorkerEvent::Done | WorkerEvent::Failed(_) => true,
                _ => false,
            },
        }
    }

    /// Takes the answer to the last action and gives the next one.
    pub fn step<E>(self, event: WorkerEvent<E>) -> (next: (Self, WorkerAction<E>))
        requires
            accepts(self@.phase, event@),
        ensures
            (next.0@, next.1@) == after_event(self@, event@),
    {
        match event {
            WorkerEvent::Done => self.done(),
            WorkerEvent::Failed(error) => self.failed(error),
            WorkerEvent::Task(task) => match self.phase {
                Phase::Waiting => (
                    self.drop_pending_in(Phase::Beginning(task)),
                    WorkerAction::BeginImmediate,
                ),
                _ => self.take_task(task),
            },
            WorkerEvent::NoTask => match self.phase {
                Phase::Waiting => (self.enter(Phase::Finished), WorkerAction::Exit(Ok(()))),
                _ => (self.enter(Phase::Committing(false)), WorkerAction::Commit),
            },
        }
    }

    /// The worker in another phase.
    fn enter(self, phase: Phase) -> (next: Self)
        ensures
            next@ == in_phase(self@, phase_view(phase)),
    {
        DatabaseWorker { phase, ..self }
    }

    /// The worker in another phase, with nobody left to notify.
    fn drop_pending_in(self, phase: Phase) -> (next: Self)
        ensures
            next@ == in_phase_without_pending(self@, phase_view(phase)),
    {
        DatabaseWorker { in_memory: self.in_memory, phase, sync_notifiers: Vec::new() }
    }

    /// The next step after an action that was done.
    fn done<E>(self) -> (next: (Self, WorkerAction<E>))
        ensures
            (next.0@, next.1@) == after_done::<E>(self@),
    {
        let DatabaseWorker { in_memory, phase, sync_notifiers } = self;
        match phase {
            Phase::Opening => {
                if in_memory {
                    let worker = DatabaseWorker {
                        in_memory,
                        phase: Phase::Announcing,
                        sync_notifiers,
                    };
                    (worker, WorkerAction::SignalReady)
                } else {
                    let worker = DatabaseWorker {
                        in_memory,
                        phase: Phase::SettingJournalMode,
                        sync_notifiers,
                    };
                    let pragma = Pragma::JournalMode(JOURNAL_MODE.to_owned());
                    (worker, WorkerAction::SetPragma(pragma))
                }
            },
            Phase::SettingJournalMode => {
                let worker = DatabaseWorker {
                    in_memory,
                    phase: Phase::SettingBusyTimeout,
                    sync_notifiers,
                };
                (worker, WorkerAction::SetPragma(Pragma::BusyTimeout(BUSY_TIMEOUT_MILLIS)))
            },
            Phase::SettingBusyTimeout => {
                let worker = DatabaseWorker { in_memory, phase: Phase::Announcing, sync_notifiers };
                (worker, WorkerAction::SignalReady)
            },
            Phase::Beginning(first) => {
                let worker = DatabaseWorker { in_memory, phase: Phase::Draining, sync_notifiers };
                worker.take_task(first)
            },
            Phase::Running => {
                let worker = DatabaseWorker { in_memory, phase: Phase::Draining, sync_notifiers };
                (worker, WorkerAction::TryReceive)
            },
            Phase::Committing(stop) => {
                let worker = DatabaseWorker {
                    in_memory,
                    phase: Phase::Notifying(stop),
                    sync_notifiers: Vec::new(),
                };
                (worker, WorkerAction::Notify(sync_notifiers))
            },
            Phase::Notifying(true) => {
                let worker = DatabaseWorker { in_memory, phase: Phase::Finished, sync_notifiers };
                (worker, WorkerAction::Exit(Ok(())))
            },
            _ => {
                let worker = DatabaseWorker { in_memory, phase: Phase::Waiting, sync_notifiers };
                (worker, WorkerAction::Receive)
            },
        }
    }

    /// The next step after an action that failed.
    fn failed<E>(self, error: E) -> (next: (Self, WorkerAction<E>))
        ensures
            (next.0@, next.1@) == after_failure(self@, error),
    {
        match self.phase {
            Phase::Opening | Phase::SettingJournalMode | Phase::SettingBusyTimeout => (
                self.enter(Phase::Finished),
                WorkerAction::Exit(Err(error)),
            ),
            Phase::Beginning(_) => (self.drop_pending_in(Phase::Waiting), WorkerAction::Receive),
            _ => (self.drop_pending_in(Phase::RollingBack), WorkerAction::Rollback),
        }
    }

    /// The next step with a task of the open batch.
    fn take_task<E>(self, task: WriteTask) -> (next: (Self, WorkerAction<E>))
        ensures
            (next.0@, next.1@) == after_task::<E>(self@, task@),
    {
        let mut sync_notifiers = self.sync_notifiers;
        let step = process_task(task, &mut sync_notifiers);
        let in_memory: bool = self.in_memory;
        match step {
            TaskStep::Run(statement) => (
                DatabaseWorker { in_memory, phase: Phase::Running, sync_notifiers },
                WorkerAction::Run(statement),
            ),
            TaskStep::Continue => (
                DatabaseWorker { in_memory, phase: Phase::Draining, sync_notifiers },
                WorkerAction::TryReceive,
            ),
            TaskStep::Stop => (
                DatabaseWorker { in_memory, phase: Phase::Committing(true), sync_notifiers },
                WorkerAction::Commit,
            ),
        }
    }
}

/// What an action shows of itself is all it holds.
pub proof fn law_action_shows_all_it_holds<E>(
    path: String,
    mode: String,
    millis: u32,
    statement: Statement,
    notifiers: Vec<Sender<()>>,
    result: Result<(), E>,
)
    ensures
        WorkerAction::<E>::Open(path)@ == ActionView::<E>::Open(path@),
        WorkerAction::<E>::SetPragma(Pragma::JournalMode(mode))@ == ActionView::<E>::SetPragma(
            PragmaView::JournalMode(mode@),
        ),
        WorkerAction::<E>::SetPragma(Pragma::BusyTimeout(millis))@ == ActionView::<E>::SetPragma(
            PragmaView::BusyTimeout(millis),
        ),
        WorkerAction::<E>::SignalReady@ == ActionView::<E>::SignalReady,
        WorkerAction::<E>::Receive@ == ActionView::<E>::Receive,
        WorkerAction::<E>::BeginImmediate@ == ActionView::<E>::BeginImmediate,
        WorkerAction::<E>::Run(statement)@ == ActionView::<E>::Run(statement@),
        WorkerAction::<E>::TryReceive@ == ActionView::<E>::TryReceive,
        WorkerAction::<E>::Commit@ == ActionView::<E>::Commit,
        WorkerAction::<E>::Rollback@ == ActionView::<E>::Rollback,
        WorkerAction::<E>::Notify(notifiers)@ == ActionView::<E>::Notify(notifiers@),
        WorkerAction::<E>::Exit(result)@ == ActionView::<E>::Exit(result),
{
}

/// What an event shows of itself is all it holds.
pub proof fn law_event_shows_all_it_holds<E>(error: E, task: WriteTask)
    ensures
        WorkerEvent::<E>::Done@ == EventView::<E>::Done,
        WorkerEvent::<E>::Failed(error)@ == EventView::<E>::Failed(error),
        WorkerEvent::<E>::Task(task)@ == EventView::<E>::Task(task@),
        WorkerEvent::<E>::NoTask@ == EventView::<E>::NoTask,
{
}

} // verus!
