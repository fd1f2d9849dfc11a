use crossbeam_channel::{bounded, Receiver};
use rust_sqlite_async::task::process_task;
use rust_sqlite_async::{
    DatabaseWorker, Pragma, Statement, TaskStep, Value, WorkerAction, WorkerEvent, WriteTask,
};

type Action = WorkerAction<&'static str>;
type Event = WorkerEvent<&'static str>;

fn write(sql: &str) -> Event {
    Event::Task(WriteTask::Execute {
        sql: sql.to_string(),
        params: vec![Value::Integer(3)],
    })
}

fn sync() -> (Event, Receiver<()>) {
    let (notify, answer) = bounded(1);
    (Event::Task(WriteTask::Sync(notify)), answer)
}

fn step(worker: DatabaseWorker, event: Event) -> (DatabaseWorker, Action) {
    assert!(worker.expects(&event));
    worker.step(event)
}

/// A worker of an in-memory database that waits for its first task.
fn waiting() -> DatabaseWorker {
    let (worker, _) = DatabaseWorker::launch::<&str>("file:memdb?mode=memory&cache=shared".to_string());
    let (worker, action) = step(worker, Event::Done);
    assert!(matches!(action, Action::SignalReady));
    let (worker, action) = step(worker, Event::Done);
    assert!(matches!(action, Action::Receive));
    worker
}

#[test]
fn file_database_gets_its_settings_before_it_is_ready() {
    let (worker, action): (DatabaseWorker, Action) = DatabaseWorker::launch("data.db".to_string());
    assert!(matches!(action, Action::Open(path) if path == "data.db"));
    let (worker, action) = step(worker, Event::Done);
    assert!(matches!(action, Action::SetPragma(Pragma::JournalMode(mode)) if mode == "WAL"));
    let (worker, action) = step(worker, Event::Done);
    assert!(matches!(
        action,
        Action::SetPragma(Pragma::BusyTimeout(30000))
    ));
    let (worker, action) = step(worker, Event::Done);
    assert!(matches!(action, Action::SignalReady));
    let (_, action) = step(worker, Event::Done);
    assert!(matches!(action, Action::Receive));
}

#[test]
fn failed_start_ends_the_worker() {
    let (worker, _) = DatabaseWorker::launch::<&str>("data.db".to_string());
    let (worker, action) = step(worker, Event::Failed("cannot open"));
    assert!(matches!(action, Action::Exit(Err("cannot open"))));
    assert!(!worker.expects(&Event::Done));

    let (worker, _) = DatabaseWorker::launch::<&str>("data.db".to_string());
    let (worker, _) = step(worker, Event::Done);
    let (_, action) = step(worker, Event::Failed("no journal"));
    assert!(matches!(action, Action::Exit(Err("no journal"))));
}

#[test]
fn batch_is_committed_and_then_notified() {
    let (worker, action) = step(waiting(), write("first"));
    assert!(matches!(action, Action::BeginImmediate));
    let (worker, action) = step(worker, Event::Done);
    match action {
        Action::Run(Statement::Execute { sql, params }) => {
            assert_eq!(sql, "first");
            assert_eq!(params, vec![Value::Integer(3)]);
        }
        _ => panic!("the first statement is run"),
    }
    let (worker, action) = step(worker, Event::Done);
    assert!(matches!(action, Action::TryReceive));
    let (request, answer) = sync();
    let (worker, action) = step(worker, request);
    assert!(matches!(action, Action::TryReceive));
    let script = Event::Task(WriteTask::ExecuteScript {
        script: "second".to_string(),
    });
    let (worker, action) = step(worker, script);
    assert!(matches!(action, Action::Run(Statement::Script { script }) if script == "second"));
    let (worker, _) = step(worker, Event::Done);
    let (worker, action) = step(worker, Event::NoTask);
    assert!(matches!(action, Action::Commit));
    assert!(answer.is_empty());
    let (worker, action) = step(worker, Event::Done);
    match action {
        Action::Notify(notifiers) => {
            assert_eq!(
                rust_sqlite_async::channel::notify_all(&notifiers),
                vec![true]
            )
        }
        _ => panic!("the commit is followed by the notification"),
    }
    assert!(answer.try_recv().is_ok());
    let (_, action) = step(worker, Event::Done);
    assert!(matches!(action, Action::Receive));
}

#[test]
fn failed_batch_is_rolled_back_and_not_notified() {
    let (request, answer) = sync();
    let (worker, _) = step(waiting(), request);
    let (worker, action) = step(worker, Event::Done);
    assert!(matches!(action, Action::TryReceive));
    let (worker, _) = step(worker, write("bad"));
    let (worker, action) = step(worker, Event::Failed("syntax"));
    assert!(matches!(action, Action::Rollback));
    assert!(answer.recv().is_err());
    let (worker, action) = step(worker, Event::Done);
    assert!(matches!(action, Action::Receive));

    let (worker, _) = step(worker, write("good"));
    let (worker, _) = step(worker, Event::Done);
    let (worker, _) = step(worker, Event::Done);
    let (worker, _) = step(worker, Event::NoTask);
    let (_, action) = step(worker, Event::Done);
    assert!(matches!(action, Action::Notify(notifiers) if notifiers.is_empty()));
}

#[test]
fn failed_begin_loses_the_first_task() {
    let (request, answer) = sync();
    let (worker, _) = step(waiting(), request);
    let (_, action) = step(worker, Event::Failed("busy"));
    assert!(matches!(action, Action::Receive));
    assert!(answer.recv().is_err());
}

#[test]
fn failed_commit_is_rolled_back() {
    let (request, answer) = sync();
    let (worker, _) = step(waiting(), request);
    let (worker, _) = step(worker, Event::Done);
    let (worker, _) = step(worker, Event::NoTask);
    let (worker, action) = step(worker, Event::Failed("disk full"));
    assert!(matches!(action, Action::Rollback));
    assert!(answer.recv().is_err());
    let (_, action) = step(worker, Event::Done);
    assert!(matches!(action, Action::Receive));
}

#[test]
fn stop_commits_notifies_and_ends() {
    let (request, answer) = sync();
    let (worker, _) = step(waiting(), request);
    let (worker, _) = step(worker, Event::Done);
    let (worker, action) = step(worker, Event::Task(WriteTask::Stop));
    assert!(matches!(action, Action::Commit));
    let (worker, action) = step(worker, Event::Done);
    match action {
        Action::Notify(notifiers) => assert_eq!(notifiers.len(), 1),
        _ => panic!("the commit is followed by the notification"),
    }
    drop(answer);
    let (worker, action) = step(worker, Event::Done);
    assert!(matches!(action, Action::Exit(Ok(()))));
    assert!(!worker.expects(&Event::NoTask));
}

#[test]
fn closed_queue_ends_the_worker() {
    let (_, action) = step(waiting(), Event::NoTask);
    assert!(matches!(action, Action::Exit(Ok(()))));
}

#[test]
fn worker_expects_only_answers_to_its_action() {
    let worker = waiting();
    assert!(!worker.expects(&Event::Done));
    assert!(!worker.expects(&Event::Failed("x")));
    assert!(worker.expects(&Event::NoTask));
    let (worker, _) = step(worker, write("w"));
    assert!(!worker.expects(&Event::NoTask));
    assert!(!worker.expects(&write("w")));
    assert!(worker.expects(&Event::Failed("x")));
}

#[test]
fn tasks_come_to_their_steps() {
    let mut notifiers = vec![];
    let run = process_task(
        WriteTask::Execute {
            sql: "s".to_string(),
            params: vec![Value::Null],
        },
        &mut notifiers,
    );
    assert!(matches!(run, TaskStep::Run(Statement::Execute { sql, params })
        if sql == "s" && params == vec![Value::Null]));
    let script = process_task(
        WriteTask::ExecuteScript {
            script: "t".to_string(),
        },
        &mut notifiers,
    );
    assert!(matches!(script, TaskStep::Run(Statement::Script { script }) if script == "t"));
    assert!(matches!(
        process_task(WriteTask::Stop, &mut notifiers),
        TaskStep::Stop
    ));
    assert!(notifiers.is_empty());
    let (notify, answer) = bounded(1);
    assert!(matches!(
        process_task(WriteTask::Sync(notify), &mut notifiers),
        TaskStep::Continue
    ));
    assert_eq!(notifiers.len(), 1);
    assert!(answer.is_empty());
}
