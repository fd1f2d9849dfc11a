use rust_sqlite_async::async_sqlite::{script_outcome, write_outcome};
use rust_sqlite_async::path::{is_shared_memory, resolve_db_path};
use rust_sqlite_async::pool::read_pool_config;
use rust_sqlite_async::{
    AsyncSqlite, ReadError, Readiness, RowCollector, ScriptError, Value, WriteError, WriteTask,
};
use std::time::{Duration, Instant};
use tempfile::NamedTempFile;

fn announced() -> Readiness {
    let mut readiness = Readiness::new();
    readiness.announce();
    readiness
}

#[test]
fn test_initialization_file_path() {
    let temp_file = NamedTempFile::new().unwrap();
    let db_path_str = temp_file.path().to_str().unwrap().to_string();
    let db = AsyncSqlite::new(&db_path_str);
    assert_eq!(db.db_path(), db_path_str);
}

#[test]
fn test_initialization_in_memory() {
    let db = AsyncSqlite::new(":memory:");
    assert_eq!(db.db_path(), "file:memdb?mode=memory&cache=shared");
}

#[test]
fn test_read_before_ready() {
    let db = AsyncSqlite::new(":memory:");
    let result: Result<i32, ReadError<rusqlite::Error>> = db.query_read_one(
        Readiness::new(),
        || rusqlite::Connection::open(db.db_path()),
        |conn| conn.query_row("SELECT 1", [], |row| row.get(0)),
    );
    assert!(result.is_err());
    assert!(matches!(result.unwrap_err(), ReadError::InvalidQuery));
}

#[test]
fn resolve_keeps_other_paths() {
    assert_eq!(resolve_db_path("data.db"), "data.db");
    assert_eq!(resolve_db_path(""), "");
    assert_eq!(resolve_db_path(":memory"), ":memory");
    assert_eq!(resolve_db_path(":memory:x"), ":memory:x");
    assert_eq!(resolve_db_path(":MEMORY:"), ":MEMORY:");
    assert_eq!(
        resolve_db_path(&resolve_db_path(":memory:")),
        resolve_db_path(":memory:")
    );
}

#[test]
fn shared_memory_is_told_by_its_prefix() {
    assert!(is_shared_memory(&resolve_db_path(":memory:")));
    assert!(is_shared_memory("file:memdb"));
    assert!(is_shared_memory("file:memdb2?mode=memory"));
    assert!(!is_shared_memory("file:memd"));
    assert!(!is_shared_memory("data.db"));
    assert!(!is_shared_memory(""));
    assert!(!is_shared_memory("./file:memdb"));
}

#[test]
fn read_pool_limits() {
    let config = read_pool_config();
    assert_eq!(config.max_size, 10);
    assert_eq!(config.min_idle, Some(2));
    assert_eq!(config.connection_timeout_secs, 30);
}

#[test]
fn start_gives_one_seat() {
    let mut db = AsyncSqlite::new("data.db");
    assert!(!db.is_started());
    let seat = db.start(&mut Readiness::new()).unwrap();
    assert!(db.is_started());
    assert_eq!(seat.db_path, "data.db");
    assert_eq!(seat.receiver.capacity(), Some(10000));
    assert!(db.start(&mut Readiness::new()).is_none());
    db.execute_write("SELECT 1", vec![]).unwrap();
    assert_eq!(seat.receiver.len(), 1);
}

#[test]
fn writes_are_queued_in_order() {
    let mut db = AsyncSqlite::new("data.db");
    let seat = db.start(&mut Readiness::new()).unwrap();
    db.execute_write("INSERT INTO t VALUES (?)", vec![Value::Integer(7)])
        .unwrap();
    db.execute_script("DELETE FROM t;".to_string()).unwrap();
    match seat.receiver.try_recv().unwrap() {
        WriteTask::Execute { sql, params } => {
            assert_eq!(sql, "INSERT INTO t VALUES (?)");
            assert_eq!(params, vec![Value::Integer(7)]);
        }
        _ => panic!("a statement was queued first"),
    }
    match seat.receiver.try_recv().unwrap() {
        WriteTask::ExecuteScript { script } => assert_eq!(script, "DELETE FROM t;"),
        _ => panic!("a script was queued next"),
    }
    assert!(seat.receiver.is_empty());
}

#[test]
fn requests_before_start_are_refused() {
    let mut db = AsyncSqlite::new("data.db");
    assert!(matches!(db.execute_write("SELECT 1", vec![]), Err(WriteError)));
    assert!(matches!(
        db.execute_script("SELECT 1;".to_string()),
        Err(ScriptError::NotRunning)
    ));
    assert!(!db.sync(Duration::from_secs(5)));
    assert!(db.request_sync().is_none());
    assert!(!db.stop());
}

#[test]
fn requests_to_a_gone_worker_are_refused() {
    let mut db = AsyncSqlite::new("data.db");
    drop(db.start(&mut Readiness::new()).unwrap());
    assert!(db.is_started());
    assert!(matches!(db.execute_write("SELECT 1", vec![]), Err(WriteError)));
    assert!(matches!(
        db.execute_script("SELECT 1;".to_string()),
        Err(ScriptError::Disconnected)
    ));
    assert!(!db.sync(Duration::from_secs(5)));
    assert!(db.stop());
    assert!(!db.is_started());
    assert!(!db.stop());
    assert!(matches!(
        db.execute_script("SELECT 1;".to_string()),
        Err(ScriptError::NotRunning)
    ));
}

#[test]
fn sync_that_is_not_answered_fails() {
    let mut db = AsyncSqlite::new("data.db");
    let seat = db.start(&mut Readiness::new()).unwrap();
    assert!(!db.sync(Duration::from_millis(20)));
    assert!(matches!(seat.receiver.try_recv(), Ok(WriteTask::Sync(_))));
}

#[test]
fn sync_request_is_answered_through_its_notifier() {
    let mut db = AsyncSqlite::new("data.db");
    let seat = db.start(&mut Readiness::new()).unwrap();
    let answer = db.request_sync().unwrap();
    assert_eq!(answer.capacity(), Some(1));
    assert!(answer.is_empty());
    match seat.receiver.try_recv().unwrap() {
        WriteTask::Sync(notify) => {
            assert_eq!(
                rust_sqlite_async::channel::notify_all(&vec![notify]),
                vec![true]
            )
        }
        _ => panic!("a synchronisation was queued"),
    }
    assert!(answer.try_recv().is_ok());
}

#[test]
fn notifying_passes_over_those_who_left() {
    let mut db = AsyncSqlite::new("data.db");
    let seat = db.start(&mut Readiness::new()).unwrap();
    let first = db.request_sync().unwrap();
    drop(db.request_sync().unwrap());
    let third = db.request_sync().unwrap();
    let mut notifiers = vec![];
    while let Ok(WriteTask::Sync(notify)) = seat.receiver.try_recv() {
        notifiers.push(notify);
    }
    assert_eq!(
        rust_sqlite_async::channel::notify_all(&notifiers),
        vec![true, false, true]
    );
    assert!(first.try_recv().is_ok());
    assert!(third.try_recv().is_ok());
}

#[test]
fn stop_synchronises_and_sends_the_stop() {
    let mut db = AsyncSqlite::new("data.db");
    let seat = db.start(&mut Readiness::new()).unwrap();
    db.execute_write("SELECT 1", vec![]).unwrap();
    let begin = Instant::now();
    assert!(db.stop());
    assert!(begin.elapsed() >= Duration::from_secs(5));
    assert!(!db.is_started());
    assert!(matches!(seat.receiver.try_recv(), Ok(WriteTask::Execute { .. })));
    assert!(matches!(seat.receiver.try_recv(), Ok(WriteTask::Sync(_))));
    assert!(matches!(seat.receiver.try_recv(), Ok(WriteTask::Stop)));
    assert!(seat.receiver.recv().is_err());
    assert!(db.start(&mut Readiness::new()).is_some());
}

#[test]
fn outcomes_of_a_send() {
    assert!(write_outcome(Ok(())).is_ok());
    assert!(matches!(write_outcome(Err(WriteTask::Stop)), Err(WriteError)));
    assert!(script_outcome(Ok(())).is_ok());
    assert!(matches!(
        script_outcome(Err(WriteTask::Stop)),
        Err(ScriptError::Disconnected)
    ));
}

#[test]
fn error_messages() {
    assert_eq!(WriteError.message(), "Failed to send write task");
    assert_eq!(
        ScriptError::NotRunning.message(),
        "Worker thread is not running"
    );
    let (sender, receiver) = crossbeam_channel::bounded::<u8>(1);
    drop(receiver);
    assert_eq!(
        ScriptError::Disconnected.message(),
        sender.send(1).unwrap_err().to_string()
    );
}

#[test]
fn waiting_happens_only_while_not_ready() {
    let db = AsyncSqlite::new("data.db");
    assert!(db.wait_for_ready(announced(), || panic!("it is ready")));
    assert!(db.wait_for_ready(Readiness::new(), || false));
    assert!(!db.wait_for_ready(Readiness::new(), || true));
}

#[test]
fn the_pool_is_asked_only_when_ready() {
    let db = AsyncSqlite::new("data.db");
    let refused: Result<u8, ReadError<String>> =
        db.get_read_conn(Readiness::new(), || -> Result<u8, String> { panic!("it is not ready") });
    assert!(matches!(refused, Err(ReadError::InvalidQuery)));
    let none: Result<u8, ReadError<String>> =
        db.get_read_conn(announced(), || -> Result<u8, u8> { Err(1) });
    assert!(matches!(none, Err(ReadError::InvalidQuery)));
    let given: Result<u8, ReadError<String>> =
        db.get_read_conn(announced(), || -> Result<u8, u8> { Ok(9) });
    assert!(matches!(given, Ok(9)));
}

#[test]
fn rows_are_collected_up_to_the_first_error() {
    let mut rows: RowCollector<u8, &str> = RowCollector::new();
    assert!(rows.accept(Ok(1)));
    assert!(rows.accept(Ok(2)));
    assert_eq!(rows.finish(), Ok(vec![1, 2]));

    let mut rows: RowCollector<u8, &str> = RowCollector::new();
    assert!(rows.accept(Ok(1)));
    assert!(!rows.accept(Err("first")));
    assert!(!rows.accept(Ok(2)));
    assert!(!rows.accept(Err("second")));
    assert_eq!(rows.finish(), Err("first"));

    let rows: RowCollector<u8, &str> = RowCollector::new();
    assert_eq!(rows.finish(), Ok(vec![]));
}

#[test]
fn read_all_gives_the_rows_or_the_error() {
    let db = AsyncSqlite::new("data.db");
    let connect = || -> Result<u8, u8> { Ok(4) };
    let all = db.query_read_all(announced(), connect, |c: u8| -> Result<RowCollector<u8, &str>, &str> {
        let mut rows = RowCollector::new();
        rows.accept(Ok(c));
        Ok(rows)
    });
    assert!(matches!(all, Ok(v) if v == vec![4]));
    let refused = db.query_read_all(
        announced(),
        connect,
        |_c: u8| -> Result<RowCollector<u8, &str>, &str> { Err("no table") },
    );
    assert!(matches!(refused, Err(ReadError::Database("no table"))));
    let broken = db.query_read_all(
        announced(),
        connect,
        |_c: u8| -> Result<RowCollector<u8, &str>, &str> {
            let mut rows = RowCollector::new();
            rows.accept(Ok(1));
            rows.accept(Err("bad row"));
            Ok(rows)
        },
    );
    assert!(matches!(broken, Err(ReadError::Database("bad row"))));
}

#[test]
fn start_asks_the_new_worker_to_announce_itself() {
    let mut db = AsyncSqlite::new("data.db");
    let mut readiness = Readiness::new();
    assert!(!readiness.worker_is_ready());
    assert!(!readiness.serves_reads());
    let seat = db.start(&mut readiness).unwrap();
    assert!(!readiness.worker_is_ready());
    assert!(!readiness.serves_reads());
    readiness.announce();
    assert!(db.start(&mut readiness).is_none());
    assert!(readiness.worker_is_ready());
    assert!(readiness.serves_reads());
    drop(seat);
    assert!(db.stop());
    assert!(db.start(&mut readiness).is_some());
    assert!(!readiness.worker_is_ready());
    assert!(!db.wait_for_ready(readiness, || true));
}

#[test]
fn reads_go_on_while_a_new_worker_starts() {
    let mut db = AsyncSqlite::new("data.db");
    let mut readiness = Readiness::new();
    drop(db.start(&mut readiness).unwrap());
    readiness.announce();
    assert!(db.stop());
    drop(db.start(&mut readiness).unwrap());
    assert!(!readiness.worker_is_ready());
    assert!(readiness.serves_reads());
    let read: Result<u8, ReadError<String>> =
        db.query_read_one(readiness, || -> Result<u8, u8> { Ok(9) }, |c| Ok(c));
    assert!(matches!(read, Ok(9)));
}

#[test]
fn manager_can_be_shared_between_threads() {
    fn shared<T: Send + Sync>(_: &T) {}
    shared(&AsyncSqlite::new("data.db"));
}

#[test]
fn rows_accepted_one_by_one_are_what_all_of_them_come_to() {
    let rows: Vec<Result<u8, &str>> = vec![Ok(1), Ok(2), Err("third"), Ok(4)];
    let all: Result<Vec<u8>, &str> = rows.iter().cloned().collect();
    let mut collector: RowCollector<u8, &str> = RowCollector::new();
    for row in rows {
        collector.accept(row);
    }
    assert_eq!(collector.finish(), all);
}
