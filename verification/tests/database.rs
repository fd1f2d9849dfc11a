use crossbeam_channel::Receiver;
use r2d2_sqlite::SqliteConnectionManager;
use rusqlite::{Connection, Error, Transaction, TransactionBehavior};
use rust_sqlite_async::channel::notify_all;
use rust_sqlite_async::pool::read_pool_config;
use rust_sqlite_async::{
    AsyncSqlite, DatabaseWorker, Pragma, ReadError, Readiness, RowCollector, Statement, Value,
    WorkerAction, WorkerEvent, WorkerSeat, WriteTask,
};
use std::time::Duration;
use tempfile::NamedTempFile;

type Pool = r2d2::Pool<SqliteConnectionManager>;
type Conn = r2d2::PooledConnection<SqliteConnectionManager>;

/// A worker on a real connection that is run by hand.
struct Runner {
    worker: Option<DatabaseWorker>,
    action: Option<WorkerAction<Error>>,
    conn: Option<Connection>,
    receiver: Receiver<WriteTask>,
    readiness: Readiness,
    begun: usize,
    failures: usize,
}

impl Runner {
    fn new(seat: WorkerSeat, readiness: Readiness) -> Runner {
        let (worker, action) = DatabaseWorker::launch(seat.db_path);
        Runner {
            worker: Some(worker),
            action: Some(action),
            conn: None,
            receiver: seat.receiver,
            readiness,
            begun: 0,
            failures: 0,
        }
    }

    fn answer(&mut self, result: Result<(), Error>) -> WorkerEvent<Error> {
        match result {
            Ok(()) => WorkerEvent::Done,
            Err(e) => {
                self.failures += 1;
                WorkerEvent::Failed(e)
            }
        }
    }

    /// Performs actions until the worker waits on an empty queue (`None`) or
    /// ends with its result.
    fn run(&mut self) -> Option<Result<(), Error>> {
        loop {
            let event = match self.action.take().unwrap() {
                WorkerAction::Open(path) => {
                    let opened = Connection::open(path).map(|conn| self.conn = Some(conn));
                    self.answer(opened)
                }
                WorkerAction::SetPragma(Pragma::JournalMode(mode)) => {
                    let set = self.conn().pragma_update(None, "journal_mode", mode);
                    self.answer(set)
                }
                WorkerAction::SetPragma(Pragma::BusyTimeout(millis)) => {
                    let set = self.conn().pragma_update(None, "busy_timeout", millis);
                    self.answer(set)
                }
                WorkerAction::SignalReady => {
                    self.readiness.announce();
                    WorkerEvent::Done
                }
                WorkerAction::Receive => match self.receiver.try_recv() {
                    Ok(task) => WorkerEvent::Task(task),
                    Err(e) if e.is_disconnected() => WorkerEvent::NoTask,
                    Err(_) => {
                        self.action = Some(WorkerAction::Receive);
                        return None;
                    }
                },
                WorkerAction::TryReceive => match self.receiver.try_recv() {
                    Ok(task) => WorkerEvent::Task(task),
                    Err(_) => WorkerEvent::NoTask,
                },
                WorkerAction::BeginImmediate => {
                    self.begun += 1;
                    let begun =
                        Transaction::new_unchecked(self.conn(), TransactionBehavior::Immediate)
                            .map(|mut tx| tx.set_drop_behavior(rusqlite::DropBehavior::Ignore));
                    self.answer(begun)
                }
                WorkerAction::Run(Statement::Execute { sql, params }) => {
                    let run = self
                        .conn()
                        .execute(&sql, rusqlite::params_from_iter(params))
                        .map(|_| ());
                    self.answer(run)
                }
                WorkerAction::Run(Statement::Script { script }) => {
                    let run = self.conn().execute_batch(&script);
                    self.answer(run)
                }
                WorkerAction::Commit => {
                    let committed = self.conn().execute_batch("COMMIT");
                    self.answer(committed)
                }
                WorkerAction::Rollback => {
                    self.conn().execute_batch("ROLLBACK").unwrap();
                    WorkerEvent::Done
                }
                WorkerAction::Notify(notifiers) => {
                    notify_all(&notifiers);
                    WorkerEvent::Done
                }
                WorkerAction::Exit(result) => return Some(result),
            };
            let worker = self.worker.take().unwrap();
            assert!(worker.expects(&event));
            let (worker, action) = worker.step(event);
            self.worker = Some(worker);
            self.action = Some(action);
        }
    }

    fn conn(&self) -> &Connection {
        self.conn.as_ref().unwrap()
    }
}

fn temp_path(file: &NamedTempFile) -> String {
    file.path().to_str().unwrap().to_string()
}

fn start(db: &mut AsyncSqlite, mut readiness: Readiness) -> Runner {
    let seat = db.start(&mut readiness).unwrap();
    Runner::new(seat, readiness)
}

fn announced() -> Readiness {
    let mut readiness = Readiness::new();
    readiness.announce();
    readiness
}

fn setup_db(file: &NamedTempFile) -> (AsyncSqlite, Runner) {
    let mut db = AsyncSqlite::new(&temp_path(file));
    let mut runner = start(&mut db, Readiness::new());
    assert!(runner.run().is_none());
    assert!(db.wait_for_ready(runner.readiness, || true));
    (db, runner)
}

fn read_pool(db: &AsyncSqlite) -> Pool {
    let config = read_pool_config();
    r2d2::Pool::builder()
        .max_size(config.max_size)
        .min_idle(config.min_idle)
        .connection_timeout(Duration::from_secs(config.connection_timeout_secs))
        .build(SqliteConnectionManager::file(db.db_path()))
        .unwrap()
}

fn read_names(db: &AsyncSqlite, sql: &str) -> Result<Vec<String>, ReadError<Error>> {
    let pool = read_pool(db);
    db.query_read_all(
        announced(),
        || pool.get(),
        |conn: Conn| {
            let mut stmt = conn.prepare(sql)?;
            let mut rows = RowCollector::new();
            for row in stmt.query_map([], |row| row.get(0))? {
                if !rows.accept(row) {
                    break;
                }
            }
            Ok(rows)
        },
    )
}

fn read_count(db: &AsyncSqlite, sql: &str) -> i64 {
    let pool = read_pool(db);
    db.query_read_one(
        announced(),
        || pool.get(),
        |conn: Conn| conn.query_row(sql, [], |row| row.get(0)),
    )
    .unwrap()
}

fn synced(db: &AsyncSqlite, runner: &mut Runner) -> bool {
    let answer = db.request_sync().unwrap();
    runner.run();
    answer.recv_timeout(Duration::from_secs(5)).is_ok()
}

#[test]
fn test_lifecycle_start_wait_stop() {
    let file = NamedTempFile::new().unwrap();
    let mut db = AsyncSqlite::new(&temp_path(&file));
    assert!(!db.is_started());
    let mut runner = start(&mut db, Readiness::new());
    assert!(db.is_started());
    assert!(!db.wait_for_ready(runner.readiness, || true));
    runner.run();
    assert!(db.wait_for_ready(runner.readiness, || true));
    drop(runner);
    assert!(db.stop());
    assert!(!db.is_started());
}

#[test]
fn test_write_and_read() {
    let file = NamedTempFile::new().unwrap();
    let (db, mut runner) = setup_db(&file);
    db.execute_write(
        "CREATE TABLE users (id INTEGER PRIMARY KEY, name TEXT)",
        vec![],
    )
    .unwrap();
    db.execute_write(
        "INSERT INTO users (name) VALUES (?)",
        vec![Value::Text("Alice".to_string())],
    )
    .unwrap();
    db.execute_write(
        "INSERT INTO users (name) VALUES (?)",
        vec![Value::Text("Bob".to_string())],
    )
    .unwrap();
    assert!(synced(&db, &mut runner));
    assert_eq!(runner.begun, 1);
    let users = read_names(&db, "SELECT name FROM users ORDER BY name").unwrap();
    assert_eq!(users.len(), 2);
    assert_eq!(users[0], "Alice");
    assert_eq!(users[1], "Bob");
}

#[test]
fn test_execute_read_fetch_one() {
    let file = NamedTempFile::new().unwrap();
    let (db, mut runner) = setup_db(&file);
    db.execute_write("CREATE TABLE settings (key TEXT, value TEXT)", vec![])
        .unwrap();
    db.execute_write(
        "INSERT INTO settings VALUES (?, ?)",
        vec![
            Value::Text("theme".to_string()),
            Value::Text("dark".to_string()),
        ],
    )
    .unwrap();
    assert!(synced(&db, &mut runner));
    let pool = read_pool(&db);
    let result: Result<String, _> = db.query_read_one(
        runner.readiness,
        || pool.get(),
        |conn: Conn| {
            conn.query_row(
                "SELECT value FROM settings WHERE key=?",
                ["theme"],
                |row| row.get(0),
            )
        },
    );
    assert!(result.is_ok());
    assert_eq!(result.unwrap(), "dark");
}

#[test]
fn test_execute_script() {
    let file = NamedTempFile::new().unwrap();
    let (db, mut runner) = setup_db(&file);
    let script_content = "
        CREATE TABLE products (id INTEGER PRIMARY KEY, name TEXT);
        INSERT INTO products (name) VALUES ('Laptop');
        INSERT INTO products (name) VALUES ('Mouse');
        ";
    db.execute_script(script_content.to_string()).unwrap();
    assert!(synced(&db, &mut runner));
    assert_eq!(read_count(&db, "SELECT COUNT(*) FROM products"), 2);
}

#[test]
fn interleaved_writes_are_all_committed() {
    let file = NamedTempFile::new().unwrap();
    let (db, mut runner) = setup_db(&file);
    db.execute_write(
        "CREATE TABLE records (id INTEGER PRIMARY KEY, thread_id INTEGER, value INTEGER)",
        vec![],
    )
    .unwrap();
    assert!(synced(&db, &mut runner));
    for j in 0..50 {
        for i in 0..10 {
            db.execute_write(
                "INSERT INTO records (thread_id, value) VALUES (?, ?)",
                vec![Value::Integer(i), Value::Integer(j)],
            )
            .unwrap();
        }
    }
    assert!(synced(&db, &mut runner));
    assert_eq!(runner.begun, 2);
    assert_eq!(read_count(&db, "SELECT COUNT(*) FROM records"), 500);
}

#[test]
fn failed_batch_leaves_nothing_and_the_worker_goes_on() {
    let file = NamedTempFile::new().unwrap();
    let (db, mut runner) = setup_db(&file);
    db.execute_write("CREATE TABLE t (name TEXT)", vec![]).unwrap();
    assert!(synced(&db, &mut runner));

    db.execute_write("INSERT INTO t VALUES ('lost')", vec![]).unwrap();
    let answer = db.request_sync().unwrap();
    db.execute_write("INSERT INTO nowhere VALUES (1)", vec![]).unwrap();
    runner.run();
    assert_eq!(runner.failures, 1);
    assert!(answer.recv_timeout(Duration::from_secs(5)).is_err());
    assert_eq!(read_count(&db, "SELECT COUNT(*) FROM t"), 0);

    db.execute_write("INSERT INTO t VALUES ('kept')", vec![]).unwrap();
    assert!(synced(&db, &mut runner));
    assert_eq!(read_names(&db, "SELECT name FROM t").unwrap(), vec!["kept"]);
}

#[test]
fn stop_commits_what_was_queued_before_it() {
    let file = NamedTempFile::new().unwrap();
    let (mut db, mut runner) = setup_db(&file);
    db.execute_write("CREATE TABLE t (name TEXT)", vec![]).unwrap();
    db.execute_write("INSERT INTO t VALUES ('last')", vec![]).unwrap();
    assert!(db.stop());
    assert!(matches!(runner.run(), Some(Ok(()))));
    assert_eq!(read_names(&db, "SELECT name FROM t").unwrap(), vec!["last"]);
}

#[test]
fn closed_queue_ends_the_running_worker() {
    let file = NamedTempFile::new().unwrap();
    let (db, mut runner) = setup_db(&file);
    drop(db);
    assert!(matches!(runner.run(), Some(Ok(()))));
}

#[test]
fn file_database_is_in_wal_mode() {
    let file = NamedTempFile::new().unwrap();
    let (_db, runner) = setup_db(&file);
    let mode: String = runner
        .conn()
        .query_row("PRAGMA journal_mode", [], |row| row.get(0))
        .unwrap();
    assert_eq!(mode, "wal");
    let timeout: i64 = runner
        .conn()
        .query_row("PRAGMA busy_timeout", [], |row| row.get(0))
        .unwrap();
    assert_eq!(timeout, 30000);
}

#[test]
fn memory_database_is_shared_with_readers() {
    let mut db = AsyncSqlite::new(":memory:");
    let mut runner = start(&mut db, Readiness::new());
    assert!(runner.run().is_none());
    db.execute_write(
        "CREATE TABLE users (id INTEGER PRIMARY KEY, name TEXT NOT NULL)",
        vec![],
    )
    .unwrap();
    db.execute_write(
        "INSERT INTO users (name) VALUES (?)",
        vec![Value::Text("Alice".to_string())],
    )
    .unwrap();
    assert!(synced(&db, &mut runner));
    assert_eq!(
        read_names(&db, "SELECT name FROM users WHERE id = 1").unwrap(),
        vec!["Alice"]
    );
}

#[test]
fn database_that_cannot_be_opened_ends_the_worker() {
    let mut db = AsyncSqlite::new("/nonexistent/directory/data.db");
    let mut runner = start(&mut db, Readiness::new());
    assert!(matches!(runner.run(), Some(Err(_))));
    assert!(!runner.readiness.worker_is_ready());
    drop(runner);
    assert!(db.execute_write("SELECT 1", vec![]).is_err());
}

#[test]
fn unreadable_row_stops_the_read() {
    let file = NamedTempFile::new().unwrap();
    let (db, mut runner) = setup_db(&file);
    db.execute_script("CREATE TABLE t (name); INSERT INTO t VALUES ('a'), (1), ('b');".to_string())
        .unwrap();
    assert!(synced(&db, &mut runner));
    let result = read_names(&db, "SELECT name FROM t ORDER BY rowid");
    assert!(matches!(
        result,
        Err(ReadError::Database(Error::InvalidColumnType(..)))
    ));
    let missing = read_names(&db, "SELECT name FROM nowhere");
    assert!(matches!(missing, Err(ReadError::Database(_))));
}

#[test]
fn restarted_worker_builds_on_what_was_stored() {
    let file = NamedTempFile::new().unwrap();
    let mut db = AsyncSqlite::new(&temp_path(&file));
    let mut runner = start(&mut db, Readiness::new());
    db.execute_write("CREATE TABLE t (name TEXT)", vec![]).unwrap();
    db.execute_write("INSERT INTO t VALUES ('first')", vec![]).unwrap();
    assert!(db.stop());
    assert!(matches!(runner.run(), Some(Ok(()))));
    assert_eq!(runner.begun, 1);
    assert!(runner.readiness.worker_is_ready());
    assert!(db.execute_write("INSERT INTO t VALUES ('refused')", vec![]).is_err());

    let mut runner = start(&mut db, runner.readiness);
    assert!(!db.wait_for_ready(runner.readiness, || true));
    let pool = read_pool(&db);
    let count: i64 = db
        .query_read_one(
            runner.readiness,
            || pool.get(),
            |conn: Conn| conn.query_row("SELECT COUNT(*) FROM t", [], |row| row.get(0)),
        )
        .unwrap();
    assert_eq!(count, 1);
    db.execute_write("INSERT INTO t VALUES ('second')", vec![]).unwrap();
    assert!(synced(&db, &mut runner));
    assert!(db.wait_for_ready(runner.readiness, || true));
    assert_eq!(
        read_names(&db, "SELECT name FROM t ORDER BY rowid").unwrap(),
        vec!["first", "second"]
    );
}

#[test]
fn stop_lost_with_its_batch_still_ends_the_worker() {
    let file = NamedTempFile::new().unwrap();
    let (mut db, mut runner) = setup_db(&file);
    let blocker = Connection::open(file.path()).unwrap();
    blocker.execute_batch("BEGIN IMMEDIATE").unwrap();
    runner.conn().pragma_update(None, "busy_timeout", 1).unwrap();
    assert!(db.stop());
    assert!(matches!(runner.run(), Some(Ok(()))));
    assert!(runner.failures > 0);
}

#[test]
fn callers_keep_their_own_order() {
    let file = NamedTempFile::new().unwrap();
    let (db, mut runner) = setup_db(&file);
    db.execute_write("CREATE TABLE t (caller INTEGER, name TEXT)", vec![])
        .unwrap();
    for (caller, name) in [(1, "a"), (2, "x"), (2, "y"), (1, "b"), (2, "z"), (1, "c")] {
        db.execute_write(
            "INSERT INTO t VALUES (?, ?)",
            vec![Value::Integer(caller), Value::Text(name.to_string())],
        )
        .unwrap();
    }
    assert!(synced(&db, &mut runner));
    assert_eq!(
        read_names(&db, "SELECT name FROM t WHERE caller = 1 ORDER BY rowid").unwrap(),
        vec!["a", "b", "c"]
    );
    assert_eq!(
        read_names(&db, "SELECT name FROM t WHERE caller = 2 ORDER BY rowid").unwrap(),
        vec!["x", "y", "z"]
    );
}

#[test]
fn parameters_read_back_as_they_were_written() {
    let file = NamedTempFile::new().unwrap();
    let (db, mut runner) = setup_db(&file);
    db.execute_write("CREATE TABLE t (a, b)", vec![]).unwrap();
    let pairs = vec![
        (Value::Null, Value::Integer(-7)),
        (Value::Text("text".to_string()), Value::Blob(vec![0, 255])),
        (Value::Real(0.5), Value::Null),
    ];
    for (x, y) in pairs {
        db.execute_write("DELETE FROM t", vec![]).unwrap();
        db.execute_write("INSERT INTO t VALUES (?, ?)", vec![x.clone(), y.clone()])
            .unwrap();
        assert!(synced(&db, &mut runner));
        let pool = read_pool(&db);
        let back: Result<(Value, Value), ReadError<Error>> = db.query_read_one(
            runner.readiness,
            || pool.get(),
            |conn: Conn| {
                conn.query_row("SELECT a, b FROM t", [], |row| {
                    Ok((row.get(0)?, row.get(1)?))
                })
            },
        );
        assert_eq!(back.unwrap(), (x, y));
    }
}
