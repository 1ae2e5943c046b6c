use grorm::driver::{DatabaseType, Parameter};
use grorm::orm::model::default_table_name;
use grorm::orm::sqltype::{rust_to_sql_type, sql_type_checked};
use grorm::protocol::sqltext::{select_columns, split_sql_values};
use grorm::protocol::{SqliteConnection, SqliteResult};
use grorm::{DatabaseDriver, Error, FromSql, SqliteDriver, ToSql, Value};

fn engine() -> SqliteConnection {
    match SqliteConnection::connect("target/engine_test.db") {
        Ok(c) => c,
        Err(_) => panic!("connect failed"),
    }
}

fn run(c: &mut SqliteConnection, sql: &str) -> SqliteResult {
    match c.execute_query(sql) {
        Ok(r) => r,
        Err(e) => panic!("{} failed: {}", sql, e.to_display_string()),
    }
}

fn rows(c: &mut SqliteConnection, sql: &str) -> Vec<Vec<String>> {
    match run(c, sql) {
        SqliteResult::Rows(r, _) => r,
        SqliteResult::Done(_) => panic!("expected rows"),
    }
}

fn chars(s: &str) -> Vec<char> {
    s.chars().collect()
}

fn text(v: &[char]) -> String {
    v.iter().collect()
}

#[test]
fn engine_store_then_read() {
    let mut c = engine();
    run(&mut c, "CREATE TABLE items (id INTEGER PRIMARY KEY, name TEXT, qty INTEGER)");
    run(&mut c, "INSERT INTO items (id, name, qty) VALUES (1, 'bolt', 10)");
    run(&mut c, "INSERT INTO items (id, name, qty) VALUES (2, 'nut', 25)");
    assert_eq!(rows(&mut c, "SELECT * FROM items WHERE name = 'nut'"), vec![vec!["2", "nut", "25"]]);
    assert_eq!(c.count_rows("items").ok(), Some(2));
}

#[test]
fn engine_rollback_restores_and_commit_keeps() {
    let mut c = engine();
    run(&mut c, "CREATE TABLE ledger (id INTEGER PRIMARY KEY, amount INTEGER)");
    run(&mut c, "INSERT INTO ledger (id, amount) VALUES (1, 100)");
    let before = c.table_texts();

    run(&mut c, "BEGIN");
    run(&mut c, "INSERT INTO ledger (id, amount) VALUES (2, 200)");
    run(&mut c, "UPDATE ledger SET amount = 0 WHERE id = 1");
    run(&mut c, "ROLLBACK");
    assert_eq!(c.table_texts(), before);
    assert_eq!(rows(&mut c, "SELECT * FROM ledger"), vec![vec!["1", "100"]]);

    run(&mut c, "BEGIN");
    run(&mut c, "INSERT INTO ledger (id, amount) VALUES (3, 300)");
    run(&mut c, "COMMIT");
    assert_eq!(rows(&mut c, "SELECT * FROM ledger WHERE id = 3"), vec![vec!["3", "300"]]);
    run(&mut c, "ROLLBACK");
    assert_eq!(c.count_rows("ledger").ok(), Some(2));
}

#[test]
fn engine_update_and_delete_counts() {
    let mut c = engine();
    run(&mut c, "CREATE TABLE t (id INTEGER PRIMARY KEY, v INTEGER)");
    for i in 1..=4 {
        run(&mut c, &format!("INSERT INTO t (id, v) VALUES ({}, {})", i, i * 10));
    }
    match run(&mut c, "UPDATE t SET v = 0 WHERE v > 20") {
        SqliteResult::Done(n) => assert_eq!(n, 2),
        _ => panic!("expected a count"),
    }
    match run(&mut c, "DELETE FROM t WHERE v = 0") {
        SqliteResult::Done(n) => assert_eq!(n, 2),
        _ => panic!("expected a count"),
    }
    assert_eq!(c.count_rows("t").ok(), Some(2));
}

#[test]
fn engine_errors() {
    let mut c = engine();
    // A table that does not exist yet is created by its first row.
    assert!(c.execute_query("INSERT INTO fresh (a) VALUES (1)").is_ok());
    match c.execute_query("INSERT VALUES (1)") {
        Err(Error::Protocol(m)) => assert_eq!(m, "Cannot extract table name"),
        _ => panic!("expected a protocol error"),
    }
    // A statement of no known kind does nothing.
    match c.execute_query("VACUUM") {
        Ok(SqliteResult::Done(0)) => {}
        _ => panic!("expected nothing done"),
    }
    let mut d = SqliteDriver::new();
    match d.query("SELECT 1", &[]) {
        Err(Error::Connection(_)) | Err(Error::Query(_)) | Err(Error::Protocol(_)) => {}
        Err(e) => panic!("unexpected error {}", e.to_display_string()),
        Ok(_) => panic!("a driver that is not connected answered"),
    }
    let _ = Parameter::Null;
}

#[test]
fn value_round_trips() {
    for x in [i64::MIN, -1, 0, 7, i64::MAX] {
        assert_eq!(i64::from_sql(&x.to_sql()), Ok(x));
    }
    for x in [i32::MIN, 0, 42, i32::MAX] {
        assert_eq!(i32::from_sql(&x.to_sql()), Ok(x));
    }
    for x in [i16::MIN, 3, i16::MAX] {
        assert_eq!(i16::from_sql(&x.to_sql()), Ok(x));
    }
    for x in [i8::MIN, 0, i8::MAX] {
        assert_eq!(i8::from_sql(&x.to_sql()), Ok(x));
    }
    assert_eq!(bool::from_sql(&true.to_sql()), Ok(true));
    assert_eq!(String::from_sql(&"héllo".to_string().to_sql()), Ok("héllo".to_string()));
    assert_eq!(Vec::<u8>::from_sql(&vec![1u8, 2, 3].to_sql()), Ok(vec![1, 2, 3]));
    // Narrowing keeps the low bits, as `as` does.
    assert_eq!(i32::from_sql(&Value::I64((1 << 32) + 5)), Ok(5));
    assert_eq!(bool::from_sql(&Value::Null), Err("cannot convert Null to bool".to_string()));
    assert_eq!(i64::from_sql(&Value::Bool(true)), Err("cannot convert Bool(true) to i64".to_string()));
    assert_eq!(Option::<i32>::from_sql(&Value::Null), Ok(None));
    assert_eq!(Option::<i32>::from_sql(&Value::I32(4)), Ok(Some(4)));
    assert!(Option::<i32>::from_sql(&Value::Bool(true)).is_err());
    assert_eq!(Some(7i64).to_sql(), Value::I64(7));
    assert_eq!(None::<i64>.to_sql(), Value::Null);
}

#[test]
fn sql_types_by_database() {
    assert_eq!(rust_to_sql_type("i32", DatabaseType::Postgresql, true), "SERIAL");
    assert_eq!(rust_to_sql_type("i32", DatabaseType::Mysql, false), "INT");
    assert_eq!(rust_to_sql_type("i64", DatabaseType::Mysql, false), "BIGINT");
    assert_eq!(rust_to_sql_type("i8", DatabaseType::Mysql, false), "TINYINT");
    assert_eq!(rust_to_sql_type("i64", DatabaseType::Sqlite, true), "INTEGER");
    assert_eq!(rust_to_sql_type("bool", DatabaseType::Mysql, false), "BOOLEAN");
    assert_eq!(rust_to_sql_type("u64", DatabaseType::Postgresql, false), "NUMERIC(20,0)");
    assert_eq!(rust_to_sql_type("Option<i32>", DatabaseType::Sqlite, false), "INTEGER");
    assert_eq!(rust_to_sql_type("  Option<u8> ", DatabaseType::Mysql, false), "TINYINT UNSIGNED");
    // The name is cut at `<` before it is looked up, so `Vec<..>` never
    // reaches the array arm.
    assert_eq!(rust_to_sql_type("Vec<String>", DatabaseType::Postgresql, false), "TEXT");
    assert_eq!(rust_to_sql_type("HashMap<String, i32>", DatabaseType::Postgresql, false), "JSONB");
    assert_eq!(rust_to_sql_type("Id", DatabaseType::Mysql, true), "BIGINT AUTO_INCREMENT");
    assert_eq!(rust_to_sql_type("Decimal", DatabaseType::Postgresql, false), "DECIMAL(10,2)");
    // Type names are lower-cased before they are looked up, so a name in
    // capitals is not taken for an enum.
    assert_eq!(rust_to_sql_type("Status", DatabaseType::Postgresql, false), "TEXT");
    // An `Option` without its closing bracket has no inner type.
    assert_eq!(sql_type_checked("Option<i32", DatabaseType::Sqlite, false), None);
    assert_eq!(sql_type_checked("Option", DatabaseType::Sqlite, false), None);
    assert_eq!(sql_type_checked("Option<bool>", DatabaseType::Sqlite, false), Some("BOOLEAN"));
}

#[test]
fn table_names_from_struct_names() {
    assert_eq!(default_table_name("User"), "users");
    assert_eq!(default_table_name("OrderItem"), "orderitems");
    assert_eq!(default_table_name("ÉTÉ"), "étés");
}

#[test]
fn split_values_respects_quotes() {
    let parts = split_sql_values(&chars("1, 'a, b', 'it''s', NULL"));
    let parts: Vec<String> = parts.iter().map(|p| text(p)).collect();
    assert_eq!(parts.len(), 4);
    assert_eq!(parts[0], "1");
    assert_eq!(parts[1], "a, b");
    assert_eq!(parts[3], "NULL");
}

#[test]
fn error_variants_and_texts() {
    let all = vec![
        (Error::Connection("c".to_string()), "Connection", "connection error: c"),
        (Error::Query("q".to_string()), "Query", "query error: q"),
        (Error::Execute("e".to_string()), "Execute", "execute error: e"),
        (Error::Protocol("p".to_string()), "Protocol", "protocol error: p"),
        (Error::Model("m".to_string()), "Model", "model error: m"),
        (Error::Pool("o".to_string()), "Pool", "pool error: o"),
        (Error::Config("f".to_string()), "Config", "config error: f"),
        (Error::NotFound("n".to_string()), "NotFound", "not found: n"),
        (Error::Transaction("t".to_string()), "Transaction", "transaction error: t"),
    ];
    for (e, name, shown) in all {
        assert_eq!(e.variant_name(), name);
        assert_eq!(e.to_display_string(), shown);
        assert!(!e.has_source());
    }
    let io = Error::from(std::io::Error::new(std::io::ErrorKind::Other, "disk"));
    assert_eq!(io.variant_name(), "Io");
    assert!(io.has_source());
    assert!(io.to_display_string().starts_with("io error: "));
}

#[test]
fn pool_reuses_released_connections() {
    let config = grorm::ConnectionConfig::sqlite("target/pool_law.db");
    let mut pool = grorm::ConnectionPool::new(grorm::SqliteDriverFactory, config, 1);
    let first = pool.get().ok().expect("a first connection");
    assert!(first.driver().is_connected());
    // The pool is full while its one connection is out.
    match pool.get() {
        Err(Error::Pool(_)) => {}
        _ => panic!("expected the pool to be exhausted"),
    }
    pool.release(first);
    let again = pool.get().ok().expect("the released connection");
    assert!(again.driver().is_connected());
    pool.release(again);
    pool.close();
    // Closed connections are not handed out again, and the pool is full.
    assert!(pool.get().is_err());
}

#[test]
fn selected_column_names() {
    let cols = select_columns(&chars("SELECT u.name nm, a b-c, t.id, x AS total FROM t"));
    let cols: Vec<String> = cols.iter().map(|c| text(c)).collect();
    assert_eq!(cols, vec!["nm", "a b-c", "id", "total"]);
    let all = select_columns(&chars("select * from t"));
    assert_eq!(all.len(), 1);
    assert_eq!(text(&all[0]), "*");
}

#[test]
fn engine_keywords_in_lower_case() {
    let mut c = engine();
    run(&mut c, "create table lc (id integer primary key, v text)");
    run(&mut c, "insert into lc (id, v) values (1, 'x')");
    assert_eq!(rows(&mut c, "select * from lc where id = 1"), vec![vec!["1", "x"]]);
}
