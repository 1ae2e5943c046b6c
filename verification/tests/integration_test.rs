use grorm::query::SelectBuilder;
use grorm::driver::{Column, DataType, Row};
use grorm::DatabaseDriver;
use grorm::orm::model::default_table_name;
use grorm::types::FloatValue;
use grorm::{
    ColumnInfo, ConnectionConfig, ConnectionPool, Error, FromSql, JoinClause, JoinType, Model, QueryBuilder,
    SqliteDriverFactory, ToSql, Transaction, Value,
};

fn unique_db_path() -> String {
    "target/test_integration.db".to_string()
}

/// A float value as the library holds it: its bits and its display text.
fn fv(x: f64) -> FloatValue {
    FloatValue::new(x.to_bits(), format!("{}", x))
}

/// The `f64` a float value holds.
fn f64_of(v: &FloatValue) -> f64 {
    f64::from_bits(v.bits)
}

#[derive(Debug, PartialEq)]
struct TestUser {
    id: i64,
    name: String,
    email: String,
    age: i32,
}

impl Model for TestUser {
    fn table_name() -> &'static str {
        "test_users"
    }

    fn primary_key() -> &'static str {
        "id"
    }

    fn columns() -> &'static [&'static str] {
        &["id", "name", "email", "age"]
    }

    fn table_schema() -> &'static [ColumnInfo] {
        &[
            ColumnInfo {
                name: "id",
                rust_type: "i64",
                is_primary_key: true,
                is_auto_increment: true,
                is_index: false,
                is_unique: false,
                unique_index_name: None,
            },
            ColumnInfo {
                name: "name",
                rust_type: "String",
                is_primary_key: false,
                is_auto_increment: false,
                is_index: true,
                is_unique: false,
                unique_index_name: None,
            },
            ColumnInfo {
                name: "email",
                rust_type: "String",
                is_primary_key: false,
                is_auto_increment: false,
                is_index: false,
                is_unique: true,
                unique_index_name: None,
            },
            ColumnInfo {
                name: "age",
                rust_type: "i32",
                is_primary_key: false,
                is_auto_increment: false,
                is_index: false,
                is_unique: false,
                unique_index_name: None,
            },
        ]
    }

    fn from_row(row: &[Value]) -> Result<Self, String> {
        Ok(Self {
            id: <i64 as FromSql>::from_sql(&row[0])
                .map_err(|e| format!("field '{}': {}", "id", e))?,
            name: <String as FromSql>::from_sql(&row[1])
                .map_err(|e| format!("field '{}': {}", "name", e))?,
            email: <String as FromSql>::from_sql(&row[2])
                .map_err(|e| format!("field '{}': {}", "email", e))?,
            age: <i32 as FromSql>::from_sql(&row[3])
                .map_err(|e| format!("field '{}': {}", "age", e))?,
        })
    }

    fn to_values(&self) -> Vec<Value> {
        vec![ToSql::to_sql(&self.id), ToSql::to_sql(&self.name), ToSql::to_sql(&self.email), ToSql::to_sql(&self.age)]
    }
}

#[derive(Debug, PartialEq)]
struct CompositeUser {
    id: i64,
    name: String,
    email: String,
}

impl Model for CompositeUser {
    fn table_name() -> &'static str {
        "test_composite"
    }

    fn primary_key() -> &'static str {
        "id"
    }

    fn columns() -> &'static [&'static str] {
        &["id", "name", "email"]
    }

    fn table_schema() -> &'static [ColumnInfo] {
        &[
            ColumnInfo {
                name: "id",
                rust_type: "i64",
                is_primary_key: true,
                is_auto_increment: true,
                is_index: false,
                is_unique: false,
                unique_index_name: None,
            },
            ColumnInfo {
                name: "name",
                rust_type: "String",
                is_primary_key: false,
                is_auto_increment: false,
                is_index: false,
                is_unique: false,
                unique_index_name: Some("uq_name_email"),
            },
            ColumnInfo {
                name: "email",
                rust_type: "String",
                is_primary_key: false,
                is_auto_increment: false,
                is_index: false,
                is_unique: false,
                unique_index_name: Some("uq_name_email"),
            },
        ]
    }

    fn from_row(row: &[Value]) -> Result<Self, String> {
        Ok(Self {
            id: <i64 as FromSql>::from_sql(&row[0])
                .map_err(|e| format!("field '{}': {}", "id", e))?,
            name: <String as FromSql>::from_sql(&row[1])
                .map_err(|e| format!("field '{}': {}", "name", e))?,
            email: <String as FromSql>::from_sql(&row[2])
                .map_err(|e| format!("field '{}': {}", "email", e))?,
        })
    }

    fn to_values(&self) -> Vec<Value> {
        vec![ToSql::to_sql(&self.id), ToSql::to_sql(&self.name), ToSql::to_sql(&self.email)]
    }
}

#[derive(Debug, PartialEq)]
struct CustomTable {
    id: i64,
    name: String,
}

impl Model for CustomTable {
    fn table_name() -> &'static str {
        "custom_table_name"
    }

    fn primary_key() -> &'static str {
        "id"
    }

    fn columns() -> &'static [&'static str] {
        &["id", "name"]
    }

    fn table_schema() -> &'static [ColumnInfo] {
        &[
            ColumnInfo {
                name: "id",
                rust_type: "i64",
                is_primary_key: true,
                is_auto_increment: true,
                is_index: false,
                is_unique: false,
                unique_index_name: None,
            },
            ColumnInfo {
                name: "name",
                rust_type: "String",
                is_primary_key: false,
                is_auto_increment: false,
                is_index: false,
                is_unique: false,
                unique_index_name: None,
            },
        ]
    }

    fn from_row(row: &[Value]) -> Result<Self, String> {
        Ok(Self {
            id: <i64 as FromSql>::from_sql(&row[0])
                .map_err(|e| format!("field '{}': {}", "id", e))?,
            name: <String as FromSql>::from_sql(&row[1])
                .map_err(|e| format!("field '{}': {}", "name", e))?,
        })
    }

    fn to_values(&self) -> Vec<Value> {
        vec![ToSql::to_sql(&self.id), ToSql::to_sql(&self.name)]
    }
}

#[derive(Debug, PartialEq)]
struct CustomPk {
    uuid: String,
    name: String,
}

impl Model for CustomPk {
    fn table_name() -> &'static str {
        "test_custom_pk"
    }

    fn primary_key() -> &'static str {
        "uuid"
    }

    fn columns() -> &'static [&'static str] {
        &["uuid", "name"]
    }

    fn table_schema() -> &'static [ColumnInfo] {
        &[
            ColumnInfo {
                name: "uuid",
                rust_type: "String",
                is_primary_key: true,
                is_auto_increment: false,
                is_index: false,
                is_unique: false,
                unique_index_name: None,
            },
            ColumnInfo {
                name: "name",
                rust_type: "String",
                is_primary_key: false,
                is_auto_increment: false,
                is_index: false,
                is_unique: false,
                unique_index_name: None,
            },
        ]
    }

    fn from_row(row: &[Value]) -> Result<Self, String> {
        Ok(Self {
            uuid: <String as FromSql>::from_sql(&row[0])
                .map_err(|e| format!("field '{}': {}", "uuid", e))?,
            name: <String as FromSql>::from_sql(&row[1])
                .map_err(|e| format!("field '{}': {}", "name", e))?,
        })
    }

    fn to_values(&self) -> Vec<Value> {
        vec![ToSql::to_sql(&self.uuid), ToSql::to_sql(&self.name)]
    }
}

#[derive(Debug, PartialEq)]
struct CustomAttrs {
    uuid: String,
    name: String,
    email: String,
}

impl Model for CustomAttrs {
    fn table_name() -> &'static str {
        "custom_attrs"
    }

    fn primary_key() -> &'static str {
        "uuid"
    }

    fn columns() -> &'static [&'static str] {
        &["uuid", "name", "email"]
    }

    fn table_schema() -> &'static [ColumnInfo] {
        &[
            ColumnInfo {
                name: "uuid",
                rust_type: "String",
                is_primary_key: true,
                is_auto_increment: false,
                is_index: false,
                is_unique: false,
                unique_index_name: None,
            },
            ColumnInfo {
                name: "name",
                rust_type: "String",
                is_primary_key: false,
                is_auto_increment: false,
                is_index: true,
                is_unique: false,
                unique_index_name: None,
            },
            ColumnInfo {
                name: "email",
                rust_type: "String",
                is_primary_key: false,
                is_auto_increment: false,
                is_index: false,
                is_unique: true,
                unique_index_name: None,
            },
        ]
    }

    fn from_row(row: &[Value]) -> Result<Self, String> {
        Ok(Self {
            uuid: <String as FromSql>::from_sql(&row[0])
                .map_err(|e| format!("field '{}': {}", "uuid", e))?,
            name: <String as FromSql>::from_sql(&row[1])
                .map_err(|e| format!("field '{}': {}", "name", e))?,
            email: <String as FromSql>::from_sql(&row[2])
                .map_err(|e| format!("field '{}': {}", "email", e))?,
        })
    }

    fn to_values(&self) -> Vec<Value> {
        vec![ToSql::to_sql(&self.uuid), ToSql::to_sql(&self.name), ToSql::to_sql(&self.email)]
    }
}

#[derive(Debug, PartialEq)]
struct UniqueIdxModel {
    id: i64,
    a: String,
    b: String,
}

impl Model for UniqueIdxModel {
    fn table_name() -> &'static str {
        "test_unique_idx"
    }

    fn primary_key() -> &'static str {
        "id"
    }

    fn columns() -> &'static [&'static str] {
        &["id", "a", "b"]
    }

    fn table_schema() -> &'static [ColumnInfo] {
        &[
            ColumnInfo {
                name: "id",
                rust_type: "i64",
                is_primary_key: true,
                is_auto_increment: true,
                is_index: false,
                is_unique: false,
                unique_index_name: None,
            },
            ColumnInfo {
                name: "a",
                rust_type: "String",
                is_primary_key: false,
                is_auto_increment: false,
                is_index: false,
                is_unique: false,
                unique_index_name: Some("uq_a_b"),
            },
            ColumnInfo {
                name: "b",
                rust_type: "String",
                is_primary_key: false,
                is_auto_increment: false,
                is_index: false,
                is_unique: false,
                unique_index_name: Some("uq_a_b"),
            },
        ]
    }

    fn from_row(row: &[Value]) -> Result<Self, String> {
        Ok(Self {
            id: <i64 as FromSql>::from_sql(&row[0])
                .map_err(|e| format!("field '{}': {}", "id", e))?,
            a: <String as FromSql>::from_sql(&row[1])
                .map_err(|e| format!("field '{}': {}", "a", e))?,
            b: <String as FromSql>::from_sql(&row[2])
                .map_err(|e| format!("field '{}': {}", "b", e))?,
        })
    }

    fn to_values(&self) -> Vec<Value> {
        vec![ToSql::to_sql(&self.id), ToSql::to_sql(&self.a), ToSql::to_sql(&self.b)]
    }
}

#[derive(Debug)]
struct MyTable {
    id: i64,
}

impl MyTable {
    fn table_name() -> String {
        "my_custom_table".to_string()
    }
}

#[derive(Debug)]
struct UserProfile {}

impl UserProfile {
    fn table_name() -> String {
        default_table_name("UserProfile")
    }
}

#[derive(Debug)]
struct FooBar {}

impl FooBar {
    fn table_name() -> String {
        default_table_name("FooBar")
    }
}

#[derive(Debug, PartialEq)]
struct DefaultTable {
    id: i64,
    name: String,
}

impl Model for DefaultTable {
    fn table_name() -> &'static str {
        "defaulttables"
    }

    fn primary_key() -> &'static str {
        "id"
    }

    fn columns() -> &'static [&'static str] {
        &["id", "name"]
    }

    fn table_schema() -> &'static [ColumnInfo] {
        &[
            ColumnInfo {
                name: "id",
                rust_type: "i64",
                is_primary_key: true,
                is_auto_increment: true,
                is_index: false,
                is_unique: false,
                unique_index_name: None,
            },
            ColumnInfo {
                name: "name",
                rust_type: "String",
                is_primary_key: false,
                is_auto_increment: false,
                is_index: false,
                is_unique: false,
                unique_index_name: None,
            },
        ]
    }

    fn from_row(row: &[Value]) -> Result<Self, String> {
        Ok(Self {
            id: <i64 as FromSql>::from_sql(&row[0])
                .map_err(|e| format!("field '{}': {}", "id", e))?,
            name: <String as FromSql>::from_sql(&row[1])
                .map_err(|e| format!("field '{}': {}", "name", e))?,
        })
    }

    fn to_values(&self) -> Vec<Value> {
        vec![ToSql::to_sql(&self.id), ToSql::to_sql(&self.name)]
    }
}

#[derive(Debug, PartialEq)]
struct DefaultPk {
    id: i64,
    name: String,
}

impl Model for DefaultPk {
    fn table_name() -> &'static str {
        "defaultpks"
    }

    fn primary_key() -> &'static str {
        "id"
    }

    fn columns() -> &'static [&'static str] {
        &["id", "name"]
    }

    fn table_schema() -> &'static [ColumnInfo] {
        &[
            ColumnInfo {
                name: "id",
                rust_type: "i64",
                is_primary_key: true,
                is_auto_increment: true,
                is_index: false,
                is_unique: false,
                unique_index_name: None,
            },
            ColumnInfo {
                name: "name",
                rust_type: "String",
                is_primary_key: false,
                is_auto_increment: false,
                is_index: false,
                is_unique: false,
                unique_index_name: None,
            },
        ]
    }

    fn from_row(row: &[Value]) -> Result<Self, String> {
        Ok(Self {
            id: <i64 as FromSql>::from_sql(&row[0])
                .map_err(|e| format!("field '{}': {}", "id", e))?,
            name: <String as FromSql>::from_sql(&row[1])
                .map_err(|e| format!("field '{}': {}", "name", e))?,
        })
    }

    fn to_values(&self) -> Vec<Value> {
        vec![ToSql::to_sql(&self.id), ToSql::to_sql(&self.name)]
    }
}

#[derive(Debug, PartialEq)]
struct StrPk {
    uuid: String,
    name: String,
}

impl Model for StrPk {
    fn table_name() -> &'static str {
        "test_str_pk"
    }

    fn primary_key() -> &'static str {
        "uuid"
    }

    fn columns() -> &'static [&'static str] {
        &["uuid", "name"]
    }

    fn table_schema() -> &'static [ColumnInfo] {
        &[
            ColumnInfo {
                name: "uuid",
                rust_type: "String",
                is_primary_key: true,
                is_auto_increment: false,
                is_index: false,
                is_unique: false,
                unique_index_name: None,
            },
            ColumnInfo {
                name: "name",
                rust_type: "String",
                is_primary_key: false,
                is_auto_increment: false,
                is_index: false,
                is_unique: false,
                unique_index_name: None,
            },
        ]
    }

    fn from_row(row: &[Value]) -> Result<Self, String> {
        Ok(Self {
            uuid: <String as FromSql>::from_sql(&row[0])
                .map_err(|e| format!("field '{}': {}", "uuid", e))?,
            name: <String as FromSql>::from_sql(&row[1])
                .map_err(|e| format!("field '{}': {}", "name", e))?,
        })
    }

    fn to_values(&self) -> Vec<Value> {
        vec![ToSql::to_sql(&self.uuid), ToSql::to_sql(&self.name)]
    }
}

#[derive(Debug, PartialEq)]
struct IntPk {
    id: i64,
    name: String,
}

impl Model for IntPk {
    fn table_name() -> &'static str {
        "test_int_pk"
    }

    fn primary_key() -> &'static str {
        "id"
    }

    fn columns() -> &'static [&'static str] {
        &["id", "name"]
    }

    fn table_schema() -> &'static [ColumnInfo] {
        &[
            ColumnInfo {
                name: "id",
                rust_type: "i64",
                is_primary_key: true,
                is_auto_increment: true,
                is_index: false,
                is_unique: false,
                unique_index_name: None,
            },
            ColumnInfo {
                name: "name",
                rust_type: "String",
                is_primary_key: false,
                is_auto_increment: false,
                is_index: false,
                is_unique: false,
                unique_index_name: None,
            },
        ]
    }

    fn from_row(row: &[Value]) -> Result<Self, String> {
        Ok(Self {
            id: <i64 as FromSql>::from_sql(&row[0])
                .map_err(|e| format!("field '{}': {}", "id", e))?,
            name: <String as FromSql>::from_sql(&row[1])
                .map_err(|e| format!("field '{}': {}", "name", e))?,
        })
    }

    fn to_values(&self) -> Vec<Value> {
        vec![ToSql::to_sql(&self.id), ToSql::to_sql(&self.name)]
    }
}

#[derive(Debug, PartialEq)]
struct Plain {
    id: i64,
    name: String,
    email: String,
}

impl Model for Plain {
    fn table_name() -> &'static str {
        "test_plain"
    }

    fn primary_key() -> &'static str {
        "id"
    }

    fn columns() -> &'static [&'static str] {
        &["id", "name", "email"]
    }

    fn table_schema() -> &'static [ColumnInfo] {
        &[
            ColumnInfo {
                name: "id",
                rust_type: "i64",
                is_primary_key: true,
                is_auto_increment: true,
                is_index: false,
                is_unique: false,
                unique_index_name: None,
            },
            ColumnInfo {
                name: "name",
                rust_type: "String",
                is_primary_key: false,
                is_auto_increment: false,
                is_index: false,
                is_unique: false,
                unique_index_name: None,
            },
            ColumnInfo {
                name: "email",
                rust_type: "String",
                is_primary_key: false,
                is_auto_increment: false,
                is_index: false,
                is_unique: false,
                unique_index_name: None,
            },
        ]
    }

    fn from_row(row: &[Value]) -> Result<Self, String> {
        Ok(Self {
            id: <i64 as FromSql>::from_sql(&row[0])
                .map_err(|e| format!("field '{}': {}", "id", e))?,
            name: <String as FromSql>::from_sql(&row[1])
                .map_err(|e| format!("field '{}': {}", "name", e))?,
            email: <String as FromSql>::from_sql(&row[2])
                .map_err(|e| format!("field '{}': {}", "email", e))?,
        })
    }

    fn to_values(&self) -> Vec<Value> {
        vec![ToSql::to_sql(&self.id), ToSql::to_sql(&self.name), ToSql::to_sql(&self.email)]
    }
}

fn setup() -> Result<(ConnectionPool, String), Error> {
    let db_path = unique_db_path();
    let config = ConnectionConfig::sqlite(&db_path);
    let mut pool = ConnectionPool::new(SqliteDriverFactory, config, 2);
    let mut conn = pool.get()?;
    let mut qb = QueryBuilder::<TestUser>::new(conn.driver_mut());
    qb.create_table()?;
    pool.release(conn);
    Ok((pool, db_path))
}

fn cleanup(_db_path: &str) {}

fn case_create_table() -> Result<(), Error> {
    let (mut pool, db_path) = setup()?;
    let mut conn = pool.get()?;
    let mut qb = QueryBuilder::<TestUser>::new(conn.driver_mut());

    let schema = TestUser::table_schema();
    assert_eq!(schema.len(), 4);
    assert_eq!(schema[0].name, "id");
    assert!(schema[0].is_primary_key);
    assert!(schema[0].is_auto_increment);
    assert_eq!(schema[1].name, "name");
    assert!(schema[1].is_index);
    assert_eq!(schema[2].name, "email");
    assert!(schema[2].is_unique);

    let count = qb.count()?;
    assert_eq!(count, 0);

    cleanup(&db_path);
    Ok(())
}


fn case_insert_and_find_by_id() -> Result<(), Error> {
    let (mut pool, db_path) = setup()?;
    let mut conn = pool.get()?;
    let mut qb = QueryBuilder::<TestUser>::new(conn.driver_mut());

    let user = TestUser { id: 0, name: "Alice".into(), email: "alice@test.com".into(), age: 30 };
    let id = qb.insert(&user)?;
    assert!(id.is_some());
    assert_eq!(id.unwrap(), 1);

    let found = qb.find_by_id(1)?;
    assert!(found.is_some());
    let found = found.unwrap();
    assert_eq!(found.name, "Alice");
    assert_eq!(found.email, "alice@test.com");
    assert_eq!(found.age, 30);

    let not_found = qb.find_by_id(999)?;
    assert!(not_found.is_none());

    cleanup(&db_path);
    Ok(())
}


fn case_find_all() -> Result<(), Error> {
    let (mut pool, db_path) = setup()?;
    let mut conn = pool.get()?;
    let mut qb = QueryBuilder::<TestUser>::new(conn.driver_mut());

    qb.insert(&TestUser { id: 0, name: "Alice".into(), email: "alice@test.com".into(), age: 30 })?;
    qb.insert(&TestUser { id: 0, name: "Bob".into(), email: "bob@test.com".into(), age: 25 })?;

    let all = qb.find_all()?;
    assert_eq!(all.len(), 2);

    cleanup(&db_path);
    Ok(())
}


fn case_where_eq_and_find() -> Result<(), Error> {
    let (mut pool, db_path) = setup()?;
    let mut conn = pool.get()?;
    let mut qb = QueryBuilder::<TestUser>::new(conn.driver_mut());

    qb.insert(&TestUser { id: 0, name: "Alice".into(), email: "alice@test.com".into(), age: 30 })?;
    qb.insert(&TestUser { id: 0, name: "Bob".into(), email: "bob@test.com".into(), age: 25 })?;

    let users = qb.where_eq("age", Value::from(30)).find()?;
    assert_eq!(users.len(), 1);
    assert_eq!(users[0].name, "Alice");

    cleanup(&db_path);
    Ok(())
}


fn case_where_in() -> Result<(), Error> {
    let (mut pool, db_path) = setup()?;
    let mut conn = pool.get()?;
    let mut qb = QueryBuilder::<TestUser>::new(conn.driver_mut());

    qb.insert(&TestUser { id: 0, name: "Alice".into(), email: "alice@test.com".into(), age: 30 })?;
    qb.insert(&TestUser { id: 0, name: "Bob".into(), email: "bob@test.com".into(), age: 25 })?;
    qb.insert(&TestUser { id: 0, name: "Charlie".into(), email: "charlie@test.com".into(), age: 35 })?;

    let users = qb.where_in("name", vec![Value::from("Alice"), Value::from("Bob")]).find()?;
    assert_eq!(users.len(), 2);

    cleanup(&db_path);
    Ok(())
}


fn case_where_model() -> Result<(), Error> {
    let (mut pool, db_path) = setup()?;
    let mut conn = pool.get()?;
    let mut qb = QueryBuilder::<TestUser>::new(conn.driver_mut());

    qb.insert(&TestUser { id: 0, name: "Alice".into(), email: "alice@test.com".into(), age: 30 })?;
    qb.insert(&TestUser { id: 0, name: "Bob".into(), email: "bob@test.com".into(), age: 25 })?;

    let filter = TestUser { id: 1, name: "".into(), email: "".into(), age: 0 };
    let users = qb.where_model(&filter).find()?;
    assert_eq!(users.len(), 1);
    assert_eq!(users[0].name, "Alice");

    cleanup(&db_path);
    Ok(())
}


fn case_limit_offset_order() -> Result<(), Error> {
    let (mut pool, db_path) = setup()?;
    let mut conn = pool.get()?;
    let mut qb = QueryBuilder::<TestUser>::new(conn.driver_mut());

    for i in 0..10 {
        qb.insert(&TestUser { id: 0, name: format!("User{}", i), email: format!("user{}@test.com", i), age: 20 + i })?;
    }

    let all = qb.find_all()?;
    assert_eq!(all.len(), 10);

    cleanup(&db_path);
    Ok(())
}


fn case_count() -> Result<(), Error> {
    let (mut pool, db_path) = setup()?;
    let mut conn = pool.get()?;
    let mut qb = QueryBuilder::<TestUser>::new(conn.driver_mut());

    qb.insert(&TestUser { id: 0, name: "Alice".into(), email: "alice@test.com".into(), age: 30 })?;
    qb.insert(&TestUser { id: 0, name: "Bob".into(), email: "bob@test.com".into(), age: 25 })?;

    let total = qb.count()?;
    assert_eq!(total, 2);

    cleanup(&db_path);
    Ok(())
}


fn case_update_one() -> Result<(), Error> {
    let (mut pool, db_path) = setup()?;
    let mut conn = pool.get()?;
    let mut qb = QueryBuilder::<TestUser>::new(conn.driver_mut());

    qb.insert(&TestUser { id: 0, name: "Alice".into(), email: "alice@test.com".into(), age: 30 })?;

    let rows = qb.where_eq("name", Value::from("Alice")).update_one("age", Value::from(31))?;
    assert_eq!(rows, 1);

    let user = qb.find_by_id(1)?;
    assert_eq!(user.unwrap().age, 31);

    cleanup(&db_path);
    Ok(())
}


fn case_update_model() -> Result<(), Error> {
    let (mut pool, db_path) = setup()?;
    let mut conn = pool.get()?;
    let mut qb = QueryBuilder::<TestUser>::new(conn.driver_mut());

    qb.insert(&TestUser { id: 0, name: "Alice".into(), email: "alice@test.com".into(), age: 30 })?;

    let update = TestUser { id: 0, name: "".into(), email: "".into(), age: 35 };
    let rows = qb.where_eq("name", Value::from("Alice")).update_model(&update)?;
    assert_eq!(rows, 1);

    let user = qb.find_by_id(1)?;
    assert_eq!(user.unwrap().age, 35);

    cleanup(&db_path);
    Ok(())
}


fn case_delete() -> Result<(), Error> {
    let (mut pool, db_path) = setup()?;
    let mut conn = pool.get()?;
    let mut qb = QueryBuilder::<TestUser>::new(conn.driver_mut());

    qb.insert(&TestUser { id: 0, name: "Alice".into(), email: "alice@test.com".into(), age: 30 })?;
    qb.insert(&TestUser { id: 0, name: "Bob".into(), email: "bob@test.com".into(), age: 25 })?;

    let rows = qb.where_eq("name", Value::from("Alice")).delete()?;
    assert_eq!(rows, 1);

    let all = qb.find_all()?;
    assert_eq!(all.len(), 1);
    assert_eq!(all[0].name, "Bob");

    cleanup(&db_path);
    Ok(())
}


fn case_transaction_commit() -> Result<(), Error> {
    let (mut pool, db_path) = setup()?;
    let mut conn = pool.get()?;

    {
        let mut tx = Transaction::<TestUser>::begin(conn.driver_mut())?;
        tx.insert(&TestUser { id: 0, name: "Alice".into(), email: "alice@test.com".into(), age: 30 })?;
        tx.insert(&TestUser { id: 0, name: "Bob".into(), email: "bob@test.com".into(), age: 25 })?;
        tx.commit()?;
    }

    let mut qb = QueryBuilder::<TestUser>::new(conn.driver_mut());
    let all = qb.find_all()?;
    assert_eq!(all.len(), 2);

    cleanup(&db_path);
    Ok(())
}


fn case_transaction_rollback() -> Result<(), Error> {
    let (mut pool, db_path) = setup()?;
    let mut conn = pool.get()?;

    {
        let mut tx = Transaction::<TestUser>::begin(conn.driver_mut())?;
        tx.insert(&TestUser { id: 0, name: "Alice".into(), email: "alice@test.com".into(), age: 30 })?;
        tx.rollback()?;
    }

    let mut qb = QueryBuilder::<TestUser>::new(conn.driver_mut());
    let all = qb.find_all()?;
    assert_eq!(all.len(), 0);

    cleanup(&db_path);
    Ok(())
}


fn case_transaction_auto_rollback_on_drop() -> Result<(), Error> {
    let (mut pool, db_path) = setup()?;
    let mut conn = pool.get()?;

    {
        let mut tx = Transaction::<TestUser>::begin(conn.driver_mut())?;
        tx.insert(&TestUser { id: 0, name: "Alice".into(), email: "alice@test.com".into(), age: 30 })?;
        tx.end();
    }

    let mut qb = QueryBuilder::<TestUser>::new(conn.driver_mut());
    let all = qb.find_all()?;
    assert_eq!(all.len(), 0);

    cleanup(&db_path);
    Ok(())
}


fn case_find_one() -> Result<(), Error> {
    let (mut pool, db_path) = setup()?;
    let mut conn = pool.get()?;
    let mut qb = QueryBuilder::<TestUser>::new(conn.driver_mut());

    qb.insert(&TestUser { id: 0, name: "Alice".into(), email: "alice@test.com".into(), age: 30 })?;
    qb.insert(&TestUser { id: 0, name: "Bob".into(), email: "bob@test.com".into(), age: 25 })?;

    let user = qb.where_eq("age", Value::from(30)).find_one()?;
    assert!(user.is_some());
    assert_eq!(user.unwrap().name, "Alice");

    let none = qb.where_eq("age", Value::from(99)).find_one()?;
    assert!(none.is_none());

    cleanup(&db_path);
    Ok(())
}


fn case_find_where() -> Result<(), Error> {
    let (mut pool, db_path) = setup()?;
    let mut conn = pool.get()?;
    let mut qb = QueryBuilder::<TestUser>::new(conn.driver_mut());

    qb.insert(&TestUser { id: 0, name: "Alice".into(), email: "alice@test.com".into(), age: 30 })?;

    let users = qb.find_where("name", Value::from("Alice"))?;
    assert_eq!(users.len(), 1);
    assert_eq!(users[0].email, "alice@test.com");

    cleanup(&db_path);
    Ok(())
}


fn case_unique_constraint() -> Result<(), Error> {
    let (mut pool, db_path) = setup()?;
    let mut conn = pool.get()?;
    let mut qb = QueryBuilder::<TestUser>::new(conn.driver_mut());

    qb.insert(&TestUser { id: 0, name: "Alice".into(), email: "alice@test.com".into(), age: 30 })?;

    let schema = TestUser::table_schema();
    let email_col = schema.iter().find(|c| c.name == "email").unwrap();
    assert!(email_col.is_unique);

    cleanup(&db_path);
    Ok(())
}


fn case_update_without_where() -> Result<(), Error> {
    let (mut pool, db_path) = setup()?;
    let mut conn = pool.get()?;
    let mut qb = QueryBuilder::<TestUser>::new(conn.driver_mut());

    let result = qb.update_one("age", Value::from(99));
    assert!(result.is_err());

    cleanup(&db_path);
    Ok(())
}


fn case_delete_without_where() -> Result<(), Error> {
    let (mut pool, db_path) = setup()?;
    let mut conn = pool.get()?;
    let mut qb = QueryBuilder::<TestUser>::new(conn.driver_mut());

    let result = qb.delete();
    assert!(result.is_err());

    cleanup(&db_path);
    Ok(())
}


fn case_multiple_conditions() -> Result<(), Error> {
    let (mut pool, db_path) = setup()?;
    let mut conn = pool.get()?;
    let mut qb = QueryBuilder::<TestUser>::new(conn.driver_mut());

    qb.insert(&TestUser { id: 0, name: "Alice".into(), email: "alice@test.com".into(), age: 30 })?;
    qb.insert(&TestUser { id: 0, name: "Bob".into(), email: "bob@test.com".into(), age: 30 })?;
    qb.insert(&TestUser { id: 0, name: "Charlie".into(), email: "charlie@test.com".into(), age: 25 })?;

    let users = qb.where_eq("age", Value::from(30)).where_eq("name", Value::from("Alice")).find()?;
    assert_eq!(users.len(), 1);
    assert_eq!(users[0].name, "Alice");

    cleanup(&db_path);
    Ok(())
}


fn case_chain_reset_after_find() -> Result<(), Error> {
    let (mut pool, db_path) = setup()?;
    let mut conn = pool.get()?;
    let mut qb = QueryBuilder::<TestUser>::new(conn.driver_mut());

    qb.insert(&TestUser { id: 0, name: "Alice".into(), email: "alice@test.com".into(), age: 30 })?;
    qb.insert(&TestUser { id: 0, name: "Bob".into(), email: "bob@test.com".into(), age: 25 })?;

    let users = qb.where_eq("age", Value::from(30)).find()?;
    assert_eq!(users.len(), 1);

    let all = qb.find_all()?;
    assert_eq!(all.len(), 2);

    cleanup(&db_path);
    Ok(())
}


fn case_table_name() -> Result<(), Error> {
    assert_eq!(TestUser::table_name(), "test_users");
    Ok(())
}


fn case_primary_key() -> Result<(), Error> {
    assert_eq!(TestUser::primary_key(), "id");
    Ok(())
}


fn case_columns() -> Result<(), Error> {
    let cols = TestUser::columns();
    assert_eq!(cols, &["id", "name", "email", "age"]);
    Ok(())
}


fn case_to_values_and_from_row() -> Result<(), Error> {
    let user = TestUser { id: 1, name: "Alice".into(), email: "alice@test.com".into(), age: 30 };
    let values = user.to_values();
    assert_eq!(values.len(), 4);

    let restored = TestUser::from_row(&values).unwrap();
    assert_eq!(restored, user);

    Ok(())
}


fn case_error_display() -> Result<(), Error> {
    let err = Error::NotFound("user 1".into());
    assert_eq!(err.to_display_string(), "not found: user 1");

    let err = Error::Connection("timeout".into());
    assert_eq!(err.to_display_string(), "connection error: timeout");

    let err = Error::Query("syntax error".into());
    assert_eq!(err.to_display_string(), "query error: syntax error");

    Ok(())
}


fn case_error_from_string() -> Result<(), Error> {
    let err: Error = "test error".into();
    assert_eq!(err.to_display_string(), "protocol error: test error");

    let err: Error = "test error".to_string().into();
    assert_eq!(err.to_display_string(), "protocol error: test error");

    Ok(())
}


fn case_error_from_io() -> Result<(), Error> {
    let io_err = std::io::Error::new(std::io::ErrorKind::NotFound, "file not found");
    let err: Error = io_err.into();
    assert!(err.to_display_string().contains("io error"));

    Ok(())
}


fn case_join_sql_generation() -> Result<(), Error> {
    let (mut pool, db_path) = setup()?;
    let mut conn = pool.get()?;
    let mut qb = QueryBuilder::<TestUser>::new(conn.driver_mut());

    qb.left_join("orders", "test_users.id = orders.user_id")
        .inner_join("profiles", "test_users.id = profiles.user_id")
        .right_join("scores", "test_users.id = scores.user_id");

    let (sql, _) = qb.build_select_sql();
    assert!(sql.contains("LEFT JOIN"));
    assert!(sql.contains("INNER JOIN"));
    assert!(sql.contains("RIGHT JOIN"));

    cleanup(&db_path);
    Ok(())
}


fn case_value_conversions() -> Result<(), Error> {

    let v = Value::I64(42);
    let i: i64 = FromSql::from_sql(&v).unwrap();
    assert_eq!(i, 42);
    assert_eq!(ToSql::to_sql(&42i64), Value::I64(42));

    let v = Value::String("hello".into());
    let s: String = FromSql::from_sql(&v).unwrap();
    assert_eq!(s, "hello");
    assert_eq!(ToSql::to_sql(&"hello".to_string()), Value::String("hello".into()));

    let v = Value::I32(7);
    let i: i32 = FromSql::from_sql(&v).unwrap();
    assert_eq!(i, 7);
    assert_eq!(ToSql::to_sql(&7i32), Value::I32(7));

    Ok(())
}


fn case_value_from() -> Result<(), Error> {
    let v = Value::from("hello");
    assert_eq!(v, Value::String("hello".into()));

    let v = Value::from(42i64);
    assert_eq!(v, Value::I64(42));

    let v = Value::from(7i32);
    assert_eq!(v, Value::I32(7));

    let v = Value::from(fv(3.14f64));
    assert_eq!(v, Value::F64(fv(3.14)));

    Ok(())
}


fn case_connection_config() -> Result<(), Error> {
    let config = ConnectionConfig::sqlite("test.db");
    assert_eq!(config.db_type, "sqlite");
    assert_eq!(config.host, "test.db");

    let config = ConnectionConfig::postgres("localhost", 5432, "testdb", "user", "pass");
    assert_eq!(config.db_type, "postgres");
    assert_eq!(config.host, "localhost");
    assert_eq!(config.port, 5432);
    assert_eq!(config.database, "testdb");
    assert_eq!(config.username, "user");
    assert_eq!(config.password, "pass");

    let config = ConnectionConfig::mysql("localhost", 3306, "testdb", "user", "pass");
    assert_eq!(config.db_type, "mysql");
    assert_eq!(config.port, 3306);

    Ok(())
}


fn case_pool_get_and_return() -> Result<(), Error> {
    let (mut pool, db_path) = setup()?;

    let mut conn1 = pool.get()?;
    let mut conn2 = pool.get()?;

    let mut qb1 = QueryBuilder::<TestUser>::new(conn1.driver_mut());
    let count1 = qb1.count()?;
    assert_eq!(count1, 0);

    let mut qb2 = QueryBuilder::<TestUser>::new(conn2.driver_mut());
    let count2 = qb2.count()?;
    assert_eq!(count2, 0);

    cleanup(&db_path);
    Ok(())
}


fn case_insert_multiple() -> Result<(), Error> {
    let (mut pool, db_path) = setup()?;
    let mut conn = pool.get()?;
    let mut qb = QueryBuilder::<TestUser>::new(conn.driver_mut());

    let id1 = qb.insert(&TestUser { id: 0, name: "A".into(), email: "a@test.com".into(), age: 20 })?;
    let id2 = qb.insert(&TestUser { id: 0, name: "B".into(), email: "b@test.com".into(), age: 21 })?;
    let id3 = qb.insert(&TestUser { id: 0, name: "C".into(), email: "c@test.com".into(), age: 22 })?;

    assert_eq!(id1, Some(1));
    assert_eq!(id2, Some(2));
    assert_eq!(id3, Some(3));

    let all = qb.find_all()?;
    assert_eq!(all.len(), 3);

    cleanup(&db_path);
    Ok(())
}


fn case_transaction_multiple_ops() -> Result<(), Error> {
    let (mut pool, db_path) = setup()?;
    let mut conn = pool.get()?;

    {
        let mut tx = Transaction::<TestUser>::begin(conn.driver_mut())?;

        tx.insert(&TestUser { id: 0, name: "Alice".into(), email: "alice@test.com".into(), age: 30 })?;
        tx.insert(&TestUser { id: 0, name: "Bob".into(), email: "bob@test.com".into(), age: 25 })?;

        tx.where_eq("name", Value::from("Alice")).update_one("age", Value::from(31))?;
        tx.where_eq("name", Value::from("Bob")).delete()?;

        let users = tx.find_all()?;
        assert_eq!(users.len(), 1);
        assert_eq!(users[0].name, "Alice");
        assert_eq!(users[0].age, 31);

        tx.commit()?;
    }

    let mut qb = QueryBuilder::<TestUser>::new(conn.driver_mut());
    let all = qb.find_all()?;
    assert_eq!(all.len(), 1);
    assert_eq!(all[0].name, "Alice");
    assert_eq!(all[0].age, 31);

    cleanup(&db_path);
    Ok(())
}


fn case_composite_unique_index() -> Result<(), Error> {


    let schema = CompositeUser::table_schema();
    assert_eq!(schema.len(), 3);
    assert_eq!(schema[1].unique_index_name, Some("uq_name_email"));
    assert_eq!(schema[2].unique_index_name, Some("uq_name_email"));

    let db_path = unique_db_path();
    let config = ConnectionConfig::sqlite(&db_path);
    let mut pool = ConnectionPool::new(SqliteDriverFactory, config, 2);
    let mut conn = pool.get()?;
    let mut qb = QueryBuilder::<CompositeUser>::new(conn.driver_mut());
    qb.create_table()?;

    qb.insert(&CompositeUser { id: 0, name: "Alice".into(), email: "alice@test.com".into() })?;

    let all = qb.find_all()?;
    assert_eq!(all.len(), 1);

    cleanup(&db_path);
    Ok(())
}


fn case_custom_table_name() -> Result<(), Error> {


    assert_eq!(CustomTable::table_name(), "custom_table_name");
    Ok(())
}


fn case_custom_primary_key() -> Result<(), Error> {


    assert_eq!(CustomPk::primary_key(), "uuid");
    Ok(())
}


fn case_null_value() -> Result<(), Error> {

    let v = Value::Null;
    let result: Result<i64, _> = FromSql::from_sql(&v);
    assert!(result.is_err());

    Ok(())
}


fn case_bool_value() -> Result<(), Error> {

    let v = Value::Bool(true);
    let b: bool = FromSql::from_sql(&v).unwrap();
    assert!(b);

    assert_eq!(ToSql::to_sql(&true), Value::Bool(true));
    assert_eq!(ToSql::to_sql(&false), Value::Bool(false));

    Ok(())
}


fn case_f64_value() -> Result<(), Error> {

    let v = Value::F64(fv(3.14));
    let f: f64 = f64_of(&<FloatValue as FromSql>::from_sql(&v).unwrap());
    assert!((f - 3.14).abs() < 0.001);

    assert_eq!(ToSql::to_sql(&fv(3.14f64)), Value::F64(fv(3.14)));

    Ok(())
}


fn case_bytes_value() -> Result<(), Error> {

    let data = vec![1u8, 2, 3];
    let v = Value::Bytes(data.clone());
    let b: Vec<u8> = FromSql::from_sql(&v).unwrap();
    assert_eq!(b, data);

    assert_eq!(ToSql::to_sql(&data), Value::Bytes(data));

    Ok(())
}


fn case_value_clone_and_debug() -> Result<(), Error> {
    let v = Value::String("hello".into());
    let v2 = v.clone();
    assert_eq!(v, v2);
    assert!(format!("{:?}", v).contains("hello"));

    Ok(())
}


fn case_error_debug() -> Result<(), Error> {
    let err = Error::NotFound("test".into());
    let debug_str = format!("{:?}", err);
    assert!(debug_str.contains("NotFound"));
    assert!(debug_str.contains("test"));

    Ok(())
}


fn case_error_source() -> Result<(), Error> {

    let io_err = std::io::Error::new(std::io::ErrorKind::Other, "test");
    let err = Error::Io(io_err);
    assert!(err.has_source());

    let err = Error::NotFound("test".into());
    assert!(!err.has_source());

    Ok(())
}


fn case_join_type_sql() -> Result<(), Error> {

    assert_eq!(JoinType::Left.as_sql(), "LEFT JOIN");
    assert_eq!(JoinType::Inner.as_sql(), "INNER JOIN");
    assert_eq!(JoinType::Right.as_sql(), "RIGHT JOIN");

    Ok(())
}


fn case_query_builder_table_name() -> Result<(), Error> {
    let (mut pool, db_path) = setup()?;
    let mut conn = pool.get()?;
    let qb = QueryBuilder::<TestUser>::new(conn.driver_mut());

    assert_eq!(qb.table_name(), "test_users");

    cleanup(&db_path);
    Ok(())
}


fn case_transaction_count() -> Result<(), Error> {
    let (mut pool, db_path) = setup()?;
    let mut conn = pool.get()?;

    let mut tx = Transaction::<TestUser>::begin(conn.driver_mut())?;
    tx.insert(&TestUser { id: 0, name: "Alice".into(), email: "alice@test.com".into(), age: 30 })?;
    tx.insert(&TestUser { id: 0, name: "Bob".into(), email: "bob@test.com".into(), age: 25 })?;

    let count = tx.count()?;
    assert_eq!(count, 2);

    tx.commit()?;

    cleanup(&db_path);
    Ok(())
}


fn case_transaction_find_one() -> Result<(), Error> {
    let (mut pool, db_path) = setup()?;
    let mut conn = pool.get()?;

    let mut tx = Transaction::<TestUser>::begin(conn.driver_mut())?;
    tx.insert(&TestUser { id: 0, name: "Alice".into(), email: "alice@test.com".into(), age: 30 })?;

    let user = tx.find_one()?;
    assert!(user.is_some());
    assert_eq!(user.unwrap().name, "Alice");

    tx.commit()?;

    cleanup(&db_path);
    Ok(())
}


fn case_transaction_find_where() -> Result<(), Error> {
    let (mut pool, db_path) = setup()?;
    let mut conn = pool.get()?;

    let mut tx = Transaction::<TestUser>::begin(conn.driver_mut())?;
    tx.insert(&TestUser { id: 0, name: "Alice".into(), email: "alice@test.com".into(), age: 30 })?;

    let users = tx.find_where("name", Value::from("Alice"))?;
    assert_eq!(users.len(), 1);
    assert_eq!(users[0].email, "alice@test.com");

    tx.commit()?;

    cleanup(&db_path);
    Ok(())
}


fn case_transaction_update_model() -> Result<(), Error> {
    let (mut pool, db_path) = setup()?;
    let mut conn = pool.get()?;

    let mut tx = Transaction::<TestUser>::begin(conn.driver_mut())?;
    tx.insert(&TestUser { id: 0, name: "Alice".into(), email: "alice@test.com".into(), age: 30 })?;

    let update = TestUser { id: 0, name: "".into(), email: "".into(), age: 35 };
    let rows = tx.where_eq("name", Value::from("Alice")).update_model(&update)?;
    assert_eq!(rows, 1);

    let user = tx.find_by_id(1)?;
    assert_eq!(user.unwrap().age, 35);

    tx.commit()?;

    cleanup(&db_path);
    Ok(())
}


fn case_transaction_limit_offset_order() -> Result<(), Error> {
    let (mut pool, db_path) = setup()?;
    let mut conn = pool.get()?;

    let mut tx = Transaction::<TestUser>::begin(conn.driver_mut())?;
    for i in 0..5 {
        tx.insert(&TestUser { id: 0, name: format!("User{}", i), email: format!("user{}@test.com", i), age: 20 + i })?;
    }

    let all = tx.find_all()?;
    assert_eq!(all.len(), 5);

    tx.commit()?;

    cleanup(&db_path);
    Ok(())
}


fn case_transaction_where_in() -> Result<(), Error> {
    let (mut pool, db_path) = setup()?;
    let mut conn = pool.get()?;

    let mut tx = Transaction::<TestUser>::begin(conn.driver_mut())?;
    tx.insert(&TestUser { id: 0, name: "Alice".into(), email: "alice@test.com".into(), age: 30 })?;
    tx.insert(&TestUser { id: 0, name: "Bob".into(), email: "bob@test.com".into(), age: 25 })?;
    tx.insert(&TestUser { id: 0, name: "Charlie".into(), email: "charlie@test.com".into(), age: 35 })?;

    let users = tx.where_in("name", vec![Value::from("Alice"), Value::from("Bob")]).find()?;
    assert_eq!(users.len(), 2);

    tx.commit()?;

    cleanup(&db_path);
    Ok(())
}


fn case_transaction_where_model() -> Result<(), Error> {
    let (mut pool, db_path) = setup()?;
    let mut conn = pool.get()?;

    let mut tx = Transaction::<TestUser>::begin(conn.driver_mut())?;
    tx.insert(&TestUser { id: 0, name: "Alice".into(), email: "alice@test.com".into(), age: 30 })?;
    tx.insert(&TestUser { id: 0, name: "Bob".into(), email: "bob@test.com".into(), age: 25 })?;

    let filter = TestUser { id: 1, name: "".into(), email: "".into(), age: 0 };
    let users = tx.where_model(&filter).find()?;
    assert_eq!(users.len(), 1);
    assert_eq!(users[0].name, "Alice");

    tx.commit()?;

    cleanup(&db_path);
    Ok(())
}


fn case_transaction_explicit_rollback() -> Result<(), Error> {
    let (mut pool, db_path) = setup()?;
    let mut conn = pool.get()?;

    {
        let mut tx = Transaction::<TestUser>::begin(conn.driver_mut())?;
        tx.insert(&TestUser { id: 0, name: "Alice".into(), email: "alice@test.com".into(), age: 30 })?;
        tx.rollback()?;
    }

    let mut qb = QueryBuilder::<TestUser>::new(conn.driver_mut());
    let all = qb.find_all()?;
    assert_eq!(all.len(), 0);

    cleanup(&db_path);
    Ok(())
}


fn case_transaction_commit_then_drop() -> Result<(), Error> {
    let (mut pool, db_path) = setup()?;
    let mut conn = pool.get()?;

    {
        let mut tx = Transaction::<TestUser>::begin(conn.driver_mut())?;
        tx.insert(&TestUser { id: 0, name: "Alice".into(), email: "alice@test.com".into(), age: 30 })?;
        tx.commit()?;
    }

    let mut qb = QueryBuilder::<TestUser>::new(conn.driver_mut());
    let all = qb.find_all()?;
    assert_eq!(all.len(), 1);

    cleanup(&db_path);
    Ok(())
}


fn case_update_model_no_fields() -> Result<(), Error> {
    let (mut pool, db_path) = setup()?;
    let mut conn = pool.get()?;
    let mut qb = QueryBuilder::<TestUser>::new(conn.driver_mut());

    qb.insert(&TestUser { id: 0, name: "Alice".into(), email: "alice@test.com".into(), age: 30 })?;

    let empty_update = TestUser { id: 0, name: "".into(), email: "".into(), age: 0 };
    let result = qb.where_eq("name", Value::from("Alice")).update_model(&empty_update);
    assert!(result.is_err());

    cleanup(&db_path);
    Ok(())
}


fn case_insert_with_explicit_id() -> Result<(), Error> {
    let (mut pool, db_path) = setup()?;
    let mut conn = pool.get()?;
    let mut qb = QueryBuilder::<TestUser>::new(conn.driver_mut());

    qb.insert(&TestUser { id: 100, name: "Alice".into(), email: "alice@test.com".into(), age: 30 })?;

    let all = qb.find_all()?;
    assert_eq!(all.len(), 1);
    assert_eq!(all[0].name, "Alice");

    cleanup(&db_path);
    Ok(())
}


fn case_count_empty_table() -> Result<(), Error> {
    let (mut pool, db_path) = setup()?;
    let mut conn = pool.get()?;
    let mut qb = QueryBuilder::<TestUser>::new(conn.driver_mut());

    let count = qb.count()?;
    assert_eq!(count, 0);

    cleanup(&db_path);
    Ok(())
}


fn case_find_all_empty() -> Result<(), Error> {
    let (mut pool, db_path) = setup()?;
    let mut conn = pool.get()?;
    let mut qb = QueryBuilder::<TestUser>::new(conn.driver_mut());

    let all = qb.find_all()?;
    assert_eq!(all.len(), 0);

    cleanup(&db_path);
    Ok(())
}


fn case_order_multiple_columns() -> Result<(), Error> {
    let (mut pool, db_path) = setup()?;
    let mut conn = pool.get()?;
    let mut qb = QueryBuilder::<TestUser>::new(conn.driver_mut());

    qb.insert(&TestUser { id: 0, name: "Bob".into(), email: "bob@test.com".into(), age: 30 })?;
    qb.insert(&TestUser { id: 0, name: "Alice".into(), email: "alice@test.com".into(), age: 30 })?;

    let all = qb.find_all()?;
    assert_eq!(all.len(), 2);

    cleanup(&db_path);
    Ok(())
}


fn case_where_in_empty() -> Result<(), Error> {
    let (mut pool, db_path) = setup()?;
    let mut conn = pool.get()?;
    let mut qb = QueryBuilder::<TestUser>::new(conn.driver_mut());

    qb.insert(&TestUser { id: 0, name: "Alice".into(), email: "alice@test.com".into(), age: 30 })?;

    let all = qb.find_all()?;
    assert_eq!(all.len(), 1);

    cleanup(&db_path);
    Ok(())
}


fn case_update_one_zero_rows() -> Result<(), Error> {
    let (mut pool, db_path) = setup()?;
    let mut conn = pool.get()?;
    let mut qb = QueryBuilder::<TestUser>::new(conn.driver_mut());

    let rows = qb.where_eq("name", Value::from("Nobody")).update_one("age", Value::from(99))?;
    assert_eq!(rows, 0);

    cleanup(&db_path);
    Ok(())
}


fn case_delete_zero_rows() -> Result<(), Error> {
    let (mut pool, db_path) = setup()?;
    let mut conn = pool.get()?;
    let mut qb = QueryBuilder::<TestUser>::new(conn.driver_mut());

    let rows = qb.where_eq("name", Value::from("Nobody")).delete()?;
    assert_eq!(rows, 0);

    cleanup(&db_path);
    Ok(())
}


fn case_find_no_results() -> Result<(), Error> {
    let (mut pool, db_path) = setup()?;
    let mut conn = pool.get()?;
    let mut qb = QueryBuilder::<TestUser>::new(conn.driver_mut());

    let users = qb.where_eq("name", Value::from("Nobody")).find()?;
    assert_eq!(users.len(), 0);

    cleanup(&db_path);
    Ok(())
}


fn case_limit_zero() -> Result<(), Error> {
    let (mut pool, db_path) = setup()?;
    let mut conn = pool.get()?;
    let mut qb = QueryBuilder::<TestUser>::new(conn.driver_mut());

    qb.insert(&TestUser { id: 0, name: "Alice".into(), email: "alice@test.com".into(), age: 30 })?;

    let all = qb.find_all()?;
    assert_eq!(all.len(), 1);

    cleanup(&db_path);
    Ok(())
}


fn case_offset_beyond_data() -> Result<(), Error> {
    let (mut pool, db_path) = setup()?;
    let mut conn = pool.get()?;
    let mut qb = QueryBuilder::<TestUser>::new(conn.driver_mut());

    qb.insert(&TestUser { id: 0, name: "Alice".into(), email: "alice@test.com".into(), age: 30 })?;

    let all = qb.find_all()?;
    assert_eq!(all.len(), 1);

    cleanup(&db_path);
    Ok(())
}


fn case_connection_config_types() -> Result<(), Error> {
    let sqlite = ConnectionConfig::sqlite("test.db");
    assert_eq!(sqlite.db_type, "sqlite");

    let pg = ConnectionConfig::postgres("localhost", 5432, "testdb", "user", "pass");
    assert_eq!(pg.db_type, "postgres");

    let mysql = ConnectionConfig::mysql("localhost", 3306, "testdb", "user", "pass");
    assert_eq!(mysql.db_type, "mysql");

    Ok(())
}


fn case_column_info_debug() -> Result<(), Error> {
    let schema = TestUser::table_schema();
    let debug_str = format!("{:?}", schema);
    assert!(debug_str.contains("id"));
    assert!(debug_str.contains("name"));
    assert!(debug_str.contains("email"));
    assert!(debug_str.contains("age"));

    Ok(())
}


fn case_join_clause_debug() -> Result<(), Error> {

    let clause = JoinClause { join_type: JoinType::Left, table: "orders".into(), on_clause: "users.id = orders.user_id".into() };
    let debug_str = format!("{:?}", clause);
    assert!(debug_str.contains("orders"));
    assert!(debug_str.contains("Left"));

    Ok(())
}


fn case_join_type_debug() -> Result<(), Error> {

    assert_eq!(format!("{:?}", JoinType::Left), "Left");
    assert_eq!(format!("{:?}", JoinType::Inner), "Inner");
    assert_eq!(format!("{:?}", JoinType::Right), "Right");

    Ok(())
}


fn case_join_type_clone() -> Result<(), Error> {

    let jt = JoinType::Left;
    let jt2 = jt;
    assert_eq!(jt2, JoinType::Left);

    Ok(())
}


fn case_column_info_clone() -> Result<(), Error> {
    let schema = TestUser::table_schema();
    let cloned = schema[0].clone();
    assert_eq!(cloned.name, "id");

    Ok(())
}


fn case_value_partial_eq() -> Result<(), Error> {
    assert_eq!(Value::I64(1), Value::I64(1));
    assert_ne!(Value::I64(1), Value::I64(2));
    assert_ne!(Value::I64(1), Value::String("1".into()));

    Ok(())
}


fn case_value_default() -> Result<(), Error> {
    let v = Value::Null;
    assert_eq!(v, Value::Null);

    Ok(())
}


fn case_value_from_str() -> Result<(), Error> {
    let v = Value::from("hello");
    assert_eq!(v, Value::String("hello".into()));

    Ok(())
}


fn case_value_from_i64() -> Result<(), Error> {
    let v = Value::from(42i64);
    assert_eq!(v, Value::I64(42));

    Ok(())
}


fn case_value_from_i32() -> Result<(), Error> {
    let v = Value::from(7i32);
    assert_eq!(v, Value::I32(7));

    Ok(())
}


fn case_value_from_f64() -> Result<(), Error> {
    let v = Value::from(fv(3.14));
    assert_eq!(v, Value::F64(fv(3.14)));

    Ok(())
}


fn case_value_from_bool() -> Result<(), Error> {
    let v = Value::from(true);
    assert_eq!(v, Value::Bool(true));

    Ok(())
}


fn case_value_from_bytes() -> Result<(), Error> {
    let data = vec![1u8, 2, 3];
    let v = Value::from(data.clone());
    assert_eq!(v, Value::Bytes(data));

    Ok(())
}


fn case_from_sql_i64() -> Result<(), Error> {

    let v = Value::I64(42);
    let i: i64 = FromSql::from_sql(&v).unwrap();
    assert_eq!(i, 42);

    Ok(())
}


fn case_from_sql_i32() -> Result<(), Error> {

    let v = Value::I32(7);
    let i: i32 = FromSql::from_sql(&v).unwrap();
    assert_eq!(i, 7);

    Ok(())
}


fn case_from_sql_string() -> Result<(), Error> {

    let v = Value::String("hello".into());
    let s: String = FromSql::from_sql(&v).unwrap();
    assert_eq!(s, "hello");

    Ok(())
}


fn case_from_sql_f64() -> Result<(), Error> {

    let v = Value::F64(fv(3.14));
    let f: f64 = f64_of(&<FloatValue as FromSql>::from_sql(&v).unwrap());
    assert!((f - 3.14).abs() < 0.001);

    Ok(())
}


fn case_from_sql_bool() -> Result<(), Error> {

    let v = Value::Bool(true);
    let b: bool = FromSql::from_sql(&v).unwrap();
    assert!(b);

    Ok(())
}


fn case_from_sql_bytes() -> Result<(), Error> {

    let data = vec![1u8, 2, 3];
    let v = Value::Bytes(data.clone());
    let b: Vec<u8> = FromSql::from_sql(&v).unwrap();
    assert_eq!(b, data);

    Ok(())
}


fn case_from_sql_null() -> Result<(), Error> {

    let v = Value::Null;
    let result: Result<i64, _> = FromSql::from_sql(&v);
    assert!(result.is_err());

    Ok(())
}


fn case_to_sql_i64() -> Result<(), Error> {
    assert_eq!(ToSql::to_sql(&42i64), Value::I64(42));
    Ok(())
}


fn case_to_sql_i32() -> Result<(), Error> {
    assert_eq!(ToSql::to_sql(&7i32), Value::I32(7));
    Ok(())
}


fn case_to_sql_string() -> Result<(), Error> {
    assert_eq!(ToSql::to_sql(&"hello".to_string()), Value::String("hello".into()));
    Ok(())
}


fn case_to_sql_f64() -> Result<(), Error> {
    assert_eq!(ToSql::to_sql(&fv(3.14f64)), Value::F64(fv(3.14)));
    Ok(())
}


fn case_to_sql_bool() -> Result<(), Error> {
    assert_eq!(ToSql::to_sql(&true), Value::Bool(true));
    assert_eq!(ToSql::to_sql(&false), Value::Bool(false));
    Ok(())
}


fn case_to_sql_bytes() -> Result<(), Error> {
    let data = vec![1u8, 2, 3];
    assert_eq!(ToSql::to_sql(&data), Value::Bytes(data));
    Ok(())
}


fn case_to_sql_str() -> Result<(), Error> {
    assert_eq!(ToSql::to_sql(&"hello"), Value::String("hello".into()));
    Ok(())
}


fn case_to_sql_option_some() -> Result<(), Error> {
    let opt: Option<i64> = Some(42);
    assert_eq!(ToSql::to_sql(&opt), Value::I64(42));
    Ok(())
}


fn case_to_sql_option_none() -> Result<(), Error> {
    let opt: Option<i64> = None;
    assert_eq!(ToSql::to_sql(&opt), Value::Null);
    Ok(())
}


fn case_error_from_box_dyn() -> Result<(), Error> {
    let io_err = std::io::Error::new(std::io::ErrorKind::Other, "test");
    let boxed: Box<dyn std::error::Error> = Box::new(io_err);
    let err: Error = boxed.to_string().into();
    assert!(err.to_display_string().contains("protocol error"));
    Ok(())
}


fn case_error_from_str() -> Result<(), Error> {
    let err: Error = "test error".into();
    assert_eq!(err.to_display_string(), "protocol error: test error");
    Ok(())
}


fn case_error_from_string_type() -> Result<(), Error> {
    let err: Error = "test error".to_string().into();
    assert_eq!(err.to_display_string(), "protocol error: test error");
    Ok(())
}


fn case_error_from_io_error() -> Result<(), Error> {
    let io_err = std::io::Error::new(std::io::ErrorKind::NotFound, "file not found");
    let err: Error = io_err.into();
    assert!(err.to_display_string().contains("io error"));
    Ok(())
}


fn case_error_display_all_variants() -> Result<(), Error> {
    assert_eq!(Error::Connection("x".into()).to_display_string(), "connection error: x");
    assert_eq!(Error::Query("x".into()).to_display_string(), "query error: x");
    assert_eq!(Error::Execute("x".into()).to_display_string(), "execute error: x");
    assert_eq!(Error::Protocol("x".into()).to_display_string(), "protocol error: x");
    assert_eq!(Error::Model("x".into()).to_display_string(), "model error: x");
    assert_eq!(Error::Pool("x".into()).to_display_string(), "pool error: x");
    assert_eq!(Error::Config("x".into()).to_display_string(), "config error: x");
    assert_eq!(Error::NotFound("x".into()).to_display_string(), "not found: x");
    assert_eq!(Error::Transaction("x".into()).to_display_string(), "transaction error: x");
    Ok(())
}


fn case_error_debug_all_variants() -> Result<(), Error> {
    let variants = [
        Error::Connection("x".into()),
        Error::Query("x".into()),
        Error::Execute("x".into()),
        Error::Protocol("x".into()),
        Error::Model("x".into()),
        Error::Pool("x".into()),
        Error::Config("x".into()),
        Error::NotFound("x".into()),
        Error::Transaction("x".into()),
    ];
    for err in &variants {
        assert!(!format!("{:?}", err).is_empty());
    }
    Ok(())
}


fn case_error_source_io() -> Result<(), Error> {
    let io_err = std::io::Error::new(std::io::ErrorKind::Other, "test");
    let err = Error::Io(io_err);
    assert!(err.has_source());
    Ok(())
}


fn case_error_source_none() -> Result<(), Error> {
    assert!(!Error::NotFound("test".into()).has_source());
    assert!(!Error::Connection("test".into()).has_source());
    Ok(())
}


fn case_result_type_alias() -> Result<(), Error> {
    let r: grorm::Result<i64> = Ok(42);
    assert_eq!(r.unwrap(), 42);

    let r: grorm::Result<i64> = Err(Error::NotFound("test".into()));
    assert!(r.is_err());
    Ok(())
}


fn case_model_trait_methods() -> Result<(), Error> {
    assert_eq!(TestUser::table_name(), "test_users");
    assert_eq!(TestUser::primary_key(), "id");
    assert_eq!(TestUser::columns(), &["id", "name", "email", "age"]);
    assert_eq!(TestUser::table_schema().len(), 4);
    Ok(())
}


fn case_model_from_row_error() -> Result<(), Error> {
    let values = vec![Value::String("not_an_int".into()), Value::String("x".into()), Value::String("x".into()), Value::String("x".into())];
    assert!(TestUser::from_row(&values).is_err());
    Ok(())
}


fn case_model_to_values_roundtrip() -> Result<(), Error> {
    let user = TestUser { id: 42, name: "Test".into(), email: "test@test.com".into(), age: 99 };
    let values = user.to_values();
    let restored = TestUser::from_row(&values).unwrap();
    assert_eq!(restored, user);
    Ok(())
}


fn case_model_empty_string() -> Result<(), Error> {
    let user = TestUser { id: 0, name: "".into(), email: "".into(), age: 0 };
    let values = user.to_values();
    let restored = TestUser::from_row(&values).unwrap();
    assert_eq!(restored, user);
    Ok(())
}


fn case_model_negative_age() -> Result<(), Error> {
    let user = TestUser { id: 0, name: "Test".into(), email: "test@test.com".into(), age: -5 };
    let values = user.to_values();
    let restored = TestUser::from_row(&values).unwrap();
    assert_eq!(restored.age, -5);
    Ok(())
}


fn case_model_large_id() -> Result<(), Error> {
    let user = TestUser { id: i64::MAX, name: "Test".into(), email: "test@test.com".into(), age: 30 };
    let values = user.to_values();
    let restored = TestUser::from_row(&values).unwrap();
    assert_eq!(restored.id, i64::MAX);
    Ok(())
}


fn case_model_special_chars() -> Result<(), Error> {
    let user = TestUser { id: 0, name: "O'Brien".into(), email: "test+tag@test.com".into(), age: 30 };
    let values = user.to_values();
    let restored = TestUser::from_row(&values).unwrap();
    assert_eq!(restored.name, "O'Brien");
    assert_eq!(restored.email, "test+tag@test.com");
    Ok(())
}


fn case_model_unicode() -> Result<(), Error> {
    let user = TestUser { id: 0, name: "测试用户".into(), email: "test@test.com".into(), age: 30 };
    let values = user.to_values();
    let restored = TestUser::from_row(&values).unwrap();
    assert_eq!(restored.name, "测试用户");
    Ok(())
}


fn case_derive_model_attributes() -> Result<(), Error> {


    assert_eq!(CustomAttrs::table_name(), "custom_attrs");
    assert_eq!(CustomAttrs::primary_key(), "uuid");

    let schema = CustomAttrs::table_schema();
    assert_eq!(schema.len(), 3);
    assert!(schema[1].is_index);
    assert!(schema[2].is_unique);
    Ok(())
}


fn case_derive_model_unique_index() -> Result<(), Error> {


    let schema = UniqueIdxModel::table_schema();
    assert_eq!(schema[1].unique_index_name, Some("uq_a_b"));
    assert_eq!(schema[2].unique_index_name, Some("uq_a_b"));
    Ok(())
}


fn case_derive_table_macro() -> Result<(), Error> {


    assert_eq!(MyTable::table_name(), "my_custom_table");
    Ok(())
}


fn case_derive_table_default_name() -> Result<(), Error> {


    assert_eq!(UserProfile::table_name(), "userprofiles");
    Ok(())
}


fn case_value_clone() -> Result<(), Error> {
    assert_eq!(Value::String("hello".into()).clone(), Value::String("hello".into()));
    assert_eq!(Value::I64(42).clone(), Value::I64(42));
    assert_eq!(Value::Null.clone(), Value::Null);
    Ok(())
}


fn case_value_debug() -> Result<(), Error> {
    assert!(format!("{:?}", Value::I64(42)).contains("42"));
    assert!(format!("{:?}", Value::String("hello".into())).contains("hello"));
    assert!(format!("{:?}", Value::Null).contains("Null"));
    assert!(format!("{:?}", Value::Bool(true)).contains("true"));
    assert!(format!("{:?}", Value::F64(fv(3.14))).contains("3.14"));
    Ok(())
}


fn case_value_display() -> Result<(), Error> {
    assert_eq!(Value::I64(42).to_sql_text(), "42");
    assert_eq!(Value::String("hello".into()).to_sql_text(), "'hello'");
    assert_eq!(Value::Null.to_sql_text(), "NULL");
    assert_eq!(Value::Bool(true).to_sql_text(), "true");
    assert_eq!(Value::F64(fv(3.14)).to_sql_text(), "3.14");
    Ok(())
}


fn case_value_default_impl() -> Result<(), Error> {
    assert_eq!(Value::Null, Value::Null);
    Ok(())
}


fn case_value_from_impls() -> Result<(), Error> {
    assert_eq!(Value::from("hello"), Value::String("hello".into()));
    assert_eq!(Value::from(42i64), Value::I64(42));
    assert_eq!(Value::from(7i32), Value::I32(7));
    assert_eq!(Value::from(fv(3.14f64)), Value::F64(fv(3.14)));
    assert_eq!(Value::from(true), Value::Bool(true));
    assert_eq!(Value::from(vec![1u8, 2, 3]), Value::Bytes(vec![1, 2, 3]));
    Ok(())
}


fn case_from_sql_all_types() -> Result<(), Error> {
    assert_eq!(<i64>::from_sql(&Value::I64(42)).unwrap(), 42);
    assert_eq!(<i32>::from_sql(&Value::I32(7)).unwrap(), 7);
    assert_eq!(<String>::from_sql(&Value::String("x".into())).unwrap(), "x");
    assert!((f64_of(&<FloatValue>::from_sql(&Value::F64(fv(3.14))).unwrap()) - 3.14).abs() < 0.001);
    assert!(<bool>::from_sql(&Value::Bool(true)).unwrap());
    assert_eq!(<Vec<u8>>::from_sql(&Value::Bytes(vec![1, 2])).unwrap(), vec![1, 2]);
    Ok(())
}


fn case_to_sql_all_types() -> Result<(), Error> {
    assert_eq!(ToSql::to_sql(&42i64), Value::I64(42));
    assert_eq!(ToSql::to_sql(&7i32), Value::I32(7));
    assert_eq!(ToSql::to_sql(&"x".to_string()), Value::String("x".into()));
    assert_eq!(ToSql::to_sql(&fv(3.14f64)), Value::F64(fv(3.14)));
    assert_eq!(ToSql::to_sql(&true), Value::Bool(true));
    assert_eq!(ToSql::to_sql(&vec![1u8, 2]), Value::Bytes(vec![1, 2]));
    Ok(())
}


fn case_to_sql_str_ref() -> Result<(), Error> {
    assert_eq!(ToSql::to_sql(&"hello"), Value::String("hello".into()));
    Ok(())
}


fn case_to_sql_option() -> Result<(), Error> {
    assert_eq!(ToSql::to_sql(&Some(42i64)), Value::I64(42));
    assert_eq!(ToSql::to_sql(&None::<i64>), Value::Null);
    Ok(())
}


fn case_derive_table_no_attr() -> Result<(), Error> {


    assert_eq!(FooBar::table_name(), "foobars");
    Ok(())
}


fn case_derive_model_default_table() -> Result<(), Error> {


    assert_eq!(DefaultTable::table_name(), "defaulttables");
    Ok(())
}


fn case_derive_model_default_pk() -> Result<(), Error> {


    assert_eq!(DefaultPk::primary_key(), "id");
    Ok(())
}


fn case_derive_model_non_int_pk() -> Result<(), Error> {


    let schema = StrPk::table_schema();
    assert!(schema[0].is_primary_key);
    assert!(!schema[0].is_auto_increment);
    Ok(())
}


fn case_derive_model_int_pk_auto() -> Result<(), Error> {


    let schema = IntPk::table_schema();
    assert!(schema[0].is_primary_key);
    assert!(schema[0].is_auto_increment);
    Ok(())
}


fn case_derive_model_no_index_no_unique() -> Result<(), Error> {


    let schema = Plain::table_schema();
    assert_eq!(schema.len(), 3);
    assert!(!schema[0].is_index);
    assert!(!schema[0].is_unique);
    assert!(!schema[1].is_index);
    assert!(!schema[1].is_unique);
    assert!(!schema[2].is_index);
    assert!(!schema[2].is_unique);
    Ok(())
}
#[test]
fn run_all_tests() {
    let mut passed = 0;
    let mut failed = 0;
    let mut errors = Vec::new();


    match case_bool_value() {
        Ok(()) => {
            passed += 1;
        }
        Err(e) => {
            failed += 1;
            errors.push(("case_bool_value", e));
        }
    }
    match case_bytes_value() {
        Ok(()) => {
            passed += 1;
        }
        Err(e) => {
            failed += 1;
            errors.push(("case_bytes_value", e));
        }
    }
    match case_chain_reset_after_find() {
        Ok(()) => {
            passed += 1;
        }
        Err(e) => {
            failed += 1;
            errors.push(("case_chain_reset_after_find", e));
        }
    }
    match case_column_info_clone() {
        Ok(()) => {
            passed += 1;
        }
        Err(e) => {
            failed += 1;
            errors.push(("case_column_info_clone", e));
        }
    }
    match case_column_info_debug() {
        Ok(()) => {
            passed += 1;
        }
        Err(e) => {
            failed += 1;
            errors.push(("case_column_info_debug", e));
        }
    }
    match case_columns() {
        Ok(()) => {
            passed += 1;
        }
        Err(e) => {
            failed += 1;
            errors.push(("case_columns", e));
        }
    }
    match case_composite_unique_index() {
        Ok(()) => {
            passed += 1;
        }
        Err(e) => {
            failed += 1;
            errors.push(("case_composite_unique_index", e));
        }
    }
    match case_connection_config() {
        Ok(()) => {
            passed += 1;
        }
        Err(e) => {
            failed += 1;
            errors.push(("case_connection_config", e));
        }
    }
    match case_connection_config_types() {
        Ok(()) => {
            passed += 1;
        }
        Err(e) => {
            failed += 1;
            errors.push(("case_connection_config_types", e));
        }
    }
    match case_count() {
        Ok(()) => {
            passed += 1;
        }
        Err(e) => {
            failed += 1;
            errors.push(("case_count", e));
        }
    }
    match case_count_empty_table() {
        Ok(()) => {
            passed += 1;
        }
        Err(e) => {
            failed += 1;
            errors.push(("case_count_empty_table", e));
        }
    }
    match case_create_table() {
        Ok(()) => {
            passed += 1;
        }
        Err(e) => {
            failed += 1;
            errors.push(("case_create_table", e));
        }
    }
    match case_custom_primary_key() {
        Ok(()) => {
            passed += 1;
        }
        Err(e) => {
            failed += 1;
            errors.push(("case_custom_primary_key", e));
        }
    }
    match case_custom_table_name() {
        Ok(()) => {
            passed += 1;
        }
        Err(e) => {
            failed += 1;
            errors.push(("case_custom_table_name", e));
        }
    }
    match case_delete() {
        Ok(()) => {
            passed += 1;
        }
        Err(e) => {
            failed += 1;
            errors.push(("case_delete", e));
        }
    }
    match case_delete_without_where() {
        Ok(()) => {
            passed += 1;
        }
        Err(e) => {
            failed += 1;
            errors.push(("case_delete_without_where", e));
        }
    }
    match case_delete_zero_rows() {
        Ok(()) => {
            passed += 1;
        }
        Err(e) => {
            failed += 1;
            errors.push(("case_delete_zero_rows", e));
        }
    }
    match case_derive_model_attributes() {
        Ok(()) => {
            passed += 1;
        }
        Err(e) => {
            failed += 1;
            errors.push(("case_derive_model_attributes", e));
        }
    }
    match case_derive_model_default_pk() {
        Ok(()) => {
            passed += 1;
        }
        Err(e) => {
            failed += 1;
            errors.push(("case_derive_model_default_pk", e));
        }
    }
    match case_derive_model_default_table() {
        Ok(()) => {
            passed += 1;
        }
        Err(e) => {
            failed += 1;
            errors.push(("case_derive_model_default_table", e));
        }
    }
    match case_derive_model_int_pk_auto() {
        Ok(()) => {
            passed += 1;
        }
        Err(e) => {
            failed += 1;
            errors.push(("case_derive_model_int_pk_auto", e));
        }
    }
    match case_derive_model_no_index_no_unique() {
        Ok(()) => {
            passed += 1;
        }
        Err(e) => {
            failed += 1;
            errors.push(("case_derive_model_no_index_no_unique", e));
        }
    }
    match case_derive_model_non_int_pk() {
        Ok(()) => {
            passed += 1;
        }
        Err(e) => {
            failed += 1;
            errors.push(("case_derive_model_non_int_pk", e));
        }
    }
    match case_derive_model_unique_index() {
        Ok(()) => {
            passed += 1;
        }
        Err(e) => {
            failed += 1;
            errors.push(("case_derive_model_unique_index", e));
        }
    }
    match case_derive_table_default_name() {
        Ok(()) => {
            passed += 1;
        }
        Err(e) => {
            failed += 1;
            errors.push(("case_derive_table_default_name", e));
        }
    }
    match case_derive_table_macro() {
        Ok(()) => {
            passed += 1;
        }
        Err(e) => {
            failed += 1;
            errors.push(("case_derive_table_macro", e));
        }
    }
    match case_derive_table_no_attr() {
        Ok(()) => {
            passed += 1;
        }
        Err(e) => {
            failed += 1;
            errors.push(("case_derive_table_no_attr", e));
        }
    }
    match case_error_debug() {
        Ok(()) => {
            passed += 1;
        }
        Err(e) => {
            failed += 1;
            errors.push(("case_error_debug", e));
        }
    }
    match case_error_debug_all_variants() {
        Ok(()) => {
            passed += 1;
        }
        Err(e) => {
            failed += 1;
            errors.push(("case_error_debug_all_variants", e));
        }
    }
    match case_error_display() {
        Ok(()) => {
            passed += 1;
        }
        Err(e) => {
            failed += 1;
            errors.push(("case_error_display", e));
        }
    }
    match case_error_display_all_variants() {
        Ok(()) => {
            passed += 1;
        }
        Err(e) => {
            failed += 1;
            errors.push(("case_error_display_all_variants", e));
        }
    }
    match case_error_from_box_dyn() {
        Ok(()) => {
            passed += 1;
        }
        Err(e) => {
            failed += 1;
            errors.push(("case_error_from_box_dyn", e));
        }
    }
    match case_error_from_io() {
        Ok(()) => {
            passed += 1;
        }
        Err(e) => {
            failed += 1;
            errors.push(("case_error_from_io", e));
        }
    }
    match case_error_from_io_error() {
        Ok(()) => {
            passed += 1;
        }
        Err(e) => {
            failed += 1;
            errors.push(("case_error_from_io_error", e));
        }
    }
    match case_error_from_str() {
        Ok(()) => {
            passed += 1;
        }
        Err(e) => {
            failed += 1;
            errors.push(("case_error_from_str", e));
        }
    }
    match case_error_from_string() {
        Ok(()) => {
            passed += 1;
        }
        Err(e) => {
            failed += 1;
            errors.push(("case_error_from_string", e));
        }
    }
    match case_error_from_string_type() {
        Ok(()) => {
            passed += 1;
        }
        Err(e) => {
            failed += 1;
            errors.push(("case_error_from_string_type", e));
        }
    }
    match case_error_source() {
        Ok(()) => {
            passed += 1;
        }
        Err(e) => {
            failed += 1;
            errors.push(("case_error_source", e));
        }
    }
    match case_error_source_io() {
        Ok(()) => {
            passed += 1;
        }
        Err(e) => {
            failed += 1;
            errors.push(("case_error_source_io", e));
        }
    }
    match case_error_source_none() {
        Ok(()) => {
            passed += 1;
        }
        Err(e) => {
            failed += 1;
            errors.push(("case_error_source_none", e));
        }
    }
    match case_f64_value() {
        Ok(()) => {
            passed += 1;
        }
        Err(e) => {
            failed += 1;
            errors.push(("case_f64_value", e));
        }
    }
    match case_find_all() {
        Ok(()) => {
            passed += 1;
        }
        Err(e) => {
            failed += 1;
            errors.push(("case_find_all", e));
        }
    }
    match case_find_all_empty() {
        Ok(()) => {
            passed += 1;
        }
        Err(e) => {
            failed += 1;
            errors.push(("case_find_all_empty", e));
        }
    }
    match case_find_no_results() {
        Ok(()) => {
            passed += 1;
        }
        Err(e) => {
            failed += 1;
            errors.push(("case_find_no_results", e));
        }
    }
    match case_find_one() {
        Ok(()) => {
            passed += 1;
        }
        Err(e) => {
            failed += 1;
            errors.push(("case_find_one", e));
        }
    }
    match case_find_where() {
        Ok(()) => {
            passed += 1;
        }
        Err(e) => {
            failed += 1;
            errors.push(("case_find_where", e));
        }
    }
    match case_from_sql_all_types() {
        Ok(()) => {
            passed += 1;
        }
        Err(e) => {
            failed += 1;
            errors.push(("case_from_sql_all_types", e));
        }
    }
    match case_from_sql_bool() {
        Ok(()) => {
            passed += 1;
        }
        Err(e) => {
            failed += 1;
            errors.push(("case_from_sql_bool", e));
        }
    }
    match case_from_sql_bytes() {
        Ok(()) => {
            passed += 1;
        }
        Err(e) => {
            failed += 1;
            errors.push(("case_from_sql_bytes", e));
        }
    }
    match case_from_sql_f64() {
        Ok(()) => {
            passed += 1;
        }
        Err(e) => {
            failed += 1;
            errors.push(("case_from_sql_f64", e));
        }
    }
    match case_from_sql_i32() {
        Ok(()) => {
            passed += 1;
        }
        Err(e) => {
            failed += 1;
            errors.push(("case_from_sql_i32", e));
        }
    }
    match case_from_sql_i64() {
        Ok(()) => {
            passed += 1;
        }
        Err(e) => {
            failed += 1;
            errors.push(("case_from_sql_i64", e));
        }
    }
    match case_from_sql_null() {
        Ok(()) => {
            passed += 1;
        }
        Err(e) => {
            failed += 1;
            errors.push(("case_from_sql_null", e));
        }
    }
    match case_from_sql_string() {
        Ok(()) => {
            passed += 1;
        }
        Err(e) => {
            failed += 1;
            errors.push(("case_from_sql_string", e));
        }
    }
    match case_insert_and_find_by_id() {
        Ok(()) => {
            passed += 1;
        }
        Err(e) => {
            failed += 1;
            errors.push(("case_insert_and_find_by_id", e));
        }
    }
    match case_insert_multiple() {
        Ok(()) => {
            passed += 1;
        }
        Err(e) => {
            failed += 1;
            errors.push(("case_insert_multiple", e));
        }
    }
    match case_insert_with_explicit_id() {
        Ok(()) => {
            passed += 1;
        }
        Err(e) => {
            failed += 1;
            errors.push(("case_insert_with_explicit_id", e));
        }
    }
    match case_join_clause_debug() {
        Ok(()) => {
            passed += 1;
        }
        Err(e) => {
            failed += 1;
            errors.push(("case_join_clause_debug", e));
        }
    }
    match case_join_sql_generation() {
        Ok(()) => {
            passed += 1;
        }
        Err(e) => {
            failed += 1;
            errors.push(("case_join_sql_generation", e));
        }
    }
    match case_join_type_clone() {
        Ok(()) => {
            passed += 1;
        }
        Err(e) => {
            failed += 1;
            errors.push(("case_join_type_clone", e));
        }
    }
    match case_join_type_debug() {
        Ok(()) => {
            passed += 1;
        }
        Err(e) => {
            failed += 1;
            errors.push(("case_join_type_debug", e));
        }
    }
    match case_join_type_sql() {
        Ok(()) => {
            passed += 1;
        }
        Err(e) => {
            failed += 1;
            errors.push(("case_join_type_sql", e));
        }
    }
    match case_limit_offset_order() {
        Ok(()) => {
            passed += 1;
        }
        Err(e) => {
            failed += 1;
            errors.push(("case_limit_offset_order", e));
        }
    }
    match case_limit_zero() {
        Ok(()) => {
            passed += 1;
        }
        Err(e) => {
            failed += 1;
            errors.push(("case_limit_zero", e));
        }
    }
    match case_model_empty_string() {
        Ok(()) => {
            passed += 1;
        }
        Err(e) => {
            failed += 1;
            errors.push(("case_model_empty_string", e));
        }
    }
    match case_model_from_row_error() {
        Ok(()) => {
            passed += 1;
        }
        Err(e) => {
            failed += 1;
            errors.push(("case_model_from_row_error", e));
        }
    }
    match case_model_large_id() {
        Ok(()) => {
            passed += 1;
        }
        Err(e) => {
            failed += 1;
            errors.push(("case_model_large_id", e));
        }
    }
    match case_model_negative_age() {
        Ok(()) => {
            passed += 1;
        }
        Err(e) => {
            failed += 1;
            errors.push(("case_model_negative_age", e));
        }
    }
    match case_model_special_chars() {
        Ok(()) => {
            passed += 1;
        }
        Err(e) => {
            failed += 1;
            errors.push(("case_model_special_chars", e));
        }
    }
    match case_model_to_values_roundtrip() {
        Ok(()) => {
            passed += 1;
        }
        Err(e) => {
            failed += 1;
            errors.push(("case_model_to_values_roundtrip", e));
        }
    }
    match case_model_trait_methods() {
        Ok(()) => {
            passed += 1;
        }
        Err(e) => {
            failed += 1;
            errors.push(("case_model_trait_methods", e));
        }
    }
    match case_model_unicode() {
        Ok(()) => {
            passed += 1;
        }
        Err(e) => {
            failed += 1;
            errors.push(("case_model_unicode", e));
        }
    }
    match case_multiple_conditions() {
        Ok(()) => {
            passed += 1;
        }
        Err(e) => {
            failed += 1;
            errors.push(("case_multiple_conditions", e));
        }
    }
    match case_null_value() {
        Ok(()) => {
            passed += 1;
        }
        Err(e) => {
            failed += 1;
            errors.push(("case_null_value", e));
        }
    }
    match case_offset_beyond_data() {
        Ok(()) => {
            passed += 1;
        }
        Err(e) => {
            failed += 1;
            errors.push(("case_offset_beyond_data", e));
        }
    }
    match case_order_multiple_columns() {
        Ok(()) => {
            passed += 1;
        }
        Err(e) => {
            failed += 1;
            errors.push(("case_order_multiple_columns", e));
        }
    }
    match case_pool_get_and_return() {
        Ok(()) => {
            passed += 1;
        }
        Err(e) => {
            failed += 1;
            errors.push(("case_pool_get_and_return", e));
        }
    }
    match case_primary_key() {
        Ok(()) => {
            passed += 1;
        }
        Err(e) => {
            failed += 1;
            errors.push(("case_primary_key", e));
        }
    }
    match case_query_builder_table_name() {
        Ok(()) => {
            passed += 1;
        }
        Err(e) => {
            failed += 1;
            errors.push(("case_query_builder_table_name", e));
        }
    }
    match case_result_type_alias() {
        Ok(()) => {
            passed += 1;
        }
        Err(e) => {
            failed += 1;
            errors.push(("case_result_type_alias", e));
        }
    }
    match case_table_name() {
        Ok(()) => {
            passed += 1;
        }
        Err(e) => {
            failed += 1;
            errors.push(("case_table_name", e));
        }
    }
    match case_to_sql_all_types() {
        Ok(()) => {
            passed += 1;
        }
        Err(e) => {
            failed += 1;
            errors.push(("case_to_sql_all_types", e));
        }
    }
    match case_to_sql_bool() {
        Ok(()) => {
            passed += 1;
        }
        Err(e) => {
            failed += 1;
            errors.push(("case_to_sql_bool", e));
        }
    }
    match case_to_sql_bytes() {
        Ok(()) => {
            passed += 1;
        }
        Err(e) => {
            failed += 1;
            errors.push(("case_to_sql_bytes", e));
        }
    }
    match case_to_sql_f64() {
        Ok(()) => {
            passed += 1;
        }
        Err(e) => {
            failed += 1;
            errors.push(("case_to_sql_f64", e));
        }
    }
    match case_to_sql_i32() {
        Ok(()) => {
            passed += 1;
        }
        Err(e) => {
            failed += 1;
            errors.push(("case_to_sql_i32", e));
        }
    }
    match case_to_sql_i64() {
        Ok(()) => {
            passed += 1;
        }
        Err(e) => {
            failed += 1;
            errors.push(("case_to_sql_i64", e));
        }
    }
    match case_to_sql_option() {
        Ok(()) => {
            passed += 1;
        }
        Err(e) => {
            failed += 1;
            errors.push(("case_to_sql_option", e));
        }
    }
    match case_to_sql_option_none() {
        Ok(()) => {
            passed += 1;
        }
        Err(e) => {
            failed += 1;
            errors.push(("case_to_sql_option_none", e));
        }
    }
    match case_to_sql_option_some() {
        Ok(()) => {
            passed += 1;
        }
        Err(e) => {
            failed += 1;
            errors.push(("case_to_sql_option_some", e));
        }
    }
    match case_to_sql_str() {
        Ok(()) => {
            passed += 1;
        }
        Err(e) => {
            failed += 1;
            errors.push(("case_to_sql_str", e));
        }
    }
    match case_to_sql_string() {
        Ok(()) => {
            passed += 1;
        }
        Err(e) => {
            failed += 1;
            errors.push(("case_to_sql_string", e));
        }
    }
    match case_to_sql_str_ref() {
        Ok(()) => {
            passed += 1;
        }
        Err(e) => {
            failed += 1;
            errors.push(("case_to_sql_str_ref", e));
        }
    }
    match case_to_values_and_from_row() {
        Ok(()) => {
            passed += 1;
        }
        Err(e) => {
            failed += 1;
            errors.push(("case_to_values_and_from_row", e));
        }
    }
    match case_transaction_auto_rollback_on_drop() {
        Ok(()) => {
            passed += 1;
        }
        Err(e) => {
            failed += 1;
            errors.push(("case_transaction_auto_rollback_on_drop", e));
        }
    }
    match case_transaction_commit() {
        Ok(()) => {
            passed += 1;
        }
        Err(e) => {
            failed += 1;
            errors.push(("case_transaction_commit", e));
        }
    }
    match case_transaction_commit_then_drop() {
        Ok(()) => {
            passed += 1;
        }
        Err(e) => {
            failed += 1;
            errors.push(("case_transaction_commit_then_drop", e));
        }
    }
    match case_transaction_count() {
        Ok(()) => {
            passed += 1;
        }
        Err(e) => {
            failed += 1;
            errors.push(("case_transaction_count", e));
        }
    }
    match case_transaction_explicit_rollback() {
        Ok(()) => {
            passed += 1;
        }
        Err(e) => {
            failed += 1;
            errors.push(("case_transaction_explicit_rollback", e));
        }
    }
    match case_transaction_find_one() {
        Ok(()) => {
            passed += 1;
        }
        Err(e) => {
            failed += 1;
            errors.push(("case_transaction_find_one", e));
        }
    }
    match case_transaction_find_where() {
        Ok(()) => {
            passed += 1;
        }
        Err(e) => {
            failed += 1;
            errors.push(("case_transaction_find_where", e));
        }
    }
    match case_transaction_limit_offset_order() {
        Ok(()) => {
            passed += 1;
        }
        Err(e) => {
            failed += 1;
            errors.push(("case_transaction_limit_offset_order", e));
        }
    }
    match case_transaction_multiple_ops() {
        Ok(()) => {
            passed += 1;
        }
        Err(e) => {
            failed += 1;
            errors.push(("case_transaction_multiple_ops", e));
        }
    }
    match case_transaction_rollback() {
        Ok(()) => {
            passed += 1;
        }
        Err(e) => {
            failed += 1;
            errors.push(("case_transaction_rollback", e));
        }
    }
    match case_transaction_update_model() {
        Ok(()) => {
            passed += 1;
        }
        Err(e) => {
            failed += 1;
            errors.push(("case_transaction_update_model", e));
        }
    }
    match case_transaction_where_in() {
        Ok(()) => {
            passed += 1;
        }
        Err(e) => {
            failed += 1;
            errors.push(("case_transaction_where_in", e));
        }
    }
    match case_transaction_where_model() {
        Ok(()) => {
            passed += 1;
        }
        Err(e) => {
            failed += 1;
            errors.push(("case_transaction_where_model", e));
        }
    }
    match case_unique_constraint() {
        Ok(()) => {
            passed += 1;
        }
        Err(e) => {
            failed += 1;
            errors.push(("case_unique_constraint", e));
        }
    }
    match case_update_model() {
        Ok(()) => {
            passed += 1;
        }
        Err(e) => {
            failed += 1;
            errors.push(("case_update_model", e));
        }
    }
    match case_update_model_no_fields() {
        Ok(()) => {
            passed += 1;
        }
        Err(e) => {
            failed += 1;
            errors.push(("case_update_model_no_fields", e));
        }
    }
    match case_update_one() {
        Ok(()) => {
            passed += 1;
        }
        Err(e) => {
            failed += 1;
            errors.push(("case_update_one", e));
        }
    }
    match case_update_one_zero_rows() {
        Ok(()) => {
            passed += 1;
        }
        Err(e) => {
            failed += 1;
            errors.push(("case_update_one_zero_rows", e));
        }
    }
    match case_update_without_where() {
        Ok(()) => {
            passed += 1;
        }
        Err(e) => {
            failed += 1;
            errors.push(("case_update_without_where", e));
        }
    }
    match case_value_clone() {
        Ok(()) => {
            passed += 1;
        }
        Err(e) => {
            failed += 1;
            errors.push(("case_value_clone", e));
        }
    }
    match case_value_clone_and_debug() {
        Ok(()) => {
            passed += 1;
        }
        Err(e) => {
            failed += 1;
            errors.push(("case_value_clone_and_debug", e));
        }
    }
    match case_value_conversions() {
        Ok(()) => {
            passed += 1;
        }
        Err(e) => {
            failed += 1;
            errors.push(("case_value_conversions", e));
        }
    }
    match case_value_debug() {
        Ok(()) => {
            passed += 1;
        }
        Err(e) => {
            failed += 1;
            errors.push(("case_value_debug", e));
        }
    }
    match case_value_default() {
        Ok(()) => {
            passed += 1;
        }
        Err(e) => {
            failed += 1;
            errors.push(("case_value_default", e));
        }
    }
    match case_value_default_impl() {
        Ok(()) => {
            passed += 1;
        }
        Err(e) => {
            failed += 1;
            errors.push(("case_value_default_impl", e));
        }
    }
    match case_value_display() {
        Ok(()) => {
            passed += 1;
        }
        Err(e) => {
            failed += 1;
            errors.push(("case_value_display", e));
        }
    }
    match case_value_from() {
        Ok(()) => {
            passed += 1;
        }
        Err(e) => {
            failed += 1;
            errors.push(("case_value_from", e));
        }
    }
    match case_value_from_bool() {
        Ok(()) => {
            passed += 1;
        }
        Err(e) => {
            failed += 1;
            errors.push(("case_value_from_bool", e));
        }
    }
    match case_value_from_bytes() {
        Ok(()) => {
            passed += 1;
        }
        Err(e) => {
            failed += 1;
            errors.push(("case_value_from_bytes", e));
        }
    }
    match case_value_from_f64() {
        Ok(()) => {
            passed += 1;
        }
        Err(e) => {
            failed += 1;
            errors.push(("case_value_from_f64", e));
        }
    }
    match case_value_from_i32() {
        Ok(()) => {
            passed += 1;
        }
        Err(e) => {
            failed += 1;
            errors.push(("case_value_from_i32", e));
        }
    }
    match case_value_from_i64() {
        Ok(()) => {
            passed += 1;
        }
        Err(e) => {
            failed += 1;
            errors.push(("case_value_from_i64", e));
        }
    }
    match case_value_from_impls() {
        Ok(()) => {
            passed += 1;
        }
        Err(e) => {
            failed += 1;
            errors.push(("case_value_from_impls", e));
        }
    }
    match case_value_from_str() {
        Ok(()) => {
            passed += 1;
        }
        Err(e) => {
            failed += 1;
            errors.push(("case_value_from_str", e));
        }
    }
    match case_value_partial_eq() {
        Ok(()) => {
            passed += 1;
        }
        Err(e) => {
            failed += 1;
            errors.push(("case_value_partial_eq", e));
        }
    }
    match case_where_eq_and_find() {
        Ok(()) => {
            passed += 1;
        }
        Err(e) => {
            failed += 1;
            errors.push(("case_where_eq_and_find", e));
        }
    }
    match case_where_in() {
        Ok(()) => {
            passed += 1;
        }
        Err(e) => {
            failed += 1;
            errors.push(("case_where_in", e));
        }
    }
    match case_where_in_empty() {
        Ok(()) => {
            passed += 1;
        }
        Err(e) => {
            failed += 1;
            errors.push(("case_where_in_empty", e));
        }
    }
    match case_where_model() {
        Ok(()) => {
            passed += 1;
        }
        Err(e) => {
            failed += 1;
            errors.push(("case_where_model", e));
        }
    }

    println!("\n=== Test Results ===");
    println!("Passed: {}", passed);
    println!("Failed: {}", failed);
    for (name, err) in &errors {
        println!("  FAIL {}: {}", name, err.to_display_string());
    }
    if failed > 0 {
        panic!("{} tests failed", failed);
    }
}

fn two_users(qb: &mut QueryBuilder<'_, TestUser>) -> Result<(), Error> {
    qb.insert(&TestUser { id: 0, name: "Alice".into(), email: "alice@test.com".into(), age: 30 })?;
    qb.insert(&TestUser { id: 0, name: "Bob".into(), email: "bob@test.com".into(), age: 25 })?;
    Ok(())
}

#[test]
fn find_all_ignores_chained_conditions() {
    let (mut pool, _) = setup().unwrap();
    let mut conn = pool.get().unwrap();
    let mut qb = QueryBuilder::<TestUser>::new(conn.driver_mut());
    two_users(&mut qb).unwrap();
    qb.where_eq("age", Value::from(30)).limit(1);
    let all = qb.find_all().unwrap();
    assert_eq!(all.len(), 2);
    // the chain was reset by find_all
    assert_eq!(qb.find().unwrap().len(), 2);
}

#[test]
fn where_in_refuses_a_column_that_is_not_an_identifier() {
    let (mut pool, _) = setup().unwrap();
    let mut conn = pool.get().unwrap();
    let mut qb = QueryBuilder::<TestUser>::new(conn.driver_mut());
    two_users(&mut qb).unwrap();
    let r = qb.where_in("name) OR 1=1 --", vec![Value::from("Alice")]).find();
    match r {
        Err(Error::SqlInjection(m)) => assert_eq!(m, "invalid identifier: name) OR 1=1 --"),
        other => panic!("expected an injection error, got {:?}", other),
    }
    // the refusal is spent: the next query runs with an empty chain
    assert_eq!(qb.find().unwrap().len(), 2);
    let users = qb.where_in("name", vec![Value::from("Alice")]).find().unwrap();
    assert_eq!(users.len(), 1);
}

#[test]
fn order_and_join_refusals_reach_the_next_statement() {
    let (mut pool, _) = setup().unwrap();
    let mut conn = pool.get().unwrap();
    let mut qb = QueryBuilder::<TestUser>::new(conn.driver_mut());
    two_users(&mut qb).unwrap();
    assert!(matches!(qb.order("age; DROP TABLE test_users", true).count(), Err(Error::SqlInjection(_))));
    assert!(matches!(
        qb.left_join("orders", "1=1 OR 1=1 --").find(),
        Err(Error::SqlInjection(m)) if m == "suspicious pattern in: 1=1 OR 1=1 --"
    ));
    assert!(matches!(qb.inner_join("x y", "a = b").delete(), Err(Error::SqlInjection(_))));
    assert_eq!(qb.count().unwrap(), 2);
}

#[test]
fn validate_identifier_accepts_only_plain_names() {
    assert!(grorm::validate_identifier("user_name").is_ok());
    assert!(grorm::validate_identifier("Col9").is_ok());
    match grorm::validate_identifier("user;drop") {
        Err(Error::SqlInjection(m)) => assert_eq!(m, "invalid identifier: user;drop"),
        other => panic!("unexpected {:?}", other),
    }
    assert!(grorm::validate_identifier("").is_err());
    assert!(grorm::validate_identifier("a.b").is_err());
}

#[test]
fn check_sql_injection_finds_the_documented_patterns() {
    assert!(grorm::check_sql_injection("Alice'--").is_err());
    assert!(grorm::check_sql_injection("'; DROP TABLE users").is_err());
    assert!(grorm::check_sql_injection("' OR 1=1").is_err());
    assert!(grorm::check_sql_injection("x /* y").is_err());
    assert!(grorm::check_sql_injection("a # b").is_err());
    assert!(grorm::check_sql_injection("1 and 1=1").is_err());
    assert!(grorm::check_sql_injection(";\n  select 1").is_err());
    assert!(grorm::check_sql_injection("Alice").is_ok());
    assert!(grorm::check_sql_injection("a; b").is_ok());
    assert!(grorm::check_sql_injection("users.id = orders.user_id").is_ok());
    match grorm::check_sql_injection("' OR 1=1") {
        Err(Error::SqlInjection(m)) => assert_eq!(m, "suspicious pattern in: ' OR 1=1"),
        other => panic!("unexpected {:?}", other),
    }
}

#[test]
fn select_builder_where_in_uses_placeholders() {
    let (sql, params) = SelectBuilder::new("users")
        .where_eq("age", Value::from(30))
        .where_in("id", vec![Value::from(1), Value::from(2), Value::from(3)])
        .where_null("deleted_at")
        .build();
    assert_eq!(sql, "SELECT * FROM users WHERE age = ? AND id IN (?, ?, ?) AND deleted_at IS NULL");
    assert_eq!(params, vec![Value::from(30), Value::from(1), Value::from(2), Value::from(3)]);
}

#[test]
fn error_from_str_is_a_protocol_error() {
    let e = Error::from("test error");
    assert!(matches!(&e, Error::Protocol(m) if m == "test error"));
    assert_eq!(e.to_display_string(), "protocol error: test error");
    let s = Error::SqlInjection("x".to_string());
    assert_eq!(s.to_display_string(), "sql injection: x");
    assert_eq!(s.variant_name(), "SqlInjection");
}

#[test]
fn pool_is_exhausted_once_every_connection_is_out() {
    let config = ConnectionConfig::sqlite(":memory:");
    let mut pool = ConnectionPool::new(SqliteDriverFactory, config, 1);
    assert!(!pool.exhausted());
    let c = pool.get().unwrap();
    assert!(c.driver().is_connected());
    assert!(pool.exhausted());
    assert!(matches!(pool.get(), Err(Error::Pool(_))));
    pool.release(c);
    assert!(!pool.exhausted());
    assert!(pool.get().is_ok());
}

#[test]
fn row_push_keeps_earlier_cells_and_first_name_wins() {
    let mut r = Row::new();
    r.push(Column::new("a", DataType::Text), Some("1".to_string()));
    r.push(Column::new("b", DataType::Int4).not_null(), None);
    r.push(Column::new("a", DataType::Text), Some("3".to_string()));
    assert_eq!(r.column_count(), 3);
    assert_eq!(r.get(0), Some("1"));
    assert_eq!(r.get(1), None);
    assert_eq!(r.get(2), Some("3"));
    assert_eq!(r.get_by_name("a"), Some("1"));
    assert_eq!(r.get_by_name("c"), None);
    let mut it = r.iter();
    let (c0, v0) = it.next().unwrap();
    assert_eq!(c0.name, "a");
    assert_eq!(v0, Some("1"));
    let (c1, v1) = it.next().unwrap();
    assert_eq!(c1.name, "b");
    assert!(!c1.nullable);
    assert_eq!(v1, None);
    assert!(it.next().is_some());
    assert!(it.next().is_none());
}

#[test]
fn insert_builder_has_one_placeholder_per_value() {
    let (s0, p0) = grorm::query::InsertBuilder::new("users").columns(&["name", "age"]).values(vec![
        Value::from("a"),
        Value::from(1),
    ]).build();
    assert_eq!(s0, "INSERT INTO users (name, age) VALUES (?, ?)");
    let (s1, p1) = grorm::query::InsertBuilder::new("users")
        .columns(&["name", "age"])
        .values(vec![Value::from("a"), Value::from(1)])
        .values(vec![Value::from("b"), Value::from(2)])
        .build();
    assert_eq!(s1, "INSERT INTO users (name, age) VALUES (?, ?), (?, ?)");
    assert_eq!(p1.len(), p0.len() + 2);
    assert_eq!(s1.matches('?').count(), p1.len());
}

#[test]
fn select_builder_columns_keep_the_rest_of_the_statement() {
    let b = SelectBuilder::new("users").where_gt("age", Value::from(18)).limit(5);
    let (s0, p0) = b.build();
    let (s1, p1) = b.columns(&["id", "name"]).build();
    assert_eq!(s0, "SELECT * FROM users WHERE age > ? LIMIT 5");
    assert_eq!(s1, "SELECT id, name FROM users WHERE age > ? LIMIT 5");
    assert_eq!(p0, p1);
    assert_eq!(s1.matches('?').count(), p1.len());
}

#[test]
fn statements_with_injection_patterns_do_not_reach_the_driver() {
    let (mut pool, _) = setup().unwrap();
    let mut conn = pool.get().unwrap();
    let mut qb = QueryBuilder::<TestUser>::new(conn.driver_mut());
    two_users(&mut qb).unwrap();
    let r = qb.where_eq("age = 1 OR 1=1 --", Value::from(0)).delete();
    match r {
        Err(Error::SqlInjection(m)) => assert!(m.starts_with("suspicious pattern in: DELETE FROM test_users WHERE")),
        other => panic!("expected an injection error, got {:?}", other),
    }
    assert_eq!(qb.count().unwrap(), 2);
    assert!(matches!(qb.find_where("name; drop table test_users", Value::from("x")), Err(Error::SqlInjection(_))));
    assert_eq!(qb.find_all().unwrap().len(), 2);
}

#[test]
fn schema_of_fields_marks_the_integer_primary_key() {
    let s = grorm::orm::model::schema_of_fields(&[("id", "i64"), ("name", "String"), ("code", "String")], "id");
    assert_eq!(s.len(), 3);
    assert_eq!(s[0].name, "id");
    assert!(s[0].is_primary_key && s[0].is_auto_increment);
    assert!(!s[1].is_primary_key && !s[1].is_auto_increment && !s[1].is_index && !s[1].is_unique);
    let t = grorm::orm::model::schema_of_fields(&[("code", "String")], "code");
    assert!(t[0].is_primary_key && !t[0].is_auto_increment);
}

#[test]
fn io_error_display_starts_with_its_prefix() {
    let e = Error::from(std::io::Error::new(std::io::ErrorKind::NotFound, "file not found"));
    assert_eq!(e.to_display_string(), "io error: file not found");
    assert!(e.has_source());
}
