//! An object-relational mapper: SQL builders, a value model, drivers, a
//! connection pool and an in-memory storage engine for the embedded backend.
pub mod text;
pub mod error;
pub mod hexenc;
pub mod types;
pub mod driver;
pub mod query;
pub mod orm;
pub mod protocol;
pub mod pool;

pub use driver::{ConnectionConfig, DatabaseDriver, DatabaseType, DriverFactory};
pub use driver::{MysqlDriver, MysqlDriverFactory};
pub use driver::{SqliteDriver, SqliteDriverFactory};
pub use error::{Error, Result};
pub use orm::{ColumnInfo, JoinClause, JoinType, Model, QueryBuilder, Transaction};
pub use orm::query::{check_sql_injection, validate_identifier};
pub use pool::{ConnectionPool, PoolConnection};
pub use types::{FromSql, Id, ToSql, Value};
