//! The object-relational mapping layer.
pub mod model;
pub mod query;
pub mod sqltype;
pub mod ddl;
pub mod transaction;
pub mod injection;

pub use model::{ColumnInfo, Model};
pub use query::{JoinClause, JoinType, QueryBuilder};
pub use transaction::Transaction;
