//! Type mapping between Rust values and SQL values.
pub mod value;
pub mod to_sql;
pub mod from_sql;
pub mod id;

pub use value::{FloatValue, Value, ValueModel};
pub use to_sql::ToSql;
pub use from_sql::FromSql;
pub use id::Id;
pub mod laws;
