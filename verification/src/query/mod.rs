//! Standalone SQL statement builders.
pub mod common;
pub mod select;
pub mod insert;
pub mod update;
pub mod delete;

pub use select::SelectBuilder;
pub use insert::InsertBuilder;
pub use update::UpdateBuilder;
pub use delete::DeleteBuilder;
