//! The wire protocols of the network databases, the embedded storage engine
//! and the text formats it reads.
pub mod wire;
pub mod pg;
pub mod myproto;
pub mod wire_laws;
pub mod stream_laws;
pub mod sqltext;
pub mod store;
pub mod filter;
pub mod table;
pub mod sqlite_proto;
pub mod tx_laws;
pub mod table_laws;
pub mod engine_laws;

pub use myproto::{MyColumnInfo, MyResult};
pub use pg::{PgColumnInfo, PgResult};
pub use sqlite_proto::{SqliteColumnInfo, SqliteConnection, SqliteResult};
