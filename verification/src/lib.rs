//! Verified planning and protocol logic for replicating PostgreSQL tables into Apache Cloudberry.

pub mod apply;
pub mod change;
pub mod checkpoint;
pub mod chunk;
pub mod copy;
pub mod digest;
pub mod ident;
pub mod lsn;
pub mod managed;
pub mod migration;
pub mod order;
pub mod reconciliation;
pub mod reconciliation_reader;
pub mod schema;
pub mod schema_event;
pub mod snapshot;
pub mod source;
pub mod sql;
pub mod storage;
pub mod table_transition;
pub mod text;
pub mod type_reading;
pub mod version;
