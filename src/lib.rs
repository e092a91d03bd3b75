//! Schema-driven CRUD planning and partial-record patching for records kept
//! in a PostgREST-style table store.

pub mod value;
pub mod schema;
pub mod record;
pub mod row;
pub mod crud;
pub mod connection;
