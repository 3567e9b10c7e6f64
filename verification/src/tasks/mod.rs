//! The task store: task records, the rows that persist them, and the
//! operations of the store.

pub mod db;
pub mod error;
pub mod models;
pub mod outside;
pub mod record;
pub mod table;
