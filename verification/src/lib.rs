//! Backends of a small suite of desktop applications.
//!
//! The centre of the crate is the task store in [`tasks`]: a table of task
//! records with create, read, update, delete and search operations whose
//! behaviour is stated over a mathematical model of the table and proved.
//! The modules [`crm`], [`forms`], [`notes`] and [`pdf`] hold the data
//! models and the rules of the other applications of the suite; [`order`]
//! and [`text`] hold what several of them share.

pub mod crm;
pub mod forms;
pub mod notes;
pub mod order;
pub mod pdf;
pub mod tasks;
pub mod text;
