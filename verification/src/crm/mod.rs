//! The customer-relations application: the envelope of its responses,
//! paging, users and customers, and the rules of a login.

pub mod auth;
pub mod common;
pub mod customer;
pub mod user;
