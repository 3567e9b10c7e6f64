//! Rules of the notes application: which entries of a directory it lists
//! and in what order, how it exports and prints a note, and what of a
//! pasted picture it stores.

pub mod export;
pub mod image;
pub mod listing;
pub mod outside;
pub mod print;
