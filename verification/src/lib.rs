//! An in-memory inventory for a small lending library.
//!
//! The inventory registers books, lists those on the shelf and those checked
//! out, and toggles a book between the two states by borrowing and returning.
//! Every operation carries a contract that pins down its result and its
//! effect on the catalog, and the laws that relate the operations are proved
//! in [`laws`].

pub mod book;
pub mod inventory;
pub mod laws;
