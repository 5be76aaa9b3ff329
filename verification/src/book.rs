//! Book records and the errors the inventory reports.

use vstd::prelude::*;

verus! {

/// One catalog record: a book, identified by the id the inventory assigned
/// to it when it was added. `available` is `true` while the book sits on the
/// shelf and `false` while it is checked out.
#[derive(Debug)]
pub struct Book {
    pub id: u32,
    pub title: String,
    pub author: String,
    pub available: bool,
}

/// The mathematical abstraction of a [`Book`]: the same four fields, with
/// the strings seen as sequences of characters.
pub ghost struct BookView {
    pub id: u32,
    pub title: Seq<char>,
    pub author: Seq<char>,
    pub available: bool,
}

impl View for Book {
    type V = BookView;

    open spec fn view(&self) -> BookView {
        BookView {
            id: self.id,
            title: self.title@,
            author: self.author@,
            available: self.available,
        }
    }
}

impl Clone for Book {
    /// Cloning a book keeps every field.
    fn clone(&self) -> (r: Book)
        ensures
            r@ == self@,
    {
        Book {
            id: self.id,
            title: self.title.clone(),
            author: self.author.clone(),
            available: self.available,
        }
    }
}

/// `b` with its availability flag set to `a` and every other field kept.
pub open spec fn with_available(b: BookView, a: bool) -> BookView {
    BookView { available: a, ..b }
}

/// Why the inventory refused an operation.
#[derive(Clone, Copy, Debug, PartialEq, Eq, Structural)]
pub enum LibError {
    /// No book with the given id was ever added.
    NotFound,
    /// The book is already checked out, so it cannot be borrowed.
    AlreadyBorrowed,
    /// The book is not checked out, so it cannot be returned.
    NotBorrowed,
}

} // verus!
