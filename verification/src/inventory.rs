//! The inventory itself: a catalog of books and the operations on it.

use vstd::prelude::*;

use crate::book::{Book, BookView, LibError, with_available};

verus! {

/// The views of the books of `s`, in the same order.
pub open spec fn views_of(s: Seq<Book>) -> Seq<BookView> {
    s.map_values(|b: Book| b@)
}

/// The predicate that keeps the books on the shelf.
pub open spec fn avail_pred() -> spec_fn(BookView) -> bool {
    |b: BookView| b.available
}

/// The predicate that keeps the books currently checked out.
pub open spec fn borrowed_pred() -> spec_fn(BookView) -> bool {
    |b: BookView| !b.available
}

/// The available view of a catalog: the books on the shelf, in catalog order.
pub open spec fn available_books(s: Seq<BookView>) -> Seq<BookView> {
    s.filter(avail_pred())
}

/// The borrowed view of a catalog: the books checked out, in catalog order.
pub open spec fn borrowed_books(s: Seq<BookView>) -> Seq<BookView> {
    s.filter(borrowed_pred())
}

/// Some book of the catalog `s` carries the id `id`.
pub open spec fn has_book(s: Seq<BookView>, id: u32) -> bool {
    exists|i: int| 0 <= i < s.len() && (#[trigger] s[i]).id == id
}

/// A well-formed catalog: the book at index `i` carries id `i + 1`, so the
/// ids are exactly `1 ..= len`, each one held by exactly one book.
pub open spec fn wf_catalog(s: Seq<BookView>) -> bool {
    forall|i: int| 0 <= i < s.len() ==> (#[trigger] s[i]).id == i + 1
}

/// The inventory: the single source of truth for every book ever added.
///
/// Books are stored in the order they were added; the book with id `k`
/// stands at index `k - 1`. Nothing is ever removed, so the id of the next
/// book to be added is always one past the catalog's length.
pub struct Library {
    books: Vec<Book>,
    next_id: u32,
}

impl View for Library {
    type V = Seq<BookView>;

    closed spec fn view(&self) -> Seq<BookView> {
        views_of(self.books@)
    }
}

impl Library {
    /// The inventory's invariant: the catalog is well formed and the counter
    /// sits one past the last id handed out.
    pub closed spec fn wf(self) -> bool {
        &&& wf_catalog(self@)
        &&& self.next_id == self@.len() + 1
    }

    /// A well-formed inventory always has a well-formed catalog, so the laws
    /// stated over `wf_catalog` apply to every reachable inventory state.
    pub proof fn lemma_wf_catalog(self)
        requires
            self.wf(),
        ensures
            wf_catalog(self@),
    {
    }

    /// An empty inventory: no books, ids start at 1.
    pub fn new() -> (lib: Library)
        ensures
            lib.wf(),
            lib@ == Seq::<BookView>::empty(),
    {
        Library { books: Vec::new(), next_id: 1 }
    }

    /// Registers a new book: it is appended to the catalog with the next
    /// free id and starts out available. The returned id is strictly greater
    /// than every id handed out before.
    pub fn add_book(&mut self, title: &str, author: &str) -> (id: u32)
        requires
            old(self).wf(),
            old(self)@.len() + 1 < u32::MAX,
        ensures
            final(self).wf(),
            id == old(self)@.len() + 1,
            final(self)@ == old(self)@.push(
                (BookView { id: id, title: title@, author: author@, available: true }),
            ),
            forall|i: int| 0 <= i < old(self)@.len() ==> (#[trigger] old(self)@[i]).id < id,
    {
        let id = self.next_id;
        let book = Book {
            id,
            title: String::from_str(title),
            author: String::from_str(author),
            available: true,
        };
        self.books.push(book);
        self.next_id = id + 1;
        proof {
            assert(self@ =~= old(self)@.push(
                BookView { id: id, title: title@, author: author@, available: true },
            ));
        }
        id
    }

    /// Every book currently on the shelf, in catalog order.
    pub fn list_available(&self) -> (r: Vec<Book>)
        ensures
            views_of(r@) == available_books(self@),
    {
        let mut r: Vec<Book> = Vec::new();
        let n = self.books.len();
        let mut i: usize = 0;
        while i < n
            invariant
                n == self.books.len(),
                i <= n,
                views_of(r@) == available_books(self@.take(i as int)),
            decreases n - i,
        {
            let b = &self.books[i];
            proof {
                assert(self@.take(i + 1) =~= self@.take(i as int).push(self@[i as int]));
                self@.take(i as int).lemma_filter_push(self@[i as int], avail_pred());
            }
            if b.available {
                r.push(b.clone());
                proof {
                    assert(views_of(r@) =~= available_books(self@.take(i + 1)));
                }
            }
            i += 1;
        }
        proof {
            assert(self@.take(self@.len() as int) =~= self@);
        }
        r
    }

    /// Every book currently checked out, in catalog order.
    pub fn list_borrowed(&self) -> (r: Vec<Book>)
        ensures
            views_of(r@) == borrowed_books(self@),
    {
        let mut r: Vec<Book> = Vec::new();
        let n = self.books.len();
        let mut i: usize = 0;
        while i < n
            invariant
                n == self.books.len(),
                i <= n,
                views_of(r@) == borrowed_books(self@.take(i as int)),
            decreases n - i,
        {
            let b = &self.books[i];
            proof {
                assert(self@.take(i + 1) =~= self@.take(i as int).push(self@[i as int]));
                self@.take(i as int).lemma_filter_push(self@[i as int], borrowed_pred());
            }
            if !b.available {
                r.push(b.clone());
                proof {
                    assert(views_of(r@) =~= borrowed_books(self@.take(i + 1)));
                }
            }
            i += 1;
        }
        proof {
            assert(self@.take(self@.len() as int) =~= self@);
        }
        r
    }

    /// Checks a book out. Fails with `NotFound` when no book carries `id`,
    /// with `AlreadyBorrowed` when the book is already checked out; in either
    /// case the catalog is unchanged. Otherwise the book's availability flag
    /// is cleared, everything else is kept, and its title is returned.
    pub fn borrow(&mut self, id: u32) -> (r: Result<String, LibError>)
        requires
            old(self).wf(),
        ensures
            final(self).wf(),
            !has_book(old(self)@, id) ==> r == Err::<String, LibError>(LibError::NotFound)
                && final(self)@ == old(self)@,
            has_book(old(self)@, id) && !old(self)@[id - 1].available ==> r == Err::<
                String,
                LibError,
            >(LibError::AlreadyBorrowed) && final(self)@ == old(self)@,
            has_book(old(self)@, id) && old(self)@[id - 1].available ==> (r matches Ok(t)
                && t@ == old(self)@[id - 1].title) && final(self)@ == old(self)@.update(
                id - 1,
                with_available(old(self)@[id - 1], false),
            ),
    {
        if id == 0 || id as usize > self.books.len() {
            proof {
                assert(forall|i: int|
                    0 <= i < self@.len() ==> (#[trigger] self@[i]).id != id);
            }
            return Err(LibError::NotFound);
        }
        let idx = (id - 1) as usize;
        proof {
            assert(self@[idx as int].id == id);
        }
        let b = &self.books[idx];
        if !b.available {
            return Err(LibError::AlreadyBorrowed);
        }
        let title = b.title.clone();
        let updated = Book {
            id: b.id,
            title: b.title.clone(),
            author: b.author.clone(),
            available: false,
        };
        self.books.set(idx, updated);
        proof {
            assert(self@ =~= old(self)@.update(
                id - 1,
                with_available(old(self)@[id - 1], false),
            ));
        }
        Ok(title)
    }

    /// Returns a checked-out book to the shelf. Fails with `NotFound` when no
    /// book carries `id`, with `NotBorrowed` when the book is not checked
    /// out; in either case the catalog is unchanged. Otherwise the book's
    /// availability flag is set, everything else is kept, and its title is
    /// returned.
    pub fn return_book(&mut self, id: u32) -> (r: Result<String, LibError>)
        requires
            old(self).wf(),
        ensures
            final(self).wf(),
            !has_book(old(self)@, id) ==> r == Err::<String, LibError>(LibError::NotFound)
                && final(self)@ == old(self)@,
            has_book(old(self)@, id) && old(self)@[id - 1].available ==> r == Err::<
                String,
                LibError,
            >(LibError::NotBorrowed) && final(self)@ == old(self)@,
            has_book(old(self)@, id) && !old(self)@[id - 1].available ==> (r matches Ok(t)
                && t@ == old(self)@[id - 1].title) && final(self)@ == old(self)@.update(
                id - 1,
                with_available(old(self)@[id - 1], true),
            ),
    {
        if id == 0 || id as usize > self.books.len() {
            proof {
                assert(forall|i: int|
                    0 <= i < self@.len() ==> (#[trigger] self@[i]).id != id);
            }
            return Err(LibError::NotFound);
        }
        let idx = (id - 1) as usize;
        proof {
            assert(self@[idx as int].id == id);
        }
        let b = &self.books[idx];
        if b.available {
            return Err(LibError::NotBorrowed);
        }
        let title = b.title.clone();
        let updated = Book {
            id: b.id,
            title: b.title.clone(),
            author: b.author.clone(),
            available: true,
        };
        self.books.set(idx, updated);
        proof {
            assert(self@ =~= old(self)@.update(
                id - 1,
                with_available(old(self)@[id - 1], true),
            ));
        }
        Ok(title)
    }

    /// How many books the catalog holds, shelved and checked out together.
    pub fn count(&self) -> (n: usize)
        ensures
            n == self@.len(),
    {
        self.books.len()
    }
}

} // verus!
