use book_inventory::book::{Book, LibError};
use book_inventory::inventory::Library;

fn find_book(list: &[Book], id: u32) -> Option<&Book> {
    list.iter().find(|b| b.id == id)
}

#[test]
fn new_inventory_is_empty() {
    let lib = Library::new();
    assert_eq!(lib.count(), 0);
    assert!(lib.list_available().is_empty());
    assert!(lib.list_borrowed().is_empty());
}

#[test]
fn add_returns_strictly_increasing_ids() {
    let mut lib = Library::new();
    let a = lib.add_book("The Rust Programming Language", "Steve Klabnik and Carol Nichols");
    let b = lib.add_book("Clean Code", "Robert C. Martin");
    let c = lib.add_book("The Pragmatic Programmer", "Andrew Hunt and David Thomas");
    assert_eq!(a, 1);
    assert_eq!(b, 2);
    assert_eq!(c, 3);
    assert!(a < b && b < c);
    assert_eq!(lib.count(), 3);
    // ids are never reused: every id in the catalog is distinct
    let all: Vec<u32> = lib.list_available().iter().map(|bk| bk.id).collect();
    assert_eq!(all, vec![1, 2, 3]);
}

#[test]
fn added_book_is_available_not_borrowed() {
    let mut lib = Library::new();
    let k = lib.add_book("Design Patterns", "Erich Gamma");
    let avail = lib.list_available();
    let found = find_book(&avail, k).expect("the new book must be listed");
    assert_eq!(found.title, "Design Patterns");
    assert_eq!(found.author, "Erich Gamma");
    assert!(found.available);
    assert!(find_book(&lib.list_borrowed(), k).is_none());
}

#[test]
fn empty_strings_are_accepted_as_is() {
    let mut lib = Library::new();
    let k = lib.add_book("", "");
    let avail = lib.list_available();
    let found = find_book(&avail, k).expect("the new book must be listed");
    assert_eq!(found.title, "");
    assert_eq!(found.author, "");
}

#[test]
fn borrow_moves_book_and_second_borrow_fails() {
    let mut lib = Library::new();
    let k = lib.add_book("Clean Code", "Robert C. Martin");
    let r = lib.borrow(k);
    assert_eq!(r, Ok(String::from("Clean Code")));
    assert!(find_book(&lib.list_available(), k).is_none());
    let borrowed = lib.list_borrowed();
    let found = find_book(&borrowed, k).expect("the borrowed book must be listed");
    assert_eq!(found.title, "Clean Code");
    assert_eq!(found.author, "Robert C. Martin");
    assert!(!found.available);

    // borrowing again fails and leaves the state unchanged
    let again = lib.borrow(k);
    assert_eq!(again, Err(LibError::AlreadyBorrowed));
    assert!(find_book(&lib.list_available(), k).is_none());
    assert_eq!(lib.list_borrowed().len(), 1);
    assert_eq!(lib.count(), 1);
}

#[test]
fn return_moves_book_back_and_second_return_fails() {
    let mut lib = Library::new();
    let k = lib.add_book("Clean Code", "Robert C. Martin");
    lib.borrow(k).unwrap();
    let r = lib.return_book(k);
    assert_eq!(r, Ok(String::from("Clean Code")));
    let avail = lib.list_available();
    let found = find_book(&avail, k).expect("the returned book must be listed");
    assert_eq!(found.title, "Clean Code");
    assert!(found.available);
    assert!(find_book(&lib.list_borrowed(), k).is_none());

    // returning again fails and leaves the state unchanged
    let again = lib.return_book(k);
    assert_eq!(again, Err(LibError::NotBorrowed));
    assert_eq!(lib.list_available().len(), 1);
    assert!(lib.list_borrowed().is_empty());
}

#[test]
fn never_issued_id_is_not_found() {
    let mut lib = Library::new();
    lib.add_book("The Rust Programming Language", "Steve Klabnik and Carol Nichols");
    assert_eq!(lib.borrow(999), Err(LibError::NotFound));
    assert_eq!(lib.return_book(999), Err(LibError::NotFound));
    assert_eq!(lib.borrow(0), Err(LibError::NotFound));
    assert_eq!(lib.return_book(0), Err(LibError::NotFound));
    // nothing changed
    assert_eq!(lib.list_available().len(), 1);
    assert!(lib.list_borrowed().is_empty());
}

#[test]
fn borrow_on_empty_inventory_is_not_found() {
    let mut lib = Library::new();
    assert_eq!(lib.borrow(1), Err(LibError::NotFound));
    assert_eq!(lib.return_book(1), Err(LibError::NotFound));
}

#[test]
fn borrow_then_return_round_trip_restores_book() {
    let mut lib = Library::new();
    let k = lib.add_book("The Pragmatic Programmer", "Andrew Hunt and David Thomas");
    let before = lib.list_available();
    let before_book = find_book(&before, k).unwrap();
    let (id0, title0, author0, avail0) = (
        before_book.id,
        before_book.title.clone(),
        before_book.author.clone(),
        before_book.available,
    );

    lib.borrow(k).unwrap();
    lib.return_book(k).unwrap();

    let after = lib.list_available();
    let after_book = find_book(&after, k).expect("the book must be available again");
    assert_eq!(after_book.id, id0);
    assert_eq!(after_book.title, title0);
    assert_eq!(after_book.author, author0);
    assert_eq!(after_book.available, avail0);
    assert!(after_book.available);
}

#[test]
fn two_book_scenario() {
    let mut lib = Library::new();
    assert_eq!(lib.add_book("A", "X"), 1);
    assert_eq!(lib.add_book("B", "Y"), 2);

    let r = lib.borrow(1);
    assert_eq!(r, Ok(String::from("A")));

    let avail = lib.list_available();
    assert_eq!(avail.len(), 1);
    let b2 = find_book(&avail, 2).expect("book 2 must still be available");
    assert_eq!(b2.title, "B");
    assert_eq!(b2.author, "Y");

    let borrowed = lib.list_borrowed();
    assert_eq!(borrowed.len(), 1);
    let b1 = find_book(&borrowed, 1).expect("book 1 must be borrowed");
    assert_eq!(b1.title, "A");
    assert_eq!(b1.author, "X");

    assert_eq!(lib.return_book(1), Ok(String::from("A")));

    // order-independent: both books available, each with its own record
    let avail = lib.list_available();
    assert_eq!(avail.len(), 2);
    let b1 = find_book(&avail, 1).expect("book 1 must be available again");
    assert_eq!((b1.title.as_str(), b1.author.as_str()), ("A", "X"));
    let b2 = find_book(&avail, 2).expect("book 2 must still be available");
    assert_eq!((b2.title.as_str(), b2.author.as_str()), ("B", "Y"));
    assert!(lib.list_borrowed().is_empty());
}
