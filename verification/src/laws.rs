//! Laws relating the inventory's operations, stated over the mathematical
//! catalog (`Seq<BookView>`) that the operations' contracts speak of, and
//! proved once and for all.

use vstd::prelude::*;

use crate::book::{BookView, with_available};
use crate::inventory::{
    avail_pred, available_books, borrowed_books, borrowed_pred, wf_catalog,
};

verus! {

/// Filtering a one-element catalog keeps or drops its single book.
proof fn lemma_filter_singleton(b: BookView, p: spec_fn(BookView) -> bool)
    ensures
        seq![b].filter(p) == if p(b) {
            seq![b]
        } else {
            Seq::<BookView>::empty()
        },
{
    reveal_with_fuel(Seq::filter, 2);
    assert(seq![b].drop_last() =~= Seq::<BookView>::empty());
    assert(seq![b].last() == b);
    if p(b) {
        assert(Seq::<BookView>::empty().push(b) =~= seq![b]);
    }
}

/// Replacing the one book of `s` that satisfies `p` at index `i` by a book
/// that does not satisfy `p` removes exactly that book from the filtered
/// view: the old view is the new one with `s[i]` put back.
proof fn lemma_filter_update_drops(
    s: Seq<BookView>,
    i: int,
    v: BookView,
    p: spec_fn(BookView) -> bool,
)
    requires
        0 <= i < s.len(),
        p(s[i]),
        !p(v),
    ensures
        s.filter(p).to_multiset() == s.update(i, v).filter(p).to_multiset().insert(s[i]),
{
    broadcast use Seq::filter_distributes_over_add;

    let t = s.take(i);
    let u = s.skip(i + 1);
    let b = s[i];
    let s2 = s.update(i, v);
    assert(s =~= (t + seq![b]) + u);
    assert(s2 =~= (t + seq![v]) + u);
    lemma_filter_singleton(b, p);
    lemma_filter_singleton(v, p);
    assert(((t + seq![b]) + u).filter(p) == ((t + seq![b]).filter(p)) + u.filter(p));
    assert((t + seq![b]).filter(p) == t.filter(p) + seq![b]);
    assert(((t + seq![v]) + u).filter(p) == ((t + seq![v]).filter(p)) + u.filter(p));
    assert((t + seq![v]).filter(p) =~= t.filter(p));
    let n = t.filter(p).len() as int;
    assert(s.filter(p) =~= s2.filter(p).insert(n, b));
    broadcast use vstd::seq_lib::to_multiset_insert;

    assert(s2.filter(p).insert(n, b).to_multiset() == s2.filter(p).to_multiset().insert(b));
}

/// Replacing the one book of `s` that fails `p` at index `i` by a book that
/// satisfies `p` adds exactly that book to the filtered view.
proof fn lemma_filter_update_adds(
    s: Seq<BookView>,
    i: int,
    v: BookView,
    p: spec_fn(BookView) -> bool,
)
    requires
        0 <= i < s.len(),
        !p(s[i]),
        p(v),
    ensures
        s.update(i, v).filter(p).to_multiset() == s.filter(p).to_multiset().insert(v),
{
    let s2 = s.update(i, v);
    lemma_filter_update_drops(s2, i, s[i], p);
    assert(s2.update(i, s[i]) =~= s);
}

/// In a well-formed catalog no two books share an id: an id handed out once
/// is never handed out again.
pub proof fn lemma_catalog_ids_unique(s: Seq<BookView>)
    requires
        wf_catalog(s),
    ensures
        forall|i: int, j: int|
            0 <= i < j < s.len() ==> (#[trigger] s[i]).id != (#[trigger] s[j]).id,
{
}

/// A newly added book (available, any title and author) appears in the
/// available view of the grown catalog and not in its borrowed view.
pub proof fn lemma_added_book_listed(s: Seq<BookView>, b: BookView)
    requires
        b.available,
    ensures
        available_books(s.push(b)).contains(b),
        !borrowed_books(s.push(b)).contains(b),
{
    broadcast use vstd::seq_lib::group_filter_ensures;

    s.lemma_filter_push(b, avail_pred());
    s.lemma_filter_push(b, borrowed_pred());
    assert(available_books(s.push(b)) == available_books(s).push(b));
    assert(available_books(s).push(b)[available_books(s).len() as int] == b);
}

/// Borrowing the available book at index `k - 1` (the book with id `k`)
/// moves it: the available view loses exactly that book, and the borrowed
/// view gains exactly its checked-out form. No other book is touched.
pub proof fn lemma_borrow_moves_book(s: Seq<BookView>, k: u32)
    requires
        wf_catalog(s),
        1 <= k <= s.len(),
        s[k - 1].available,
    ensures
        available_books(s).to_multiset() == available_books(
            s.update(k - 1, with_available(s[k - 1], false)),
        ).to_multiset().insert(s[k - 1]),
        borrowed_books(s.update(k - 1, with_available(s[k - 1], false))).to_multiset()
            == borrowed_books(s).to_multiset().insert(with_available(s[k - 1], false)),
{
    let b = s[k - 1];
    let b2 = with_available(b, false);
    assert(avail_pred()(b));
    assert(borrowed_pred()(b2));
    lemma_filter_update_drops(s, k - 1, b2, avail_pred());
    lemma_filter_update_adds(s, k - 1, b2, borrowed_pred());
}

/// Returning the checked-out book at index `k - 1` (the book with id `k`)
/// moves it back: the borrowed view loses exactly that book, and the
/// available view gains exactly its shelved form. No other book is touched.
pub proof fn lemma_return_moves_book(s: Seq<BookView>, k: u32)
    requires
        wf_catalog(s),
        1 <= k <= s.len(),
        !s[k - 1].available,
    ensures
        borrowed_books(s).to_multiset() == borrowed_books(
            s.update(k - 1, with_available(s[k - 1], true)),
        ).to_multiset().insert(s[k - 1]),
        available_books(s.update(k - 1, with_available(s[k - 1], true))).to_multiset()
            == available_books(s).to_multiset().insert(with_available(s[k - 1], true)),
{
    let b = s[k - 1];
    let b2 = with_available(b, true);
    assert(borrowed_pred()(b));
    assert(avail_pred()(b2));
    lemma_filter_update_drops(s, k - 1, b2, borrowed_pred());
    lemma_filter_update_adds(s, k - 1, b2, avail_pred());
}

/// Borrowing a book and then returning it restores the catalog exactly: the
/// book keeps its id, title and author and is available again, and every
/// other book is untouched.
pub proof fn lemma_borrow_then_return_restores(s: Seq<BookView>, k: u32)
    requires
        wf_catalog(s),
        1 <= k <= s.len(),
        s[k - 1].available,
    ensures
        s.update(k - 1, with_available(s[k - 1], false)).update(
            k - 1,
            with_available(with_available(s[k - 1], false), true),
        ) == s,
{
    assert(with_available(with_available(s[k - 1], false), true) == s[k - 1]);
    assert(s.update(k - 1, with_available(s[k - 1], false)).update(k - 1, s[k - 1]) =~= s);
}

} // verus!
