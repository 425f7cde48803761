//! In-memory checkout store: the deterministic implementation of the
//! checkout lifecycle.
//!
//! The store owns the active and historical relations and reads a copy of
//! the catalog; every command refines the model transitions of
//! [`crate::checkout_model`] exactly, so the laws proved there hold of it.
//! A relational-store-backed implementation runs the same decision functions
//! against a live database; this one answers them from memory, serially —
//! the serial runs are exactly the outcomes serializable isolation admits.

use vstd::prelude::*;

use crate::checkout_laws::{
    lemma_active_index_unique, lemma_add_book_preserves_wf, lemma_book_index_unique, lemma_create_preserves_wf,
    lemma_return_preserves_wf,
};
use crate::checkout_model::{
    active_index, active_row, book_exists, book_index, book_row, books_unique, create_model,
    create_result, has_active, return_model, return_result, state_of, state_row_of, wf,
    ActiveCheckout, BookInfo, ReturnedCheckout, StoreModel,
};
use crate::checkout_records::{Checkout, CheckoutBook};
use crate::checkout_state::{
    decide_create, decide_return, CheckoutError, CheckoutState, CheckoutStateRow,
};
use crate::ids::{BookId, CheckoutId, Timestamp, UserId};

verus! {

/// In-memory store of the two checkout relations and the readable part of
/// the catalog.
pub struct CheckoutStore {
    books: Vec<BookInfo>,
    active: Vec<ActiveCheckout>,
    returned: Vec<ReturnedCheckout>,
    next_checkout_id: u64,
}

impl View for CheckoutStore {
    type V = StoreModel;

    closed spec fn view(&self) -> StoreModel {
        StoreModel {
            books: self.books@,
            active: self.active@,
            returned: self.returned@,
            next_id: self.next_checkout_id,
        }
    }
}

impl CheckoutStore {
    /// An empty store: no books, no loans, no history.
    pub fn new() -> (s: Self)
        ensures
            wf(s@),
            s@.books.len() == 0,
            s@.active.len() == 0,
            s@.returned.len() == 0,
            s@.next_id == 0,
    {
        CheckoutStore { books: Vec::new(), active: Vec::new(), returned: Vec::new(), next_checkout_id: 0 }
    }

    /// Makes a book known to the store, as the catalog collaborator would.
    /// Returns whether the book was new; a book id is never listed twice.
    pub fn add_book(&mut self, book: BookInfo) -> (added: bool)
        requires
            wf(old(self)@),
        ensures
            wf(final(self)@),
            added == !book_exists(old(self)@, book.book_id),
            added ==> final(self)@ == (StoreModel { books: old(self)@.books.push(book), ..old(self)@ }),
            !added ==> final(self)@ == old(self)@,
    {
        match self.find_book(book.book_id) {
            Some(_) => false,
            None => {
                proof {
                    lemma_add_book_preserves_wf(self@, book);
                }
                self.books.push(book);
                true
            },
        }
    }

    /// Index of the catalog row for a book, if the book exists.
    fn find_book(&self, book_id: BookId) -> (r: Option<usize>)
        ensures
            match r {
                Some(i) => 0 <= (i as int) < self@.books.len() && self@.books[i as int].book_id
                    == book_id,
                None => !book_exists(self@, book_id),
            },
    {
        let mut i: usize = 0;
        while i < self.books.len()
            invariant
                0 <= i <= self.books.len(),
                forall|j: int| 0 <= j < i ==> #[trigger] self@.books[j].book_id != book_id,
            decreases self.books.len() - i,
        {
            if self.books[i].book_id.0 == book_id.0 {
                return Some(i);
            }
            i = i + 1;
        }
        None
    }

    /// Index of the active row for a book, if the book is checked out.
    fn find_active(&self, book_id: BookId) -> (r: Option<usize>)
        ensures
            match r {
                Some(i) => 0 <= (i as int) < self@.active.len() && self@.active[i as int].book_id
                    == book_id,
                None => !has_active(self@, book_id),
            },
    {
        let mut i: usize = 0;
        while i < self.active.len()
            invariant
                0 <= i <= self.active.len(),
                forall|j: int| 0 <= j < i ==> #[trigger] self@.active[j].book_id != book_id,
            decreases self.active.len() - i,
        {
            if self.active[i].book_id.0 == book_id.0 {
                return Some(i);
            }
            i = i + 1;
        }
        None
    }

    /// Resolves the state row for a book: the single join-style read that the
    /// command preconditions are decided on.
    fn lookup_state_row(&self, book_id: BookId) -> (r: Option<CheckoutStateRow>)
        requires
            wf(self@),
        ensures
            r == state_row_of(self@, book_id),
    {
        match self.find_book(book_id) {
            None => None,
            Some(_) => {
                proof {
                    assert(book_exists(self@, book_id));
                }
                match self.find_active(book_id) {
                    None => Some(
                        CheckoutStateRow { book_id, checkout_id: None, user_id: None },
                    ),
                    Some(i) => {
                        proof {
                            assert(has_active(self@, book_id));
                            lemma_active_index_unique(self@, book_id);
                            assert(i as int == active_index(self@, book_id));
                        }
                        Some(
                            CheckoutStateRow {
                                book_id,
                                checkout_id: Some(self.active[i].checkout_id),
                                user_id: Some(self.active[i].user_id),
                            },
                        )
                    },
                }
            },
        }
    }

    /// Current state of a book, computed from the presence of rows.
    pub fn state_of(&self, book_id: BookId) -> (r: CheckoutState)
        requires
            wf(self@),
        ensures
            r == state_of(self@, book_id),
    {
        match self.lookup_state_row(book_id) {
            None => CheckoutState::NotFound,
            Some(row) => match (row.checkout_id, row.user_id) {
                (Some(c), Some(u)) => CheckoutState::CheckedOut { checkout_id: c, user_id: u },
                _ => CheckoutState::Available,
            },
        }
    }

    /// The `create` command: checks out a book to a user at an instant.
    ///
    /// Rejected when the book is unknown (`EntityNotFound`) or already
    /// checked out (`AlreadyCheckedOut`); otherwise a fresh checkout id is
    /// generated and one active row is recorded. The store changes only on
    /// success, and exactly by that one row.
    pub fn create(
        &mut self,
        book_id: BookId,
        user_id: UserId,
        checked_out_at: Timestamp,
    ) -> (r: Result<(), CheckoutError>)
        requires
            wf(old(self)@),
        ensures
            wf(final(self)@),
            r == create_result(old(self)@, book_id, user_id, checked_out_at),
            final(self)@ == create_model(old(self)@, book_id, user_id, checked_out_at),
    {
        let row = self.lookup_state_row(book_id);
        match decide_create(&row) {
            Err(e) => {
                proof {
                    assert(create_result(self@, book_id, user_id, checked_out_at) == Err::<
                        (),
                        CheckoutError,
                    >(e));
                }
                Err(e)
            },
            Ok(()) => {
                if self.next_checkout_id == u64::MAX {
                    return Err(CheckoutError::WriteInvariantViolation);
                }
                proof {
                    lemma_create_preserves_wf(self@, book_id, user_id, checked_out_at);
                }
                let new_row = ActiveCheckout {
                    checkout_id: CheckoutId(self.next_checkout_id),
                    book_id,
                    user_id,
                    checked_out_at,
                };
                self.active.push(new_row);
                self.next_checkout_id = self.next_checkout_id + 1;
                Ok(())
            },
        }
    }

    /// The `return_book` command: completes the loan named by a checkout id,
    /// book and holder, at an instant.
    ///
    /// Rejected when the book is unknown (`EntityNotFound`), not checked out
    /// (`NotCheckedOut`), or held under a different checkout id or holder
    /// (`Conflict`). On success the active row moves to the historical
    /// relation in one step, with the return instant added; the store
    /// changes only on success, and exactly by that move.
    pub fn return_book(
        &mut self,
        checkout_id: CheckoutId,
        book_id: BookId,
        user_id: UserId,
        returned_at: Timestamp,
    ) -> (r: Result<(), CheckoutError>)
        requires
            wf(old(self)@),
        ensures
            wf(final(self)@),
            r == return_result(old(self)@, checkout_id, book_id, user_id),
            final(self)@ == return_model(old(self)@, checkout_id, book_id, user_id, returned_at),
    {
        let row = self.lookup_state_row(book_id);
        match decide_return(&row, checkout_id, user_id) {
            Err(e) => {
                proof {
                    assert(return_result(self@, checkout_id, book_id, user_id) == Err::<
                        (),
                        CheckoutError,
                    >(e));
                }
                Err(e)
            },
            Ok(()) => {
                proof {
                    lemma_return_preserves_wf(self@, checkout_id, book_id, user_id, returned_at);
                    assert(has_active(self@, book_id));
                }
                match self.find_active(book_id) {
                    None => {
                        // The decision guarantees an active row; this branch
                        // is unreachable.
                        proof {
                            assert(false);
                        }
                        Err(CheckoutError::WriteInvariantViolation)
                    },
                    Some(i) => {
                        proof {
                            lemma_active_index_unique(self@, book_id);
                            assert(i as int == active_index(self@, book_id));
                        }
                        let moved = self.active[i];
                        let history_row = ReturnedCheckout {
                            checkout_id: moved.checkout_id,
                            book_id: moved.book_id,
                            user_id: moved.user_id,
                            checked_out_at: moved.checked_out_at,
                            returned_at,
                        };
                        self.returned.push(history_row);
                        self.active.remove(i);
                        Ok(())
                    },
                }
            },
        }
    }
}

/// The listing record an active row enriches to: the row's own fields plus
/// the metadata of its book.
pub open spec fn active_listing(m: StoreModel, row: ActiveCheckout) -> Checkout {
    Checkout {
        id: row.checkout_id,
        checked_out_by: row.user_id,
        checked_out_at: row.checked_out_at,
        returned_at: None,
        book: CheckoutBook {
            book_id: row.book_id,
            title: book_row(m, row.book_id).title,
            author: book_row(m, row.book_id).author,
            isbn: book_row(m, row.book_id).isbn,
        },
    }
}

/// The active row a listing record stands for.
pub open spec fn active_of_listing(c: Checkout) -> ActiveCheckout {
    ActiveCheckout {
        checkout_id: c.id,
        book_id: c.book.book_id,
        user_id: c.checked_out_by,
        checked_out_at: c.checked_out_at,
    }
}

/// Pulling one element out of the source and pushing it onto the output
/// keeps the union of the two multisets.
proof fn lemma_extract_preserves_union<T>(out: Seq<T>, src: Seq<T>, i: int)
    requires
        0 <= i < src.len(),
    ensures
        out.push(src[i]).to_multiset().add(src.remove(i).to_multiset()) == out.to_multiset().add(
            src.to_multiset(),
        ),
{
    broadcast use vstd::seq_lib::group_to_multiset_ensures;
    broadcast use vstd::multiset::group_multiset_axioms;

    assert(src.contains(src[i]));
    assert(out.push(src[i]).to_multiset().add(src.remove(i).to_multiset())
        =~= out.to_multiset().add(src.to_multiset()));
}

/// A sequence with no elements contributes nothing to a multiset union.
proof fn lemma_union_with_empty<T>(out: Seq<T>, src: Seq<T>)
    requires
        src.len() == 0,
    ensures
        out.to_multiset().add(src.to_multiset()) == out.to_multiset(),
{
    broadcast use vstd::seq_lib::group_to_multiset_ensures;
    broadcast use vstd::multiset::group_multiset_axioms;

    assert forall|x: T| #[trigger] src.to_multiset().count(x) == 0 by {
        assert(!src.contains(x));
    }
    assert(out.to_multiset().add(src.to_multiset()) =~= out.to_multiset());
}

/// What holds of every element of a sequence holds of every element of any
/// rearrangement of it.
proof fn lemma_multiset_members_transfer<T>(rows: Seq<T>, orig: Seq<T>, pred: spec_fn(T) -> bool)
    requires
        rows.to_multiset() == orig.to_multiset(),
        forall|j: int| 0 <= j < orig.len() ==> pred(#[trigger] orig[j]),
    ensures
        forall|i: int| 0 <= i < rows.len() ==> pred(#[trigger] rows[i]),
{
    broadcast use vstd::seq_lib::group_to_multiset_ensures;

    assert forall|i: int| 0 <= i < rows.len() implies pred(#[trigger] rows[i]) by {
        assert(rows.contains(rows[i]));
        assert(orig.to_multiset().count(rows[i]) > 0);
        assert(orig.contains(rows[i]));
        let j = choose|j: int| 0 <= j < orig.len() && orig[j] == rows[i];
        assert(pred(orig[j]));
    }
}

/// Sorts active rows by their checkout instant, oldest first.
fn sort_active_ascending(rows: Vec<ActiveCheckout>) -> (r: Vec<ActiveCheckout>)
    ensures
        r@.len() == rows@.len(),
        r@.to_multiset() == rows@.to_multiset(),
        forall|i: int, j: int|
            0 <= i <= j < r@.len() ==> #[trigger] r@[i].checked_out_at.0 <= #[trigger] r@[j].checked_out_at.0,
{
    let ghost orig = rows@;
    let mut src = rows;
    let mut out: Vec<ActiveCheckout> = Vec::new();
    proof {
        lemma_union_with_empty(src@, out@);
        broadcast use vstd::multiset::group_multiset_axioms;

        assert(out@.to_multiset().add(src@.to_multiset()) =~= src@.to_multiset().add(
            out@.to_multiset(),
        ));
    }
    while src.len() > 0
        invariant
            out@.to_multiset().add(src@.to_multiset()) == orig.to_multiset(),
            out@.len() + src@.len() == orig.len(),
            forall|i: int, j: int|
                0 <= i <= j < out@.len() ==> #[trigger] out@[i].checked_out_at.0
                    <= #[trigger] out@[j].checked_out_at.0,
            forall|i: int, j: int|
                0 <= i < out@.len() && 0 <= j < src@.len() ==> #[trigger] out@[i].checked_out_at.0
                    <= #[trigger] src@[j].checked_out_at.0,
        decreases src.len(),
    {
        let mut min_idx: usize = 0;
        let mut k: usize = 1;
        while k < src.len()
            invariant
                src@.len() > 0,
                (min_idx as int) < src@.len(),
                1 <= k <= src@.len(),
                forall|j: int|
                    0 <= j < k ==> src@[min_idx as int].checked_out_at.0
                        <= #[trigger] src@[j].checked_out_at.0,
            decreases src@.len() - k,
        {
            if src[k].checked_out_at.0 < src[min_idx].checked_out_at.0 {
                min_idx = k;
            }
            k = k + 1;
        }
        let ghost pre_src = src@;
        let ghost pre_out = out@;
        proof {
            pre_src.remove_ensures(min_idx as int);
            lemma_extract_preserves_union(pre_out, pre_src, min_idx as int);
        }
        let x = src.remove(min_idx);
        out.push(x);
    }
    proof {
        lemma_union_with_empty(out@, src@);
    }
    out
}

impl CheckoutStore {
    /// A copy of the active relation, in storage order.
    fn copy_active(&self) -> (r: Vec<ActiveCheckout>)
        ensures
            r@ == self@.active,
    {
        let mut r: Vec<ActiveCheckout> = Vec::new();
        let mut i: usize = 0;
        while i < self.active.len()
            invariant
                i <= self@.active.len(),
                r@ == self@.active.subrange(0, i as int),
            decreases self@.active.len() - i,
        {
            let ghost pre = r@;
            r.push(self.active[i]);
            i = i + 1;
            proof {
                assert(self@.active.subrange(0, i as int) =~= pre.push(
                    self@.active[i - 1 as int],
                ));
            }
        }
        proof {
            assert(self@.active.subrange(0, self@.active.len() as int) =~= self@.active);
        }
        r
    }

    /// Enriches one active row with the metadata of its book.
    fn listing_for_active(&self, row: ActiveCheckout) -> (c: Checkout)
        requires
            books_unique(self@.books),
            book_exists(self@, row.book_id),
        ensures
            c == active_listing(self@, row),
    {
        match self.find_book(row.book_id) {
            Some(bi) => {
                proof {
                    lemma_book_index_unique(self@, row.book_id);
                    assert(bi as int == book_index(self@, row.book_id));
                }
                let b = &self.books[bi];
                Checkout {
                    id: row.checkout_id,
                    checked_out_by: row.user_id,
                    checked_out_at: row.checked_out_at,
                    returned_at: None,
                    book: CheckoutBook {
                        book_id: row.book_id,
                        title: b.title.clone(),
                        author: b.author.clone(),
                        isbn: b.isbn.clone(),
                    },
                }
            },
            None => {
                proof {
                    assert(false);
                }
                vstd::pervasive::unreached()
            },
        }
    }

    /// Lists every outstanding loan, enriched with book metadata, ordered by
    /// checkout instant ascending: the oldest outstanding loan first. The
    /// records are exactly the active rows, each carrying the metadata of
    /// its book and no return instant.
    pub fn list_all_active(&self) -> (r: Vec<Checkout>)
        requires
            wf(self@),
        ensures
            r@.len() == self@.active.len(),
            r@.map_values(|c: Checkout| active_of_listing(c)).to_multiset()
                == self@.active.to_multiset(),
            forall|i: int|
                0 <= i < r@.len() ==> #[trigger] r@[i] == active_listing(
                    self@,
                    active_of_listing(r@[i]),
                ),
            forall|i: int, j: int|
                0 <= i <= j < r@.len() ==> #[trigger] r@[i].checked_out_at.0
                    <= #[trigger] r@[j].checked_out_at.0,
    {
        let rows = self.copy_active();
        let sorted = sort_active_ascending(rows);
        proof {
            lemma_multiset_members_transfer(
                sorted@,
                self@.active,
                |row: ActiveCheckout| book_exists(self@, row.book_id),
            );
        }
        let mut out: Vec<Checkout> = Vec::new();
        let mut i: usize = 0;
        while i < sorted.len()
            invariant
                wf(self@),
                forall|j: int|
                    0 <= j < sorted@.len() ==> book_exists(self@, #[trigger] sorted@[j].book_id),
                i <= sorted@.len(),
                out@.len() == i,
                forall|j: int|
                    0 <= j < i ==> #[trigger] out@[j] == active_listing(self@, sorted@[j]),
            decreases sorted@.len() - i,
        {
            let c = self.listing_for_active(sorted[i]);
            out.push(c);
            i = i + 1;
        }
        proof {
            let stripped = out@.map_values(|c: Checkout| active_of_listing(c));
            assert forall|j: int| 0 <= j < out@.len() implies stripped[j] == sorted@[j] by {
                assert(out@[j] == active_listing(self@, sorted@[j]));
            }
            assert(stripped =~= sorted@);
            assert forall|i2: int, j2: int|
                0 <= i2 <= j2 < out@.len() implies #[trigger] out@[i2].checked_out_at.0
                <= #[trigger] out@[j2].checked_out_at.0 by {
                assert(out@[i2].checked_out_at == sorted@[i2].checked_out_at);
                assert(out@[j2].checked_out_at == sorted@[j2].checked_out_at);
            }
            assert forall|i2: int| 0 <= i2 < out@.len() implies #[trigger] out@[i2]
                == active_listing(self@, active_of_listing(out@[i2])) by {
                assert(out@[i2] == active_listing(self@, sorted@[i2]));
                assert(active_of_listing(active_listing(self@, sorted@[i2])) == sorted@[i2]);
            }
        }
        out
    }
}

/// The listing record a historical row enriches to: the row's own fields,
/// its return instant, and the metadata of its book.
pub open spec fn returned_listing(m: StoreModel, row: ReturnedCheckout) -> Checkout {
    Checkout {
        id: row.checkout_id,
        checked_out_by: row.user_id,
        checked_out_at: row.checked_out_at,
        returned_at: Some(row.returned_at),
        book: CheckoutBook {
            book_id: row.book_id,
            title: book_row(m, row.book_id).title,
            author: book_row(m, row.book_id).author,
            isbn: book_row(m, row.book_id).isbn,
        },
    }
}

/// The historical row a listing record stands for.
pub open spec fn returned_of_listing(c: Checkout) -> ReturnedCheckout {
    ReturnedCheckout {
        checkout_id: c.id,
        book_id: c.book.book_id,
        user_id: c.checked_out_by,
        checked_out_at: c.checked_out_at,
        returned_at: match c.returned_at {
            Some(t) => t,
            None => Timestamp(0),
        },
    }
}

/// Sorts historical rows by their checkout instant, newest first.
fn sort_returned_descending(rows: Vec<ReturnedCheckout>) -> (r: Vec<ReturnedCheckout>)
    ensures
        r@.len() == rows@.len(),
        r@.to_multiset() == rows@.to_multiset(),
        forall|i: int, j: int|
            0 <= i <= j < r@.len() ==> #[trigger] r@[i].checked_out_at.0 >= #[trigger] r@[j].checked_out_at.0,
{
    let ghost orig = rows@;
    let mut src = rows;
    let mut out: Vec<ReturnedCheckout> = Vec::new();
    proof {
        lemma_union_with_empty(src@, out@);
        broadcast use vstd::multiset::group_multiset_axioms;

        assert(out@.to_multiset().add(src@.to_multiset()) =~= src@.to_multiset().add(
            out@.to_multiset(),
        ));
    }
    while src.len() > 0
        invariant
            out@.to_multiset().add(src@.to_multiset()) == orig.to_multiset(),
            out@.len() + src@.len() == orig.len(),
            forall|i: int, j: int|
                0 <= i <= j < out@.len() ==> #[trigger] out@[i].checked_out_at.0
                    >= #[trigger] out@[j].checked_out_at.0,
            forall|i: int, j: int|
                0 <= i < out@.len() && 0 <= j < src@.len() ==> #[trigger] out@[i].checked_out_at.0
                    >= #[trigger] src@[j].checked_out_at.0,
        decreases src.len(),
    {
        let mut max_idx: usize = 0;
        let mut k: usize = 1;
        while k < src.len()
            invariant
                src@.len() > 0,
                (max_idx as int) < src@.len(),
                1 <= k <= src@.len(),
                forall|j: int|
                    0 <= j < k ==> src@[max_idx as int].checked_out_at.0
                        >= #[trigger] src@[j].checked_out_at.0,
            decreases src@.len() - k,
        {
            if src[k].checked_out_at.0 > src[max_idx].checked_out_at.0 {
                max_idx = k;
            }
            k = k + 1;
        }
        let ghost pre_src = src@;
        let ghost pre_out = out@;
        proof {
            pre_src.remove_ensures(max_idx as int);
            lemma_extract_preserves_union(pre_out, pre_src, max_idx as int);
        }
        let x = src.remove(max_idx);
        out.push(x);
    }
    proof {
        lemma_union_with_empty(out@, src@);
    }
    out
}

impl CheckoutStore {
    /// The active rows held by one user, in storage order.
    fn collect_active_for_user(&self, user_id: UserId) -> (rows: Vec<ActiveCheckout>)
        requires
            wf(self@),
        ensures
            rows@ == self@.active.filter(|row: ActiveCheckout| row.user_id == user_id),
            forall|j: int| 0 <= j < rows@.len() ==> book_exists(self@, #[trigger] rows@[j].book_id),
    {
        let mut rows: Vec<ActiveCheckout> = Vec::new();
        let mut i: usize = 0;
        while i < self.active.len()
            invariant
                wf(self@),
                i <= self@.active.len(),
                rows@ == self@.active.subrange(0, i as int).filter(
                    |row: ActiveCheckout| row.user_id == user_id,
                ),
                forall|j: int|
                    0 <= j < rows@.len() ==> book_exists(self@, #[trigger] rows@[j].book_id),
            decreases self@.active.len() - i,
        {
            let ghost pre = self@.active.subrange(0, i as int);
            if self.active[i].user_id.0 == user_id.0 {
                rows.push(self.active[i]);
            }
            i = i + 1;
            proof {
                let x = self@.active[i - 1 as int];
                assert(self@.active.subrange(0, i as int) =~= pre.push(x));
                pre.lemma_filter_push(x, |row: ActiveCheckout| row.user_id == user_id);
                assert(rows@ == pre.push(x).filter(|row: ActiveCheckout| row.user_id == user_id));
            }
        }
        proof {
            assert(self@.active.subrange(0, self@.active.len() as int) =~= self@.active);
        }
        rows
    }

    /// Lists the outstanding loans of one user, enriched with book metadata,
    /// ordered by checkout instant ascending. The records are exactly the
    /// user's active rows.
    pub fn list_active_for_user(&self, user_id: UserId) -> (r: Vec<Checkout>)
        requires
            wf(self@),
        ensures
            r@.map_values(|c: Checkout| active_of_listing(c)).to_multiset() == self@.active.filter(
                |row: ActiveCheckout| row.user_id == user_id,
            ).to_multiset(),
            forall|i: int| 0 <= i < r@.len() ==> #[trigger] r@[i].checked_out_by == user_id,
            forall|i: int|
                0 <= i < r@.len() ==> #[trigger] r@[i] == active_listing(
                    self@,
                    active_of_listing(r@[i]),
                ),
            forall|i: int, j: int|
                0 <= i <= j < r@.len() ==> #[trigger] r@[i].checked_out_at.0
                    <= #[trigger] r@[j].checked_out_at.0,
    {
        let rows = self.collect_active_for_user(user_id);
        let sorted = sort_active_ascending(rows);
        proof {
            lemma_multiset_members_transfer(
                sorted@,
                rows@,
                |row: ActiveCheckout| book_exists(self@, row.book_id),
            );
            broadcast use vstd::seq_lib::group_filter_ensures;

            lemma_multiset_members_transfer(
                sorted@,
                rows@,
                |row: ActiveCheckout| row.user_id == user_id,
            );
        }
        let mut out: Vec<Checkout> = Vec::new();
        let mut i: usize = 0;
        while i < sorted.len()
            invariant
                wf(self@),
                forall|j: int|
                    0 <= j < sorted@.len() ==> book_exists(self@, #[trigger] sorted@[j].book_id),
                forall|j: int| 0 <= j < sorted@.len() ==> #[trigger] sorted@[j].user_id == user_id,
                i <= sorted@.len(),
                out@.len() == i,
                forall|j: int|
                    0 <= j < i ==> #[trigger] out@[j] == active_listing(self@, sorted@[j]),
            decreases sorted@.len() - i,
        {
            let c = self.listing_for_active(sorted[i]);
            out.push(c);
            i = i + 1;
        }
        proof {
            let stripped = out@.map_values(|c: Checkout| active_of_listing(c));
            assert forall|j: int| 0 <= j < out@.len() implies stripped[j] == sorted@[j] by {
                assert(out@[j] == active_listing(self@, sorted@[j]));
            }
            assert(stripped =~= sorted@);
            assert forall|i2: int, j2: int|
                0 <= i2 <= j2 < out@.len() implies #[trigger] out@[i2].checked_out_at.0
                <= #[trigger] out@[j2].checked_out_at.0 by {
                assert(out@[i2].checked_out_at == sorted@[i2].checked_out_at);
                assert(out@[j2].checked_out_at == sorted@[j2].checked_out_at);
            }
            assert forall|i2: int| 0 <= i2 < out@.len() implies #[trigger] out@[i2]
                == active_listing(self@, active_of_listing(out@[i2])) by {
                assert(out@[i2] == active_listing(self@, sorted@[i2]));
                assert(active_of_listing(active_listing(self@, sorted@[i2])) == sorted@[i2]);
            }
        }
        out
    }

    /// The historical rows of one book, in storage order.
    fn collect_returned_for_book(&self, book_id: BookId) -> (rows: Vec<ReturnedCheckout>)
        requires
            wf(self@),
        ensures
            rows@ == self@.returned.filter(|row: ReturnedCheckout| row.book_id == book_id),
            forall|j: int| 0 <= j < rows@.len() ==> book_exists(self@, #[trigger] rows@[j].book_id),
    {
        let mut rows: Vec<ReturnedCheckout> = Vec::new();
        let mut i: usize = 0;
        while i < self.returned.len()
            invariant
                wf(self@),
                i <= self@.returned.len(),
                rows@ == self@.returned.subrange(0, i as int).filter(
                    |row: ReturnedCheckout| row.book_id == book_id,
                ),
                forall|j: int|
                    0 <= j < rows@.len() ==> book_exists(self@, #[trigger] rows@[j].book_id),
            decreases self@.returned.len() - i,
        {
            let ghost pre = self@.returned.subrange(0, i as int);
            if self.returned[i].book_id.0 == book_id.0 {
                rows.push(self.returned[i]);
            }
            i = i + 1;
            proof {
                let x = self@.returned[i - 1 as int];
                assert(self@.returned.subrange(0, i as int) =~= pre.push(x));
                pre.lemma_filter_push(x, |row: ReturnedCheckout| row.book_id == book_id);
                assert(rows@ == pre.push(x).filter(|row: ReturnedCheckout| row.book_id == book_id));
            }
        }
        proof {
            assert(self@.returned.subrange(0, self@.returned.len() as int) =~= self@.returned);
        }
        rows
    }

    /// Enriches one historical row with the metadata of its book.
    fn listing_for_returned(&self, row: ReturnedCheckout) -> (c: Checkout)
        requires
            books_unique(self@.books),
            book_exists(self@, row.book_id),
        ensures
            c == returned_listing(self@, row),
    {
        match self.find_book(row.book_id) {
            Some(bi) => {
                proof {
                    lemma_book_index_unique(self@, row.book_id);
                    assert(bi as int == book_index(self@, row.book_id));
                }
                let b = &self.books[bi];
                Checkout {
                    id: row.checkout_id,
                    checked_out_by: row.user_id,
                    checked_out_at: row.checked_out_at,
                    returned_at: Some(row.returned_at),
                    book: CheckoutBook {
                        book_id: row.book_id,
                        title: b.title.clone(),
                        author: b.author.clone(),
                        isbn: b.isbn.clone(),
                    },
                }
            },
            None => {
                proof {
                    assert(false);
                }
                vstd::pervasive::unreached()
            },
        }
    }

    /// Lists the full history of one book: its historical rows, newest
    /// checkout first, with the current active loan (if any) prepended as
    /// the most recent entry — it has no return instant, whatever its own
    /// checkout instant.
    pub fn history_for_book(&self, book_id: BookId) -> (r: Vec<Checkout>)
        requires
            wf(self@),
        ensures
            ({
                let hist = self@.returned.filter(|row: ReturnedCheckout| row.book_id == book_id);
                let tail = if has_active(self@, book_id) {
                    r@.skip(1)
                } else {
                    r@
                };
                &&& has_active(self@, book_id) ==> r@.len() == hist.len() + 1 && r@[0]
                    == active_listing(self@, active_row(self@, book_id))
                &&& !has_active(self@, book_id) ==> r@.len() == hist.len()
                &&& tail.map_values(|c: Checkout| returned_of_listing(c)).to_multiset()
                    == hist.to_multiset()
                &&& forall|i: int|
                    0 <= i < tail.len() ==> #[trigger] tail[i] == returned_listing(
                        self@,
                        returned_of_listing(tail[i]),
                    )
                &&& forall|i: int, j: int|
                    0 <= i <= j < tail.len() ==> #[trigger] tail[i].checked_out_at.0
                        >= #[trigger] tail[j].checked_out_at.0
            }),
    {
        let hist_rows = self.collect_returned_for_book(book_id);
        let sorted = sort_returned_descending(hist_rows);
        proof {
            lemma_multiset_members_transfer(
                sorted@,
                hist_rows@,
                |row: ReturnedCheckout| book_exists(self@, row.book_id),
            );
        }
        let mut out: Vec<Checkout> = Vec::new();
        match self.find_active(book_id) {
            Some(a) => {
                proof {
                    assert(has_active(self@, book_id));
                    lemma_active_index_unique(self@, book_id);
                    assert(a as int == active_index(self@, book_id));
                }
                let head = self.listing_for_active(self.active[a]);
                out.push(head);
            },
            None => {},
        }
        let ghost head_len = out@.len() as int;
        let mut i: usize = 0;
        while i < sorted.len()
            invariant
                wf(self@),
                forall|j: int|
                    0 <= j < sorted@.len() ==> book_exists(self@, #[trigger] sorted@[j].book_id),
                i <= sorted@.len(),
                out@.len() == head_len + i,
                0 <= head_len <= 1,
                forall|j: int|
                    0 <= j < head_len ==> out@[j] == active_listing(
                        self@,
                        active_row(self@, book_id),
                    ),
                forall|j: int|
                    0 <= j < i ==> #[trigger] out@[head_len + j] == returned_listing(
                        self@,
                        sorted@[j],
                    ),
            decreases sorted@.len() - i,
        {
            let c = self.listing_for_returned(sorted[i]);
            out.push(c);
            i = i + 1;
        }
        proof {
            let tail = if has_active(self@, book_id) {
                out@.skip(1)
            } else {
                out@
            };
            assert(tail.len() == sorted@.len());
            assert forall|j: int| 0 <= j < tail.len() implies #[trigger] tail[j]
                == returned_listing(self@, sorted@[j]) by {
                assert(tail[j] == out@[head_len + j]);
            }
            let stripped = tail.map_values(|c: Checkout| returned_of_listing(c));
            assert forall|j: int| 0 <= j < tail.len() implies stripped[j] == sorted@[j] by {
                assert(tail[j] == returned_listing(self@, sorted@[j]));
                assert(returned_of_listing(returned_listing(self@, sorted@[j])) == sorted@[j]);
            }
            assert(stripped =~= sorted@);
            assert forall|i2: int, j2: int|
                0 <= i2 <= j2 < tail.len() implies #[trigger] tail[i2].checked_out_at.0
                >= #[trigger] tail[j2].checked_out_at.0 by {
                assert(tail[i2].checked_out_at == sorted@[i2].checked_out_at);
                assert(tail[j2].checked_out_at == sorted@[j2].checked_out_at);
            }
            assert forall|i2: int| 0 <= i2 < tail.len() implies #[trigger] tail[i2]
                == returned_listing(self@, returned_of_listing(tail[i2])) by {
                assert(tail[i2] == returned_listing(self@, sorted@[i2]));
            }
        }
        out
    }
}

} // verus!