//! Laws of the checkout lifecycle, proved of the model transitions.
//!
//! Every command preserves well-formedness — in particular, the active
//! relation never holds two rows for one book — and the familiar stories
//! hold: a checkout followed by its return leaves one historical row and no
//! active one, a repeated return is rejected, racing checkouts of one book
//! admit a single winner, and a return under the wrong id or holder changes
//! nothing.

use vstd::prelude::*;

use crate::checkout_model::{
    active_index, active_row, apply_creates, apply_op, apply_ops, at_most_one_active_per_book,
    book_exists, book_index, books_unique, count_create_successes, create_model, create_result,
    created_row, has_active, return_model, return_result, returned_row, state_of, wf,
    BookInfo, CheckoutOp, CreateRequest, ReturnedCheckout, StoreModel,
};
use crate::checkout_state::{CheckoutError, CheckoutState};
use crate::ids::{BookId, CheckoutId, Timestamp, UserId};

verus! {

/// In a catalog without duplicate ids, `book_index` names the one row for an
/// existing book.
pub proof fn lemma_book_index_unique(m: StoreModel, book_id: BookId)
    requires
        books_unique(m.books),
        book_exists(m, book_id),
    ensures
        0 <= book_index(m, book_id) < m.books.len(),
        m.books[book_index(m, book_id)].book_id == book_id,
        forall|i: int|
            0 <= i < m.books.len() && #[trigger] m.books[i].book_id == book_id ==> i == book_index(
                m,
                book_id,
            ),
{
    let idx = book_index(m, book_id);
    assert(0 <= idx < m.books.len() && m.books[idx].book_id == book_id);
}

/// In an active relation with at most one row per book, `active_index` names
/// the one row for a checked-out book.
pub proof fn lemma_active_index_unique(m: StoreModel, book_id: BookId)
    requires
        at_most_one_active_per_book(m.active),
        has_active(m, book_id),
    ensures
        0 <= active_index(m, book_id) < m.active.len(),
        m.active[active_index(m, book_id)].book_id == book_id,
        forall|i: int|
            0 <= i < m.active.len() && #[trigger] m.active[i].book_id == book_id ==> i
                == active_index(m, book_id),
{
    let idx = active_index(m, book_id);
    assert(0 <= idx < m.active.len() && m.active[idx].book_id == book_id);
}

/// Book existence depends on the catalog alone, so it carries over between
/// models with the same catalog.
proof fn lemma_book_exists_same_books(m: StoreModel, m1: StoreModel, book_id: BookId)
    requires
        m1.books == m.books,
        book_exists(m, book_id),
    ensures
        book_exists(m1, book_id),
{
    let w = choose|i: int| 0 <= i < m.books.len() && #[trigger] m.books[i].book_id == book_id;
    assert(0 <= w < m1.books.len() && m1.books[w].book_id == book_id);
}

/// Adding an unknown book to the catalog preserves well-formedness; the
/// checkout relations do not mention it yet.
pub proof fn lemma_add_book_preserves_wf(m: StoreModel, book: BookInfo)
    requires
        wf(m),
        !book_exists(m, book.book_id),
    ensures
        wf(StoreModel { books: m.books.push(book), ..m }),
{
    let m1 = StoreModel { books: m.books.push(book), ..m };
    let n = m.books.len() as int;
    assert forall|i: int, j: int|
        0 <= i < m1.books.len() && 0 <= j < m1.books.len() && #[trigger] m1.books[i].book_id
            == #[trigger] m1.books[j].book_id implies i == j by {
        if i < n && j == n {
            assert(m.books[i].book_id == book.book_id);
            assert(book_exists(m, book.book_id));
        }
        if i == n && j < n {
            assert(m.books[j].book_id == book.book_id);
            assert(book_exists(m, book.book_id));
        }
    }
    assert forall|i: int| 0 <= i < m1.active.len() implies book_exists(
        m1,
        #[trigger] m1.active[i].book_id,
    ) by {
        let x = m.active[i].book_id;
        let w = choose|k: int| 0 <= k < m.books.len() && #[trigger] m.books[k].book_id == x;
        assert(0 <= w < m1.books.len() && m1.books[w].book_id == x);
    }
    assert forall|i: int| 0 <= i < m1.returned.len() implies book_exists(
        m1,
        #[trigger] m1.returned[i].book_id,
    ) by {
        let x = m.returned[i].book_id;
        let w = choose|k: int| 0 <= k < m.books.len() && #[trigger] m.books[k].book_id == x;
        assert(0 <= w < m1.books.len() && m1.books[w].book_id == x);
    }
}

/// The `create` command preserves well-formedness.
pub proof fn lemma_create_preserves_wf(
    m: StoreModel,
    book_id: BookId,
    user_id: UserId,
    checked_out_at: Timestamp,
)
    requires
        wf(m),
    ensures
        wf(create_model(m, book_id, user_id, checked_out_at)),
{
    if create_result(m, book_id, user_id, checked_out_at) is Ok {
        let m1 = create_model(m, book_id, user_id, checked_out_at);
        let row = created_row(m, book_id, user_id, checked_out_at);
        let n = m.active.len() as int;
        assert(m1.active == m.active.push(row));
        assert(!has_active(m, book_id));
        assert forall|i: int, j: int|
            0 <= i < m1.active.len() && 0 <= j < m1.active.len() && #[trigger] m1.active[i].book_id
                == #[trigger] m1.active[j].book_id implies i == j by {
            if i < n && j == n {
                assert(m.active[i].book_id == book_id);
                assert(has_active(m, book_id));
            }
            if i == n && j < n {
                assert(m.active[j].book_id == book_id);
                assert(has_active(m, book_id));
            }
        }
        assert forall|i: int, j: int|
            0 <= i < m1.active.len() && 0 <= j < m1.active.len()
                && #[trigger] m1.active[i].checkout_id == #[trigger] m1.active[j].checkout_id
            implies i == j by {
            if i < n && j == n {
                assert(m.active[i].checkout_id.0 < m.next_id);
            }
            if i == n && j < n {
                assert(m.active[j].checkout_id.0 < m.next_id);
            }
        }
        assert forall|i: int, j: int|
            0 <= i < m1.active.len() && 0 <= j < m1.returned.len() implies #[trigger] m1.active[i].checkout_id
            != #[trigger] m1.returned[j].checkout_id by {
            if i == n {
                assert(m.returned[j].checkout_id.0 < m.next_id);
            }
        }
        assert forall|i: int| 0 <= i < m1.active.len() implies book_exists(
            m1,
            #[trigger] m1.active[i].book_id,
        ) by {
            if i < n {
                lemma_book_exists_same_books(m, m1, m.active[i].book_id);
            } else {
                lemma_book_exists_same_books(m, m1, book_id);
            }
        }
        assert forall|i: int| 0 <= i < m1.returned.len() implies book_exists(
            m1,
            #[trigger] m1.returned[i].book_id,
        ) by {
            lemma_book_exists_same_books(m, m1, m.returned[i].book_id);
        }
    }
}

/// The `return_book` command preserves well-formedness.
pub proof fn lemma_return_preserves_wf(
    m: StoreModel,
    checkout_id: CheckoutId,
    book_id: BookId,
    user_id: UserId,
    returned_at: Timestamp,
)
    requires
        wf(m),
    ensures
        wf(return_model(m, checkout_id, book_id, user_id, returned_at)),
{
    if return_result(m, checkout_id, book_id, user_id) is Ok {
        let m1 = return_model(m, checkout_id, book_id, user_id, returned_at);
        assert(has_active(m, book_id));
        lemma_active_index_unique(m, book_id);
        let idx = active_index(m, book_id);
        let moved = m.active[idx];
        let rrow = returned_row(m, book_id, returned_at);
        assert(rrow.checkout_id == moved.checkout_id && rrow.book_id == moved.book_id);
        let n = m.active.len() as int;
        let rn = m.returned.len() as int;
        m.active.remove_ensures(idx);
        assert(m1.active == m.active.remove(idx));
        assert(m1.returned == m.returned.push(rrow));
        assert forall|i: int, j: int|
            0 <= i < m1.active.len() && 0 <= j < m1.active.len() && #[trigger] m1.active[i].book_id
                == #[trigger] m1.active[j].book_id implies i == j by {
            let i0: int = if i < idx {
                i
            } else {
                i + 1
            };
            let j0: int = if j < idx {
                j
            } else {
                j + 1
            };
            assert(m1.active[i] == m.active[i0] && m1.active[j] == m.active[j0]);
        }
        assert forall|i: int, j: int|
            0 <= i < m1.active.len() && 0 <= j < m1.active.len()
                && #[trigger] m1.active[i].checkout_id == #[trigger] m1.active[j].checkout_id
            implies i == j by {
            let i0: int = if i < idx {
                i
            } else {
                i + 1
            };
            let j0: int = if j < idx {
                j
            } else {
                j + 1
            };
            assert(m1.active[i] == m.active[i0] && m1.active[j] == m.active[j0]);
        }
        assert forall|i: int, j: int|
            0 <= i < m1.returned.len() && 0 <= j < m1.returned.len()
                && #[trigger] m1.returned[i].checkout_id == #[trigger] m1.returned[j].checkout_id
            implies i == j by {
            if i == rn && j < rn {
                assert(m.active[idx].checkout_id != m.returned[j].checkout_id);
            }
            if j == rn && i < rn {
                assert(m.active[idx].checkout_id != m.returned[i].checkout_id);
            }
        }
        assert forall|i: int, j: int|
            0 <= i < m1.active.len() && 0 <= j < m1.returned.len() implies #[trigger] m1.active[i].checkout_id
            != #[trigger] m1.returned[j].checkout_id by {
            let i0: int = if i < idx {
                i
            } else {
                i + 1
            };
            assert(m1.active[i] == m.active[i0]);
            if j == rn {
                assert(i0 != idx);
                assert(m.active[i0].checkout_id != m.active[idx].checkout_id);
            }
        }
        assert forall|i: int| 0 <= i < m1.active.len() implies #[trigger] m1.active[i].checkout_id.0
            < m1.next_id by {
            let i0: int = if i < idx {
                i
            } else {
                i + 1
            };
            assert(m1.active[i] == m.active[i0]);
        }
        assert forall|i: int| 0 <= i < m1.returned.len() implies #[trigger] m1.returned[i].checkout_id.0
            < m1.next_id by {}
        assert forall|i: int| 0 <= i < m1.active.len() implies book_exists(
            m1,
            #[trigger] m1.active[i].book_id,
        ) by {
            let i0: int = if i < idx {
                i
            } else {
                i + 1
            };
            assert(m1.active[i] == m.active[i0]);
            lemma_book_exists_same_books(m, m1, m.active[i0].book_id);
        }
        assert forall|i: int| 0 <= i < m1.returned.len() implies book_exists(
            m1,
            #[trigger] m1.returned[i].book_id,
        ) by {
            if i < rn {
                lemma_book_exists_same_books(m, m1, m.returned[i].book_id);
            } else {
                assert(m1.returned[i].book_id == book_id);
                lemma_book_exists_same_books(m, m1, book_id);
            }
        }
    }
}

/// After a successful `create`, the book reads as checked out under the
/// freshly generated id and the requesting holder; the historical relation
/// and the catalog are untouched.
pub proof fn lemma_create_ok_state(
    m: StoreModel,
    book_id: BookId,
    user_id: UserId,
    checked_out_at: Timestamp,
)
    requires
        wf(m),
        create_result(m, book_id, user_id, checked_out_at) is Ok,
    ensures
        ({
            let m1 = create_model(m, book_id, user_id, checked_out_at);
            &&& wf(m1)
            &&& state_of(m1, book_id) == (CheckoutState::CheckedOut {
                checkout_id: CheckoutId(m.next_id),
                user_id,
            })
            &&& m1.returned == m.returned
            &&& m1.books == m.books
        }),
{
    let m1 = create_model(m, book_id, user_id, checked_out_at);
    let row = created_row(m, book_id, user_id, checked_out_at);
    let n = m.active.len() as int;
    lemma_create_preserves_wf(m, book_id, user_id, checked_out_at);
    assert(m1.active == m.active.push(row));
    assert(m1.active.len() == n + 1);
    assert(m1.active[n] == row);
    assert(m1.active[n].book_id == book_id);
    assert(has_active(m1, book_id));
    lemma_book_exists_same_books(m, m1, book_id);
    lemma_active_index_unique(m1, book_id);
    assert(active_index(m1, book_id) == n);
    assert(active_row(m1, book_id) == row);
}

/// After a successful `return_book`, the book reads as available again and
/// the historical relation has gained exactly the moved row.
pub proof fn lemma_return_ok_state(
    m: StoreModel,
    checkout_id: CheckoutId,
    book_id: BookId,
    user_id: UserId,
    returned_at: Timestamp,
)
    requires
        wf(m),
        return_result(m, checkout_id, book_id, user_id) is Ok,
    ensures
        ({
            let m1 = return_model(m, checkout_id, book_id, user_id, returned_at);
            &&& wf(m1)
            &&& state_of(m1, book_id) == CheckoutState::Available
            &&& m1.returned == m.returned.push(returned_row(m, book_id, returned_at))
            &&& m1.books == m.books
        }),
{
    let m1 = return_model(m, checkout_id, book_id, user_id, returned_at);
    lemma_return_preserves_wf(m, checkout_id, book_id, user_id, returned_at);
    assert(has_active(m, book_id));
    lemma_active_index_unique(m, book_id);
    let idx = active_index(m, book_id);
    m.active.remove_ensures(idx);
    assert(m1.active == m.active.remove(idx));
    lemma_book_exists_same_books(m, m1, book_id);
    assert forall|i: int| 0 <= i < m1.active.len() implies #[trigger] m1.active[i].book_id
        != book_id by {
        let i0: int = if i < idx {
            i
        } else {
            i + 1
        };
        assert(m1.active[i] == m.active[i0]);
        if m.active[i0].book_id == book_id {
            assert(i0 == idx);
        }
    }
    assert(!has_active(m1, book_id));
}

/// The active relation never holds two rows for one book: in a well-formed
/// model, any two active rows naming the same book are the same row.
pub proof fn lemma_at_most_one_active_row(m: StoreModel, book_id: BookId)
    requires
        wf(m),
    ensures
        forall|i: int, j: int|
            0 <= i < m.active.len() && 0 <= j < m.active.len()
                && #[trigger] m.active[i].book_id == book_id && #[trigger] m.active[j].book_id
                == book_id ==> i == j,
{
}

/// Well-formedness — and with it the at-most-one-active-row-per-book
/// invariant — holds after any sequence of completed commands.
pub proof fn lemma_wf_after_any_commands(m: StoreModel, ops: Seq<CheckoutOp>)
    requires
        wf(m),
    ensures
        wf(apply_ops(m, ops)),
        at_most_one_active_per_book(apply_ops(m, ops).active),
    decreases ops.len(),
{
    if ops.len() > 0 {
        let m1 = apply_op(m, ops[0]);
        match ops[0] {
            CheckoutOp::Create { book_id, user_id, checked_out_at } => {
                lemma_create_preserves_wf(m, book_id, user_id, checked_out_at);
            },
            CheckoutOp::Return { checkout_id, book_id, user_id, returned_at } => {
                lemma_return_preserves_wf(m, checkout_id, book_id, user_id, returned_at);
            },
        }
        lemma_wf_after_any_commands(m1, ops.subrange(1, ops.len() as int));
    }
}

/// Round trip: checking a book out and returning it under the generated id
/// and the same holder succeeds, leaves no active row for the book, and —
/// when the book had no history yet — exactly one historical row, carrying
/// the return instant.
pub proof fn lemma_checkout_round_trip(
    m: StoreModel,
    book_id: BookId,
    user_id: UserId,
    checked_out_at: Timestamp,
    returned_at: Timestamp,
)
    requires
        wf(m),
        state_of(m, book_id) is Available,
        m.next_id < u64::MAX,
        forall|i: int| 0 <= i < m.returned.len() ==> #[trigger] m.returned[i].book_id != book_id,
    ensures
        ({
            let cid = CheckoutId(m.next_id);
            let m1 = create_model(m, book_id, user_id, checked_out_at);
            let m2 = return_model(m1, cid, book_id, user_id, returned_at);
            &&& create_result(m, book_id, user_id, checked_out_at) is Ok
            &&& return_result(m1, cid, book_id, user_id) is Ok
            &&& !has_active(m2, book_id)
            &&& exists|i: int|
                0 <= i < m2.returned.len() && #[trigger] m2.returned[i].book_id == book_id
            &&& forall|i: int|
                0 <= i < m2.returned.len() && #[trigger] m2.returned[i].book_id == book_id
                    ==> m2.returned[i] == (ReturnedCheckout {
                    checkout_id: cid,
                    book_id,
                    user_id,
                    checked_out_at,
                    returned_at,
                })
        }),
{
    let cid = CheckoutId(m.next_id);
    let m1 = create_model(m, book_id, user_id, checked_out_at);
    let m2 = return_model(m1, cid, book_id, user_id, returned_at);
    lemma_create_ok_state(m, book_id, user_id, checked_out_at);
    lemma_return_ok_state(m1, cid, book_id, user_id, returned_at);
    lemma_active_index_unique(m1, book_id);
    let n = m.active.len() as int;
    assert(m1.active[n] == created_row(m, book_id, user_id, checked_out_at));
    assert(active_index(m1, book_id) == n);
    assert(returned_row(m1, book_id, returned_at) == (ReturnedCheckout {
        checkout_id: cid,
        book_id,
        user_id,
        checked_out_at,
        returned_at,
    }));
    let rn = m.returned.len() as int;
    assert(m2.returned[rn].book_id == book_id);
}

/// A repeated return is rejected: the first return removes the active row,
/// so the book then reads as not checked out, and the repeat changes
/// nothing.
pub proof fn lemma_repeat_return_rejected(
    m: StoreModel,
    checkout_id: CheckoutId,
    book_id: BookId,
    user_id: UserId,
    returned_at: Timestamp,
)
    requires
        wf(m),
        state_of(m, book_id) == (CheckoutState::CheckedOut { checkout_id, user_id }),
    ensures
        ({
            let m1 = return_model(m, checkout_id, book_id, user_id, returned_at);
            &&& return_result(m, checkout_id, book_id, user_id) is Ok
            &&& return_result(m1, checkout_id, book_id, user_id) == Err::<
                (),
                CheckoutError,
            >(CheckoutError::NotCheckedOut)
            &&& return_model(m1, checkout_id, book_id, user_id, returned_at) == m1
        }),
{
    lemma_return_ok_state(m, checkout_id, book_id, user_id, returned_at);
}

/// Every serial run of `create` requests for one available book admits
/// exactly one winner: the first request succeeds, every later one is
/// rejected as already checked out, and the book ends with exactly one
/// active row.
pub proof fn lemma_racing_creates_single_winner(
    m: StoreModel,
    book_id: BookId,
    reqs: Seq<CreateRequest>,
)
    requires
        wf(m),
        state_of(m, book_id) is Available,
        m.next_id < u64::MAX,
        reqs.len() >= 1,
    ensures
        ({
            let m1 = create_model(m, book_id, reqs[0].user_id, reqs[0].checked_out_at);
            let mfinal = apply_creates(m, book_id, reqs);
            &&& create_result(m, book_id, reqs[0].user_id, reqs[0].checked_out_at) is Ok
            &&& count_create_successes(m, book_id, reqs) == 1
            &&& mfinal == m1
            &&& forall|k: int|
                1 <= k < reqs.len() ==> create_result(
                    m1,
                    book_id,
                    #[trigger] reqs[k].user_id,
                    reqs[k].checked_out_at,
                ) == Err::<(), CheckoutError>(CheckoutError::AlreadyCheckedOut)
            &&& has_active(mfinal, book_id)
            &&& at_most_one_active_per_book(mfinal.active)
        }),
{
    let m1 = create_model(m, book_id, reqs[0].user_id, reqs[0].checked_out_at);
    lemma_create_ok_state(m, book_id, reqs[0].user_id, reqs[0].checked_out_at);
    lemma_creates_when_checked_out(m1, book_id, reqs.subrange(1, reqs.len() as int));
    assert(apply_creates(m, book_id, reqs) == m1);
    assert forall|k: int| 1 <= k < reqs.len() implies create_result(
        m1,
        book_id,
        #[trigger] reqs[k].user_id,
        reqs[k].checked_out_at,
    ) == Err::<(), CheckoutError>(CheckoutError::AlreadyCheckedOut) by {
        assert(state_of(m1, book_id) is CheckedOut);
    }
}

/// On a book that reads as checked out, every `create` request of a serial
/// run fails and the model does not move.
proof fn lemma_creates_when_checked_out(m: StoreModel, book_id: BookId, reqs: Seq<CreateRequest>)
    requires
        wf(m),
        state_of(m, book_id) is CheckedOut,
    ensures
        apply_creates(m, book_id, reqs) == m,
        count_create_successes(m, book_id, reqs) == 0,
    decreases reqs.len(),
{
    if reqs.len() > 0 {
        assert(create_model(m, book_id, reqs[0].user_id, reqs[0].checked_out_at) == m);
        lemma_creates_when_checked_out(m, book_id, reqs.subrange(1, reqs.len() as int));
    }
}

/// A return under a mismatched checkout id or holder is rejected as a
/// conflict and leaves the store — in particular the active row — unchanged.
pub proof fn lemma_mismatched_return_rejected(
    m: StoreModel,
    active_id: CheckoutId,
    holder: UserId,
    book_id: BookId,
    named_id: CheckoutId,
    named_user: UserId,
    returned_at: Timestamp,
)
    requires
        wf(m),
        state_of(m, book_id) == (CheckoutState::CheckedOut {
            checkout_id: active_id,
            user_id: holder,
        }),
        !(named_id == active_id && named_user == holder),
    ensures
        return_result(m, named_id, book_id, named_user) == Err::<
            (),
            CheckoutError,
        >(CheckoutError::Conflict),
        return_model(m, named_id, book_id, named_user, returned_at) == m,
{
}


} // verus!
