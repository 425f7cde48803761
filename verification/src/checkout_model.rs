//! Rows of the two checkout relations and the mathematical model of the
//! store that owns them.
//!
//! The model is a ghost value: two row sequences (active and historical), the
//! readable part of the book catalog, and the next checkout id to hand out.
//! The transition functions below say exactly what each checkout command
//! returns and how it changes the model; the executable store refines them,
//! and the laws about the lifecycle are proved of them.

use vstd::prelude::*;

use crate::checkout_state::{CheckoutError, CheckoutState};
use crate::ids::{BookId, CheckoutId, Timestamp, UserId};

verus! {

/// One outstanding loan: a row of the active relation.
#[derive(Clone, Copy, PartialEq, Eq, Structural, Debug)]
pub struct ActiveCheckout {
    pub checkout_id: CheckoutId,
    pub book_id: BookId,
    pub user_id: UserId,
    pub checked_out_at: Timestamp,
}

/// One completed loan: a row of the append-only historical relation.
#[derive(Clone, Copy, PartialEq, Eq, Structural, Debug)]
pub struct ReturnedCheckout {
    pub checkout_id: CheckoutId,
    pub book_id: BookId,
    pub user_id: UserId,
    pub checked_out_at: Timestamp,
    pub returned_at: Timestamp,
}

/// What the checkout core reads of a book: its identity and the metadata
/// used to enrich listings. The catalog collaborator owns the full record.
#[derive(Debug)]
pub struct BookInfo {
    pub book_id: BookId,
    pub title: String,
    pub author: String,
    pub isbn: String,
}

/// Mathematical model of the checkout store.
#[verifier::ext_equal]
pub ghost struct StoreModel {
    /// The readable part of the book catalog.
    pub books: Seq<BookInfo>,
    /// The active relation: at most one row per book.
    pub active: Seq<ActiveCheckout>,
    /// The historical relation: append-only, never mutated.
    pub returned: Seq<ReturnedCheckout>,
    /// The next checkout id to generate; every id in use lies below it.
    pub next_id: u64,
}

/// Whether the catalog holds a book with this id.
pub open spec fn book_exists(m: StoreModel, book_id: BookId) -> bool {
    exists|i: int| 0 <= i < m.books.len() && #[trigger] m.books[i].book_id == book_id
}

/// Index of the catalog row for this book (unique in a well-formed model).
pub open spec fn book_index(m: StoreModel, book_id: BookId) -> int {
    choose|i: int| 0 <= i < m.books.len() && #[trigger] m.books[i].book_id == book_id
}

/// The catalog row for this book.
pub open spec fn book_row(m: StoreModel, book_id: BookId) -> BookInfo {
    m.books[book_index(m, book_id)]
}

/// Whether the active relation holds a row for this book.
pub open spec fn has_active(m: StoreModel, book_id: BookId) -> bool {
    exists|i: int| 0 <= i < m.active.len() && #[trigger] m.active[i].book_id == book_id
}

/// Index of the active row for this book (unique in a well-formed model).
pub open spec fn active_index(m: StoreModel, book_id: BookId) -> int {
    choose|i: int| 0 <= i < m.active.len() && #[trigger] m.active[i].book_id == book_id
}

/// The active row for this book.
pub open spec fn active_row(m: StoreModel, book_id: BookId) -> ActiveCheckout {
    m.active[active_index(m, book_id)]
}

/// Derived state of a book, computed from the presence or absence of rows.
pub open spec fn state_of(m: StoreModel, book_id: BookId) -> CheckoutState {
    if !book_exists(m, book_id) {
        CheckoutState::NotFound
    } else if has_active(m, book_id) {
        CheckoutState::CheckedOut {
            checkout_id: active_row(m, book_id).checkout_id,
            user_id: active_row(m, book_id).user_id,
        }
    } else {
        CheckoutState::Available
    }
}

/// The catalog names each book at most once.
pub open spec fn books_unique(books: Seq<BookInfo>) -> bool {
    forall|i: int, j: int|
        0 <= i < books.len() && 0 <= j < books.len()
            && #[trigger] books[i].book_id == #[trigger] books[j].book_id ==> i == j
}

/// The active relation holds at most one row per book.
pub open spec fn at_most_one_active_per_book(active: Seq<ActiveCheckout>) -> bool {
    forall|i: int, j: int|
        0 <= i < active.len() && 0 <= j < active.len()
            && #[trigger] active[i].book_id == #[trigger] active[j].book_id ==> i == j
}

/// No checkout id names two rows, within a relation or across the two.
pub open spec fn checkout_ids_unique(m: StoreModel) -> bool {
    &&& forall|i: int, j: int|
        0 <= i < m.active.len() && 0 <= j < m.active.len()
            && #[trigger] m.active[i].checkout_id == #[trigger] m.active[j].checkout_id ==> i == j
    &&& forall|i: int, j: int|
        0 <= i < m.returned.len() && 0 <= j < m.returned.len()
            && #[trigger] m.returned[i].checkout_id == #[trigger] m.returned[j].checkout_id ==> i
            == j
    &&& forall|i: int, j: int|
        0 <= i < m.active.len() && 0 <= j < m.returned.len()
            ==> #[trigger] m.active[i].checkout_id != #[trigger] m.returned[j].checkout_id
}

/// Every checkout id in use lies below the next id to generate.
pub open spec fn ids_below_next(m: StoreModel) -> bool {
    &&& forall|i: int| 0 <= i < m.active.len() ==> #[trigger] m.active[i].checkout_id.0 < m.next_id
    &&& forall|i: int|
        0 <= i < m.returned.len() ==> #[trigger] m.returned[i].checkout_id.0 < m.next_id
}

/// Every checkout row, active or historical, names a book of the catalog.
pub open spec fn rows_reference_books(m: StoreModel) -> bool {
    &&& forall|i: int| 0 <= i < m.active.len() ==> book_exists(m, #[trigger] m.active[i].book_id)
    &&& forall|i: int|
        0 <= i < m.returned.len() ==> book_exists(m, #[trigger] m.returned[i].book_id)
}

/// Well-formedness of the store model. Constructors establish it and every
/// command preserves it; in particular the active relation never holds two
/// rows for one book.
pub open spec fn wf(m: StoreModel) -> bool {
    &&& books_unique(m.books)
    &&& at_most_one_active_per_book(m.active)
    &&& checkout_ids_unique(m)
    &&& ids_below_next(m)
    &&& rows_reference_books(m)
}

/// Result of the `create` command: rejected when the book is unknown or
/// already checked out, and — defensively — when no fresh id is left.
pub open spec fn create_result(
    m: StoreModel,
    book_id: BookId,
    user_id: UserId,
    checked_out_at: Timestamp,
) -> Result<(), CheckoutError> {
    match state_of(m, book_id) {
        CheckoutState::NotFound => Err(CheckoutError::EntityNotFound),
        CheckoutState::CheckedOut { .. } => Err(CheckoutError::AlreadyCheckedOut),
        CheckoutState::Available => if m.next_id == u64::MAX {
            Err(CheckoutError::WriteInvariantViolation)
        } else {
            Ok(())
        },
    }
}

/// The active row that a successful `create` appends.
pub open spec fn created_row(
    m: StoreModel,
    book_id: BookId,
    user_id: UserId,
    checked_out_at: Timestamp,
) -> ActiveCheckout {
    ActiveCheckout { checkout_id: CheckoutId(m.next_id), book_id, user_id, checked_out_at }
}

/// Model after the `create` command; unchanged unless the command succeeds.
pub open spec fn create_model(
    m: StoreModel,
    book_id: BookId,
    user_id: UserId,
    checked_out_at: Timestamp,
) -> StoreModel {
    if create_result(m, book_id, user_id, checked_out_at) is Ok {
        StoreModel {
            active: m.active.push(created_row(m, book_id, user_id, checked_out_at)),
            next_id: (m.next_id + 1) as u64,
            ..m
        }
    } else {
        m
    }
}

/// Result of the `return_book` command: the book must exist, be checked out,
/// and be held under exactly the named checkout id and holder.
pub open spec fn return_result(
    m: StoreModel,
    checkout_id: CheckoutId,
    book_id: BookId,
    user_id: UserId,
) -> Result<(), CheckoutError> {
    match state_of(m, book_id) {
        CheckoutState::NotFound => Err(CheckoutError::EntityNotFound),
        CheckoutState::Available => Err(CheckoutError::NotCheckedOut),
        CheckoutState::CheckedOut { checkout_id: c, user_id: u } => if c == checkout_id && u
            == user_id {
            Ok(())
        } else {
            Err(CheckoutError::Conflict)
        },
    }
}

/// The historical row that a successful `return_book` appends: the active
/// row copied, with the return instant added.
pub open spec fn returned_row(
    m: StoreModel,
    book_id: BookId,
    returned_at: Timestamp,
) -> ReturnedCheckout {
    ReturnedCheckout {
        checkout_id: active_row(m, book_id).checkout_id,
        book_id: active_row(m, book_id).book_id,
        user_id: active_row(m, book_id).user_id,
        checked_out_at: active_row(m, book_id).checked_out_at,
        returned_at,
    }
}

/// Model after the `return_book` command; unchanged unless the command
/// succeeds, in which case the active row moves to the historical relation
/// in one step.
pub open spec fn return_model(
    m: StoreModel,
    checkout_id: CheckoutId,
    book_id: BookId,
    user_id: UserId,
    returned_at: Timestamp,
) -> StoreModel {
    if return_result(m, checkout_id, book_id, user_id) is Ok {
        StoreModel {
            active: m.active.remove(active_index(m, book_id)),
            returned: m.returned.push(returned_row(m, book_id, returned_at)),
            ..m
        }
    } else {
        m
    }
}

/// The state row that the state query resolves for a book: `None` when the
/// book does not exist, otherwise the book joined with its active checkout,
/// if any.
pub open spec fn state_row_of(m: StoreModel, book_id: BookId) -> Option<
    crate::checkout_state::CheckoutStateRow,
> {
    if !book_exists(m, book_id) {
        None
    } else if has_active(m, book_id) {
        Some(
            crate::checkout_state::CheckoutStateRow {
                book_id,
                checkout_id: Some(active_row(m, book_id).checkout_id),
                user_id: Some(active_row(m, book_id).user_id),
            },
        )
    } else {
        Some(
            crate::checkout_state::CheckoutStateRow { book_id, checkout_id: None, user_id: None },
        )
    }
}

/// One completed checkout command, for speaking about whole command
/// histories.
#[derive(Clone, Copy, PartialEq, Eq, Structural, Debug)]
pub enum CheckoutOp {
    Create { book_id: BookId, user_id: UserId, checked_out_at: Timestamp },
    Return { checkout_id: CheckoutId, book_id: BookId, user_id: UserId, returned_at: Timestamp },
}

/// Model after one completed command.
pub open spec fn apply_op(m: StoreModel, op: CheckoutOp) -> StoreModel {
    match op {
        CheckoutOp::Create { book_id, user_id, checked_out_at } => create_model(
            m,
            book_id,
            user_id,
            checked_out_at,
        ),
        CheckoutOp::Return { checkout_id, book_id, user_id, returned_at } => return_model(
            m,
            checkout_id,
            book_id,
            user_id,
            returned_at,
        ),
    }
}

/// Model after a sequence of completed commands, applied in order.
pub open spec fn apply_ops(m: StoreModel, ops: Seq<CheckoutOp>) -> StoreModel
    decreases ops.len(),
{
    if ops.len() == 0 {
        m
    } else {
        apply_ops(apply_op(m, ops[0]), ops.subrange(1, ops.len() as int))
    }
}

/// One `create` request in a race: who asks, and when.
#[derive(Clone, Copy, PartialEq, Eq, Structural, Debug)]
pub struct CreateRequest {
    pub user_id: UserId,
    pub checked_out_at: Timestamp,
}

/// Model after a serial run of `create` requests for one book. Under
/// serializable isolation, any set of racing requests is equivalent to such
/// a serial run.
pub open spec fn apply_creates(m: StoreModel, book_id: BookId, reqs: Seq<CreateRequest>) -> StoreModel
    decreases reqs.len(),
{
    if reqs.len() == 0 {
        m
    } else {
        apply_creates(
            create_model(m, book_id, reqs[0].user_id, reqs[0].checked_out_at),
            book_id,
            reqs.subrange(1, reqs.len() as int),
        )
    }
}

/// How many requests of a serial run of `create` requests succeed.
pub open spec fn count_create_successes(
    m: StoreModel,
    book_id: BookId,
    reqs: Seq<CreateRequest>,
) -> nat
    decreases reqs.len(),
{
    if reqs.len() == 0 {
        0
    } else {
        (if create_result(m, book_id, reqs[0].user_id, reqs[0].checked_out_at) is Ok {
            1nat
        } else {
            0nat
        }) + count_create_successes(
            create_model(m, book_id, reqs[0].user_id, reqs[0].checked_out_at),
            book_id,
            reqs.subrange(1, reqs.len() as int),
        )
    }
}

} // verus!
