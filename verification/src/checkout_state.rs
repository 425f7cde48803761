//! Derived checkout state of a book, the command failures, and the
//! precondition decisions of the two checkout commands.
//!
//! The state of a book is never stored; it is computed each time from the
//! presence or absence of rows. The persistence layer resolves one state row
//! inside its open transaction and hands it to the decision functions below,
//! which say whether the command may go on and with which failure it is
//! rejected otherwise.

use vstd::prelude::*;

use crate::ids::{BookId, CheckoutId, UserId};

verus! {

/// Derived state of one book: nonexistent, available, or actively checked
/// out with the active checkout's id and holder.
#[derive(Clone, Copy, PartialEq, Eq, Structural, Debug)]
pub enum CheckoutState {
    NotFound,
    Available,
    CheckedOut { checkout_id: CheckoutId, user_id: UserId },
}

/// Typed failures of the checkout commands and queries.
#[derive(Clone, Copy, PartialEq, Eq, Structural, Debug)]
pub enum CheckoutError {
    /// The referenced book or checkout does not exist.
    EntityNotFound,
    /// `create` was asked for a book that is already checked out.
    AlreadyCheckedOut,
    /// `return_book` was asked for a book that is not checked out.
    NotCheckedOut,
    /// `return_book` named a checkout id or holder that does not match the active row.
    Conflict,
    /// A serialization failure raised by the storage engine; the caller may retry.
    TransientConflict,
    /// An affected-row count contradicted a precondition checked inside the same
    /// transaction; internal and fatal, never retried.
    WriteInvariantViolation,
    /// The caller-supplied deadline expired before the command finished.
    Timeout,
    /// The storage engine could not be reached.
    Connectivity,
}

/// One row of the state query: a book joined with its active checkout, if any.
///
/// `None` in place of the whole row means the book does not exist. In a row
/// produced by the return path, `checkout_id` and `user_id` are both present
/// (book checked out) or both absent (book available); the create path never
/// fills `user_id`, since `create` rejects a checked-out book whoever holds it.
pub struct CheckoutStateRow {
    pub book_id: BookId,
    pub checkout_id: Option<CheckoutId>,
    pub user_id: Option<UserId>,
}

/// The precondition decision of `create`: on which state rows the checkout
/// may be recorded, and with which failure it is rejected otherwise.
pub open spec fn create_decision(row: Option<CheckoutStateRow>) -> Result<(), CheckoutError> {
    match row {
        None => Err(CheckoutError::EntityNotFound),
        Some(r) => if r.checkout_id is Some {
            Err(CheckoutError::AlreadyCheckedOut)
        } else {
            Ok(())
        },
    }
}

/// The precondition decision of `return_book`: the book must exist, be
/// checked out, and be held under exactly the named checkout id and holder.
pub open spec fn return_decision(
    row: Option<CheckoutStateRow>,
    checkout_id: CheckoutId,
    user_id: UserId,
) -> Result<(), CheckoutError> {
    match row {
        None => Err(CheckoutError::EntityNotFound),
        Some(r) => match (r.checkout_id, r.user_id) {
            (Some(c), Some(u)) => if c == checkout_id && u == user_id {
                Ok(())
            } else {
                Err(CheckoutError::Conflict)
            },
            _ => Err(CheckoutError::NotCheckedOut),
        },
    }
}

/// Runs the `create` precondition check on a resolved state row.
pub fn decide_create(row: &Option<CheckoutStateRow>) -> (r: Result<(), CheckoutError>)
    ensures
        r == create_decision(*row),
{
    match row {
        None => Err(CheckoutError::EntityNotFound),
        Some(state) => match state.checkout_id {
            Some(_) => Err(CheckoutError::AlreadyCheckedOut),
            None => Ok(()),
        },
    }
}

/// Runs the `return_book` precondition check on a resolved state row.
pub fn decide_return(
    row: &Option<CheckoutStateRow>,
    checkout_id: CheckoutId,
    user_id: UserId,
) -> (r: Result<(), CheckoutError>)
    ensures
        r == return_decision(*row, checkout_id, user_id),
{
    match row {
        None => Err(CheckoutError::EntityNotFound),
        Some(state) => match (state.checkout_id, state.user_id) {
            (Some(c), Some(u)) => if c == checkout_id && u == user_id {
                Ok(())
            } else {
                Err(CheckoutError::Conflict)
            },
            _ => Err(CheckoutError::NotCheckedOut),
        },
    }
}

} // verus!
