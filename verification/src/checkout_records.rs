//! Loan records as the query service hands them out, the joined rows the
//! persistence layer reads, and the response shapes of the API layer.

use vstd::prelude::*;

use crate::ids::{BookId, CheckoutId, Timestamp, UserId};

verus! {

/// Display metadata of the book a loan concerns.
#[derive(Debug)]
pub struct CheckoutBook {
    pub book_id: BookId,
    pub title: String,
    pub author: String,
    pub isbn: String,
}

/// One loan, enriched with book metadata; `returned_at` is `None` while the
/// loan is outstanding.
#[derive(Debug)]
pub struct Checkout {
    pub id: CheckoutId,
    pub checked_out_by: UserId,
    pub checked_out_at: Timestamp,
    pub returned_at: Option<Timestamp>,
    pub book: CheckoutBook,
}

/// A row of the active relation joined with the catalog, as the persistence
/// layer reads it when listing outstanding loans.
pub struct CheckoutRow {
    pub checkout_id: CheckoutId,
    pub book_id: BookId,
    pub user_id: UserId,
    pub checked_out_at: Timestamp,
    pub title: String,
    pub author: String,
    pub isbn: String,
}

/// The loan record a joined active row stands for.
pub open spec fn checkout_of_row(row: CheckoutRow) -> Checkout {
    Checkout {
        id: row.checkout_id,
        checked_out_by: row.user_id,
        checked_out_at: row.checked_out_at,
        returned_at: None,
        book: CheckoutBook {
            book_id: row.book_id,
            title: row.title,
            author: row.author,
            isbn: row.isbn,
        },
    }
}

impl CheckoutRow {
    /// Shapes the joined row as an outstanding loan record.
    pub fn into_checkout(self) -> (r: Checkout)
        ensures
            r == checkout_of_row(self),
    {
        let CheckoutRow { checkout_id, book_id, user_id, checked_out_at, title, author, isbn } =
            self;
        Checkout {
            id: checkout_id,
            checked_out_by: user_id,
            checked_out_at,
            returned_at: None,
            book: CheckoutBook { book_id, title, author, isbn },
        }
    }
}

/// A row of the historical relation joined with the catalog, as the
/// persistence layer reads it when listing a book's history.
pub struct ReturnedCheckoutRow {
    pub checkout_id: CheckoutId,
    pub book_id: BookId,
    pub user_id: UserId,
    pub checked_out_at: Timestamp,
    pub returned_at: Timestamp,
    pub title: String,
    pub author: String,
    pub isbn: String,
}

/// The loan record a joined historical row stands for.
pub open spec fn checkout_of_returned_row(row: ReturnedCheckoutRow) -> Checkout {
    Checkout {
        id: row.checkout_id,
        checked_out_by: row.user_id,
        checked_out_at: row.checked_out_at,
        returned_at: Some(row.returned_at),
        book: CheckoutBook {
            book_id: row.book_id,
            title: row.title,
            author: row.author,
            isbn: row.isbn,
        },
    }
}

impl ReturnedCheckoutRow {
    /// Shapes the joined row as a completed loan record.
    pub fn into_checkout(self) -> (r: Checkout)
        ensures
            r == checkout_of_returned_row(self),
    {
        let ReturnedCheckoutRow {
            checkout_id,
            book_id,
            user_id,
            checked_out_at,
            returned_at,
            title,
            author,
            isbn,
        } = self;
        Checkout {
            id: checkout_id,
            checked_out_by: user_id,
            checked_out_at,
            returned_at: Some(returned_at),
            book: CheckoutBook { book_id, title, author, isbn },
        }
    }
}

/// Response shape of the book inside a loan, as the API layer serializes it.
#[derive(Debug)]
pub struct CheckoutBookResponse {
    pub id: BookId,
    pub title: String,
    pub author: String,
    pub isbn: String,
}

/// The response a book record maps to.
pub open spec fn book_response_of(book: CheckoutBook) -> CheckoutBookResponse {
    CheckoutBookResponse {
        id: book.book_id,
        title: book.title,
        author: book.author,
        isbn: book.isbn,
    }
}

impl CheckoutBookResponse {
    /// Shapes a book record for the API layer.
    pub fn from_book(book: CheckoutBook) -> (r: Self)
        ensures
            r == book_response_of(book),
    {
        let CheckoutBook { book_id, title, author, isbn } = book;
        CheckoutBookResponse { id: book_id, title, author, isbn }
    }
}

/// Response shape of one loan, as the API layer serializes it.
#[derive(Debug)]
pub struct CheckoutResponse {
    pub id: CheckoutId,
    pub checked_out_by: UserId,
    pub checked_out_at: Timestamp,
    pub returned_at: Option<Timestamp>,
    pub book: CheckoutBookResponse,
}

/// The response a loan record maps to.
pub open spec fn response_of(checkout: Checkout) -> CheckoutResponse {
    CheckoutResponse {
        id: checkout.id,
        checked_out_by: checkout.checked_out_by,
        checked_out_at: checkout.checked_out_at,
        returned_at: checkout.returned_at,
        book: book_response_of(checkout.book),
    }
}

impl CheckoutResponse {
    /// Shapes a loan record for the API layer.
    pub fn from_checkout(checkout: Checkout) -> (r: Self)
        ensures
            r == response_of(checkout),
    {
        let Checkout { id, checked_out_by, checked_out_at, returned_at, book } = checkout;
        CheckoutResponse {
            id,
            checked_out_by,
            checked_out_at,
            returned_at,
            book: CheckoutBookResponse::from_book(book),
        }
    }
}

/// Response shape of a loan listing, as the API layer serializes it.
#[derive(Debug)]
pub struct CheckoutsResponse {
    pub items: Vec<CheckoutResponse>,
}

impl CheckoutsResponse {
    /// Shapes a loan listing for the API layer, keeping its order.
    pub fn from_checkouts(checkouts: Vec<Checkout>) -> (r: Self)
        ensures
            r.items@.len() == checkouts@.len(),
            forall|i: int|
                0 <= i < checkouts@.len() ==> r.items@[i] == response_of(#[trigger] checkouts@[i]),
    {
        let mut items: Vec<CheckoutResponse> = Vec::new();
        let mut remaining = checkouts;
        let ghost all = remaining@;
        let mut i: usize = 0;
        while i < remaining.len()
            invariant
                remaining@ == all,
                i <= all.len(),
                items@.len() == i,
                forall|j: int| 0 <= j < i ==> items@[j] == response_of(#[trigger] all[j]),
            decreases remaining.len() - i,
        {
            let c = &remaining[i];
            items.push(
                CheckoutResponse {
                    id: c.id,
                    checked_out_by: c.checked_out_by,
                    checked_out_at: c.checked_out_at,
                    returned_at: c.returned_at,
                    book: CheckoutBookResponse {
                        id: c.book.book_id,
                        title: c.book.title.clone(),
                        author: c.book.author.clone(),
                        isbn: c.book.isbn.clone(),
                    },
                },
            );
            i = i + 1;
        }
        CheckoutsResponse { items }
    }
}

} // verus!
