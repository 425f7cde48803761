//! Book catalog shapes: the domain records, the rows the persistence layer
//! reads, the events the handlers build, and the API response shapes.
//!
//! The catalog itself is a collaborator; the checkout core only reads it.
//! What lives here is the data shaping and the request validation rules,
//! each stated exactly.

use vstd::prelude::*;

use crate::ids::{BookId, CheckoutId, Timestamp, UserId};

verus! {

/// Owner of a book, for display.
#[derive(Debug)]
pub struct BookOwner {
    pub id: UserId,
    pub name: String,
}

/// Holder of a displayed loan, for display.
#[derive(Debug)]
pub struct CheckoutUser {
    pub id: UserId,
    pub name: String,
}

/// The active loan shown beside a book, enriched with the holder's name.
#[derive(Debug)]
pub struct Checkout {
    pub checkout_id: CheckoutId,
    pub checked_out_by: CheckoutUser,
    pub checked_out_at: Timestamp,
}

/// A book of the catalog, with its owner and its active loan, if any.
#[derive(Debug)]
pub struct Book {
    pub id: BookId,
    pub title: String,
    pub author: String,
    pub isbn: String,
    pub description: String,
    pub owner: BookOwner,
    pub checkout: Option<Checkout>,
}

/// The window of a paginated listing.
#[derive(Debug)]
pub struct BookListOptions {
    pub limit: i64,
    pub offset: i64,
}

/// One page of a listing, with the total the window was cut from.
pub struct PaginatedList<T> {
    pub total: i64,
    pub limit: i64,
    pub offset: i64,
    pub items: Vec<T>,
}

/// Event asking the catalog to register a book.
pub struct CreateBook {
    pub title: String,
    pub author: String,
    pub isbn: String,
    pub description: String,
}

/// Event asking the catalog to update a book owned by the requesting user.
pub struct UpdateBook {
    pub book_id: BookId,
    pub title: String,
    pub author: String,
    pub isbn: String,
    pub description: String,
    pub requested_user: UserId,
}

/// Event asking the catalog to delete a book owned by the requesting user.
pub struct DeleteBook {
    pub book_id: BookId,
    pub requested_user: UserId,
}

/// A catalog row joined with its owner, as the persistence layer reads it.
pub struct BookRow {
    pub book_id: BookId,
    pub title: String,
    pub author: String,
    pub isbn: String,
    pub description: String,
    pub owned_by: UserId,
    pub owner_name: String,
}

/// The book a joined catalog row stands for, with a given active loan.
pub open spec fn book_of_row(row: BookRow, checkout: Option<Checkout>) -> Book {
    Book {
        id: row.book_id,
        title: row.title,
        author: row.author,
        isbn: row.isbn,
        description: row.description,
        owner: BookOwner { id: row.owned_by, name: row.owner_name },
        checkout,
    }
}

impl BookRow {
    /// Shapes the joined row as a book record, attaching its active loan.
    pub fn into_book(self, checkout: Option<Checkout>) -> (r: Book)
        ensures
            r == book_of_row(self, checkout),
    {
        let BookRow { book_id, title, author, isbn, description, owned_by, owner_name } = self;
        Book {
            id: book_id,
            title,
            author,
            isbn,
            description,
            owner: BookOwner { id: owned_by, name: owner_name },
            checkout,
        }
    }
}

/// An active-loan row joined with its holder, as the persistence layer reads
/// it when decorating books.
pub struct BookCheckoutRow {
    pub checkout_id: CheckoutId,
    pub book_id: BookId,
    pub user_id: UserId,
    pub user_name: String,
    pub checked_out_at: Timestamp,
}

/// The displayed loan a joined loan row stands for.
pub open spec fn checkout_of_book_row(row: BookCheckoutRow) -> Checkout {
    Checkout {
        checkout_id: row.checkout_id,
        checked_out_by: CheckoutUser { id: row.user_id, name: row.user_name },
        checked_out_at: row.checked_out_at,
    }
}

impl BookCheckoutRow {
    /// Shapes the joined loan row for display beside its book.
    pub fn into_checkout(self) -> (r: Checkout)
        ensures
            r == checkout_of_book_row(self),
    {
        let BookCheckoutRow { checkout_id, book_id: _, user_id, user_name, checked_out_at } = self;
        Checkout {
            checkout_id,
            checked_out_by: CheckoutUser { id: user_id, name: user_name },
            checked_out_at,
        }
    }
}

/// One row of the pagination query: a book id and the total the window was
/// cut from.
pub struct PaginatedBookRow {
    pub total: i64,
    pub id: BookId,
}

/// Request to register a book. Title, author and isbn must not be empty;
/// the description may be.
#[derive(Debug)]
pub struct CreateBookRequest {
    pub title: String,
    pub author: String,
    pub isbn: String,
    pub description: String,
}

impl CreateBookRequest {
    /// The validation rule: every named field is non-empty.
    pub fn validate(&self) -> (ok: bool)
        ensures
            ok == (self.title@.len() > 0 && self.author@.len() > 0 && self.isbn@.len() > 0),
    {
        !self.title.as_str().is_empty() && !self.author.as_str().is_empty()
            && !self.isbn.as_str().is_empty()
    }

    /// The catalog event this request asks for.
    pub fn into_event(self) -> (r: CreateBook)
        ensures
            r == (CreateBook {
                title: self.title,
                author: self.author,
                isbn: self.isbn,
                description: self.description,
            }),
    {
        let CreateBookRequest { title, author, isbn, description } = self;
        CreateBook { title, author, isbn, description }
    }
}

/// Request to update a book. The same rule as for registration holds.
#[derive(Debug)]
pub struct UpdateBookRequest {
    pub title: String,
    pub author: String,
    pub isbn: String,
    pub description: String,
}

impl UpdateBookRequest {
    /// The validation rule: every named field is non-empty.
    pub fn validate(&self) -> (ok: bool)
        ensures
            ok == (self.title@.len() > 0 && self.author@.len() > 0 && self.isbn@.len() > 0),
    {
        !self.title.as_str().is_empty() && !self.author.as_str().is_empty()
            && !self.isbn.as_str().is_empty()
    }
}

/// An update request bound to the book it concerns and the user who asks.
pub struct UpdateBookRequestWithIds(pub BookId, pub UserId, pub UpdateBookRequest);

impl UpdateBookRequestWithIds {
    /// Binds an update request to its book and requesting user.
    pub fn new(book_id: BookId, user_id: UserId, request: UpdateBookRequest) -> (r: Self)
        ensures
            r.0 == book_id,
            r.1 == user_id,
            r.2 == request,
    {
        UpdateBookRequestWithIds(book_id, user_id, request)
    }

    /// The catalog event this request asks for.
    pub fn into_event(self) -> (r: UpdateBook)
        ensures
            r == (UpdateBook {
                book_id: self.0,
                title: self.2.title,
                author: self.2.author,
                isbn: self.2.isbn,
                description: self.2.description,
                requested_user: self.1,
            }),
    {
        let UpdateBookRequestWithIds(book_id, user_id, request) = self;
        let UpdateBookRequest { title, author, isbn, description } = request;
        UpdateBook { book_id, title, author, isbn, description, requested_user: user_id }
    }
}

/// The page size a listing request falls back to.
pub const DEFAULT_LIMIT: i64 = 20;

/// The limit used where a listing request names none.
pub fn default_limit() -> (r: i64)
    ensures
        r == DEFAULT_LIMIT,
{
    DEFAULT_LIMIT
}

/// Window of a listing request. Both bounds must be non-negative.
#[derive(Debug)]
pub struct BookListQuery {
    pub limit: i64,
    pub offset: i64,
}

impl BookListQuery {
    /// The validation rule: neither bound is negative.
    pub fn validate(&self) -> (ok: bool)
        ensures
            ok == (self.limit >= 0 && self.offset >= 0),
    {
        self.limit >= 0 && self.offset >= 0
    }

    /// The listing window this request asks for.
    pub fn into_options(self) -> (r: BookListOptions)
        ensures
            r.limit == self.limit,
            r.offset == self.offset,
    {
        let BookListQuery { limit, offset } = self;
        BookListOptions { limit, offset }
    }
}

/// Response shape of one book, as the API layer serializes it.
#[derive(Debug)]
pub struct BookResponse {
    pub id: BookId,
    pub title: String,
    pub author: String,
    pub isbn: String,
    pub description: String,
    pub owner: BookOwner,
}

/// The response a book record maps to; its active loan is not part of it.
pub open spec fn book_response_of(book: Book) -> BookResponse {
    BookResponse {
        id: book.id,
        title: book.title,
        author: book.author,
        isbn: book.isbn,
        description: book.description,
        owner: book.owner,
    }
}

impl BookResponse {
    /// Shapes a book record for the API layer.
    pub fn from_book(book: Book) -> (r: Self)
        ensures
            r == book_response_of(book),
    {
        let Book { id, title, author, isbn, description, owner, checkout: _ } = book;
        BookResponse { id, title, author, isbn, description, owner }
    }
}

/// Response shape of one listing page, as the API layer serializes it.
#[derive(Debug)]
pub struct PaginatedBookResponse {
    pub total: i64,
    pub limit: i64,
    pub offset: i64,
    pub items: Vec<BookResponse>,
}

impl PaginatedBookResponse {
    /// Shapes a listing page for the API layer, keeping its order.
    pub fn from_list(list: PaginatedList<Book>) -> (r: Self)
        ensures
            r.total == list.total,
            r.limit == list.limit,
            r.offset == list.offset,
            r.items@.len() == list.items@.len(),
            forall|i: int|
                0 <= i < list.items@.len() ==> r.items@[i] == book_response_of(
                    #[trigger] list.items@[i],
                ),
    {
        let PaginatedList { total, limit, offset, items } = list;
        let ghost orig = items@;
        let mut src = items;
        let mut out: Vec<BookResponse> = Vec::new();
        proof {
            assert(orig.subrange(0, orig.len() as int) =~= orig);
        }
        while src.len() > 0
            invariant
                out@.len() + src@.len() == orig.len(),
                src@ == orig.subrange(out@.len() as int, orig.len() as int),
                forall|j: int|
                    0 <= j < out@.len() ==> out@[j] == book_response_of(#[trigger] orig[j]),
            decreases src.len(),
        {
            let ghost pre = src@;
            let ghost done = out@.len() as int;
            let b = src.remove(0);
            proof {
                assert(b == orig[done]);
                assert(pre.remove(0) =~= orig.subrange(done + 1, orig.len() as int));
            }
            out.push(BookResponse::from_book(b));
        }
        PaginatedBookResponse { total, limit, offset, items: out }
    }
}

} // verus!
