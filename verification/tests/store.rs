use lending_core::checkout_model::BookInfo;
use lending_core::checkout_state::{CheckoutError, CheckoutState};
use lending_core::checkout_store::CheckoutStore;
use lending_core::ids::{BookId, CheckoutId, Timestamp, UserId};

fn store_with_books(ids: &[u64]) -> CheckoutStore {
    let mut store = CheckoutStore::new();
    for &id in ids {
        let added = store.add_book(BookInfo {
            book_id: BookId(id),
            title: format!("title-{}", id),
            author: format!("author-{}", id),
            isbn: format!("isbn-{}", id),
        });
        assert!(added);
    }
    store
}

fn active_checkout_id(store: &CheckoutStore, book_id: BookId) -> CheckoutId {
    match store.state_of(book_id) {
        CheckoutState::CheckedOut { checkout_id, .. } => checkout_id,
        other => panic!("expected a checked-out book, found {:?}", other),
    }
}

#[test]
fn add_book_rejects_duplicate_id() {
    let mut store = store_with_books(&[1]);
    let added = store.add_book(BookInfo {
        book_id: BookId(1),
        title: String::from("another"),
        author: String::from("another"),
        isbn: String::from("another"),
    });
    assert!(!added);
}

#[test]
fn create_rejects_unknown_book() {
    let mut store = store_with_books(&[1]);
    let r = store.create(BookId(99), UserId(7), Timestamp(1000));
    assert_eq!(r, Err(CheckoutError::EntityNotFound));
    assert_eq!(store.state_of(BookId(99)), CheckoutState::NotFound);
}

#[test]
fn create_rejects_checked_out_book() {
    let mut store = store_with_books(&[1]);
    assert_eq!(store.create(BookId(1), UserId(7), Timestamp(1000)), Ok(()));
    let r = store.create(BookId(1), UserId(8), Timestamp(2000));
    assert_eq!(r, Err(CheckoutError::AlreadyCheckedOut));
}

#[test]
fn racing_creates_admit_one_winner() {
    // Serial runs are the outcomes serializable isolation admits: of three
    // requests for one available book, exactly one succeeds and the active
    // relation ends with exactly one row for that book.
    let mut store = store_with_books(&[1]);
    let mut successes = 0;
    for user in [7u64, 8, 9] {
        match store.create(BookId(1), UserId(user), Timestamp(1000 + user as i64)) {
            Ok(()) => successes += 1,
            Err(e) => assert_eq!(e, CheckoutError::AlreadyCheckedOut),
        }
    }
    assert_eq!(successes, 1);
    let active = store.list_all_active();
    assert_eq!(active.len(), 1);
    assert_eq!(active[0].book.book_id, BookId(1));
    assert_eq!(active[0].checked_out_by, UserId(7));
}

#[test]
fn round_trip_leaves_one_history_row() {
    let mut store = store_with_books(&[1]);
    assert_eq!(store.create(BookId(1), UserId(7), Timestamp(1000)), Ok(()));
    let cid = active_checkout_id(&store, BookId(1));
    assert_eq!(store.return_book(cid, BookId(1), UserId(7), Timestamp(2000)), Ok(()));

    assert_eq!(store.state_of(BookId(1)), CheckoutState::Available);
    assert_eq!(store.list_all_active().len(), 0);
    let history = store.history_for_book(BookId(1));
    assert_eq!(history.len(), 1);
    assert_eq!(history[0].id, cid);
    assert_eq!(history[0].checked_out_by, UserId(7));
    assert_eq!(history[0].checked_out_at, Timestamp(1000));
    assert_eq!(history[0].returned_at, Some(Timestamp(2000)));
}

#[test]
fn second_return_is_rejected() {
    // The first return removes the active row; the book then reads as not
    // checked out, so the repeat is rejected and nothing changes.
    let mut store = store_with_books(&[1]);
    assert_eq!(store.create(BookId(1), UserId(7), Timestamp(1000)), Ok(()));
    let cid = active_checkout_id(&store, BookId(1));
    assert_eq!(store.return_book(cid, BookId(1), UserId(7), Timestamp(2000)), Ok(()));
    let again = store.return_book(cid, BookId(1), UserId(7), Timestamp(2000));
    assert_eq!(again, Err(CheckoutError::NotCheckedOut));
    assert_eq!(store.history_for_book(BookId(1)).len(), 1);
}

#[test]
fn mismatched_return_is_rejected() {
    let mut store = store_with_books(&[1]);
    assert_eq!(store.create(BookId(1), UserId(7), Timestamp(1000)), Ok(()));
    let cid = active_checkout_id(&store, BookId(1));

    // Wrong checkout id.
    let wrong_id = CheckoutId(cid.0 + 100);
    let r = store.return_book(wrong_id, BookId(1), UserId(7), Timestamp(2000));
    assert_eq!(r, Err(CheckoutError::Conflict));

    // Wrong holder.
    let r = store.return_book(cid, BookId(1), UserId(8), Timestamp(2000));
    assert_eq!(r, Err(CheckoutError::Conflict));

    // The active row is unchanged.
    assert_eq!(
        store.state_of(BookId(1)),
        CheckoutState::CheckedOut { checkout_id: cid, user_id: UserId(7) },
    );
}

#[test]
fn return_rejects_unknown_book_and_available_book() {
    let mut store = store_with_books(&[1]);
    let r = store.return_book(CheckoutId(0), BookId(99), UserId(7), Timestamp(1000));
    assert_eq!(r, Err(CheckoutError::EntityNotFound));
    let r = store.return_book(CheckoutId(0), BookId(1), UserId(7), Timestamp(1000));
    assert_eq!(r, Err(CheckoutError::NotCheckedOut));
}

#[test]
fn list_all_active_orders_by_checkout_instant() {
    // Checkouts at t1 < t2 < t3 for three books come back in that order,
    // whatever order the commands arrived in.
    let mut store = store_with_books(&[1, 2, 3]);
    assert_eq!(store.create(BookId(2), UserId(7), Timestamp(200)), Ok(()));
    assert_eq!(store.create(BookId(3), UserId(8), Timestamp(300)), Ok(()));
    assert_eq!(store.create(BookId(1), UserId(9), Timestamp(100)), Ok(()));

    let active = store.list_all_active();
    assert_eq!(active.len(), 3);
    assert_eq!(active[0].checked_out_at, Timestamp(100));
    assert_eq!(active[1].checked_out_at, Timestamp(200));
    assert_eq!(active[2].checked_out_at, Timestamp(300));
    assert_eq!(active[0].book.book_id, BookId(1));
    assert_eq!(active[1].book.book_id, BookId(2));
    assert_eq!(active[2].book.book_id, BookId(3));
    // Enrichment carries the catalog metadata.
    assert_eq!(active[0].book.title, "title-1");
    assert_eq!(active[0].book.author, "author-1");
    assert_eq!(active[0].book.isbn, "isbn-1");
    assert!(active.iter().all(|c| c.returned_at.is_none()));
}

#[test]
fn list_active_for_user_filters_by_holder() {
    let mut store = store_with_books(&[1, 2, 3]);
    assert_eq!(store.create(BookId(1), UserId(7), Timestamp(300)), Ok(()));
    assert_eq!(store.create(BookId(2), UserId(8), Timestamp(200)), Ok(()));
    assert_eq!(store.create(BookId(3), UserId(7), Timestamp(100)), Ok(()));

    let mine = store.list_active_for_user(UserId(7));
    assert_eq!(mine.len(), 2);
    assert_eq!(mine[0].book.book_id, BookId(3));
    assert_eq!(mine[1].book.book_id, BookId(1));
    assert!(mine.iter().all(|c| c.checked_out_by == UserId(7)));

    assert_eq!(store.list_active_for_user(UserId(9)).len(), 0);
}

#[test]
fn history_prepends_active_loan_before_newer_history() {
    // Two completed loans, then an active one whose checkout instant is
    // older than the newest historical entry: the active loan still comes
    // first, and the historical entries follow newest checkout first.
    let mut store = store_with_books(&[1]);

    assert_eq!(store.create(BookId(1), UserId(7), Timestamp(1000)), Ok(()));
    let c1 = active_checkout_id(&store, BookId(1));
    assert_eq!(store.return_book(c1, BookId(1), UserId(7), Timestamp(1500)), Ok(()));

    assert_eq!(store.create(BookId(1), UserId(8), Timestamp(5000)), Ok(()));
    let c2 = active_checkout_id(&store, BookId(1));
    assert_eq!(store.return_book(c2, BookId(1), UserId(8), Timestamp(5500)), Ok(()));

    assert_eq!(store.create(BookId(1), UserId(9), Timestamp(3000)), Ok(()));
    let c3 = active_checkout_id(&store, BookId(1));

    let history = store.history_for_book(BookId(1));
    assert_eq!(history.len(), 3);
    assert_eq!(history[0].id, c3);
    assert_eq!(history[0].returned_at, None);
    assert_eq!(history[1].id, c2);
    assert_eq!(history[1].returned_at, Some(Timestamp(5500)));
    assert_eq!(history[2].id, c1);
    assert_eq!(history[2].returned_at, Some(Timestamp(1500)));
}

#[test]
fn history_of_unknown_book_is_empty() {
    let store = store_with_books(&[1]);
    assert_eq!(store.history_for_book(BookId(99)).len(), 0);
}

#[test]
fn active_relation_holds_at_most_one_row_per_book() {
    // After a whole sequence of commands, each book has at most one active
    // row, and rejected commands never added any.
    let mut store = store_with_books(&[1, 2]);
    assert_eq!(store.create(BookId(1), UserId(7), Timestamp(100)), Ok(()));
    let _ = store.create(BookId(1), UserId(8), Timestamp(200));
    let c1 = active_checkout_id(&store, BookId(1));
    assert_eq!(store.return_book(c1, BookId(1), UserId(7), Timestamp(300)), Ok(()));
    assert_eq!(store.create(BookId(1), UserId(8), Timestamp(400)), Ok(()));
    let _ = store.create(BookId(1), UserId(9), Timestamp(500));
    assert_eq!(store.create(BookId(2), UserId(9), Timestamp(600)), Ok(()));

    let active = store.list_all_active();
    let for_book_1 = active.iter().filter(|c| c.book.book_id == BookId(1)).count();
    let for_book_2 = active.iter().filter(|c| c.book.book_id == BookId(2)).count();
    assert_eq!(for_book_1, 1);
    assert_eq!(for_book_2, 1);
}

#[test]
fn concrete_scenario_checkout_conflict_and_return() {
    // Book exists and is available; a checkout succeeds, a second user's
    // checkout fails as a conflict, the return succeeds, and the history
    // shows one completed entry and no active one.
    let t0 = Timestamp(1704067200000); // 2024-01-01T00:00Z, in milliseconds
    let t1 = Timestamp(1704067500000); // 2024-01-01T00:05Z
    let t2 = Timestamp(1704153600000); // 2024-01-02T00:00Z
    let mut store = store_with_books(&[1]);
    let u1 = UserId(1);
    let u2 = UserId(2);

    assert_eq!(store.create(BookId(1), u1, t0), Ok(()));
    assert_eq!(store.create(BookId(1), u2, t1), Err(CheckoutError::AlreadyCheckedOut));
    let cid1 = active_checkout_id(&store, BookId(1));
    assert_eq!(store.return_book(cid1, BookId(1), u1, t2), Ok(()));

    let history = store.history_for_book(BookId(1));
    assert_eq!(history.len(), 1);
    assert_eq!(history[0].returned_at, Some(t2));
    assert_eq!(store.state_of(BookId(1)), CheckoutState::Available);
}
