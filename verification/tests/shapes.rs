use lending_core::auth::{
    from, AccessToken, AuthorizationKey, AuthorizedUser, AuthorizedUserId, CreateToken, Role, User,
};
use lending_core::book::{
    default_limit, Book, BookCheckoutRow, BookListQuery, BookOwner, BookRow, CreateBookRequest,
    PaginatedList, UpdateBookRequest, UpdateBookRequestWithIds,
};
use lending_core::book::{BookResponse, PaginatedBookResponse};
use lending_core::checkout_records::{
    CheckoutBook, CheckoutBookResponse, CheckoutResponse, CheckoutRow, CheckoutsResponse,
    ReturnedCheckoutRow,
};
use lending_core::checkout_state::{decide_create, decide_return, CheckoutError, CheckoutStateRow};
use lending_core::env::Environment;
use lending_core::ids::{BookId, CheckoutId, Timestamp, UserId};

#[test]
fn decide_create_covers_each_outcome() {
    assert_eq!(decide_create(&None), Err(CheckoutError::EntityNotFound));

    let checked_out = Some(CheckoutStateRow {
        book_id: BookId(1),
        checkout_id: Some(CheckoutId(5)),
        user_id: None,
    });
    assert_eq!(decide_create(&checked_out), Err(CheckoutError::AlreadyCheckedOut));

    let available = Some(CheckoutStateRow { book_id: BookId(1), checkout_id: None, user_id: None });
    assert_eq!(decide_create(&available), Ok(()));
}

#[test]
fn decide_return_covers_each_outcome() {
    assert_eq!(
        decide_return(&None, CheckoutId(5), UserId(7)),
        Err(CheckoutError::EntityNotFound),
    );

    let available = Some(CheckoutStateRow { book_id: BookId(1), checkout_id: None, user_id: None });
    assert_eq!(
        decide_return(&available, CheckoutId(5), UserId(7)),
        Err(CheckoutError::NotCheckedOut),
    );

    let held = Some(CheckoutStateRow {
        book_id: BookId(1),
        checkout_id: Some(CheckoutId(5)),
        user_id: Some(UserId(7)),
    });
    assert_eq!(decide_return(&held, CheckoutId(5), UserId(7)), Ok(()));
    assert_eq!(
        decide_return(&held, CheckoutId(6), UserId(7)),
        Err(CheckoutError::Conflict),
    );
    assert_eq!(
        decide_return(&held, CheckoutId(5), UserId(8)),
        Err(CheckoutError::Conflict),
    );
}

#[test]
fn checkout_row_shapes_to_outstanding_loan() {
    let row = CheckoutRow {
        checkout_id: CheckoutId(5),
        book_id: BookId(1),
        user_id: UserId(7),
        checked_out_at: Timestamp(1000),
        title: String::from("a title"),
        author: String::from("an author"),
        isbn: String::from("an isbn"),
    };
    let c = row.into_checkout();
    assert_eq!(c.id, CheckoutId(5));
    assert_eq!(c.checked_out_by, UserId(7));
    assert_eq!(c.checked_out_at, Timestamp(1000));
    assert_eq!(c.returned_at, None);
    assert_eq!(c.book.book_id, BookId(1));
    assert_eq!(c.book.title, "a title");
    assert_eq!(c.book.author, "an author");
    assert_eq!(c.book.isbn, "an isbn");
}

#[test]
fn returned_row_shapes_to_completed_loan() {
    let row = ReturnedCheckoutRow {
        checkout_id: CheckoutId(5),
        book_id: BookId(1),
        user_id: UserId(7),
        checked_out_at: Timestamp(1000),
        returned_at: Timestamp(2000),
        title: String::from("a title"),
        author: String::from("an author"),
        isbn: String::from("an isbn"),
    };
    let c = row.into_checkout();
    assert_eq!(c.id, CheckoutId(5));
    assert_eq!(c.returned_at, Some(Timestamp(2000)));
    assert_eq!(c.book.isbn, "an isbn");
}

#[test]
fn checkout_responses_keep_fields_and_order() {
    let make = |id: u64, at: i64| lending_core::checkout_records::Checkout {
        id: CheckoutId(id),
        checked_out_by: UserId(7),
        checked_out_at: Timestamp(at),
        returned_at: None,
        book: CheckoutBook {
            book_id: BookId(1),
            title: String::from("t"),
            author: String::from("a"),
            isbn: String::from("i"),
        },
    };
    let response = CheckoutsResponse::from_checkouts(vec![make(1, 100), make(2, 200)]);
    assert_eq!(response.items.len(), 2);
    assert_eq!(response.items[0].id, CheckoutId(1));
    assert_eq!(response.items[0].checked_out_at, Timestamp(100));
    assert_eq!(response.items[1].id, CheckoutId(2));
    assert_eq!(response.items[0].book.id, BookId(1));
    assert_eq!(response.items[0].book.title, "t");

    let single = CheckoutResponse::from_checkout(make(3, 300));
    assert_eq!(single.id, CheckoutId(3));
    assert_eq!(single.returned_at, None);

    let book_only = CheckoutBookResponse::from_book(CheckoutBook {
        book_id: BookId(9),
        title: String::from("t9"),
        author: String::from("a9"),
        isbn: String::from("i9"),
    });
    assert_eq!(book_only.id, BookId(9));
    assert_eq!(book_only.author, "a9");
}

#[test]
fn book_row_shapes_to_book() {
    let row = BookRow {
        book_id: BookId(1),
        title: String::from("t"),
        author: String::from("a"),
        isbn: String::from("i"),
        description: String::from("d"),
        owned_by: UserId(7),
        owner_name: String::from("owner"),
    };
    let checkout = BookCheckoutRow {
        checkout_id: CheckoutId(5),
        book_id: BookId(1),
        user_id: UserId(8),
        user_name: String::from("holder"),
        checked_out_at: Timestamp(1000),
    }
    .into_checkout();
    assert_eq!(checkout.checkout_id, CheckoutId(5));
    assert_eq!(checkout.checked_out_by.id, UserId(8));
    assert_eq!(checkout.checked_out_by.name, "holder");

    let book = row.into_book(Some(checkout));
    assert_eq!(book.id, BookId(1));
    assert_eq!(book.owner.id, UserId(7));
    assert_eq!(book.owner.name, "owner");
    assert!(book.checkout.is_some());
}

#[test]
fn book_requests_validate_non_empty_fields() {
    let good = CreateBookRequest {
        title: String::from("t"),
        author: String::from("a"),
        isbn: String::from("i"),
        description: String::new(),
    };
    assert!(good.validate());

    let bad = CreateBookRequest {
        title: String::new(),
        author: String::from("a"),
        isbn: String::from("i"),
        description: String::from("d"),
    };
    assert!(!bad.validate());

    let event = good.into_event();
    assert_eq!(event.title, "t");
    assert_eq!(event.description, "");

    let update = UpdateBookRequest {
        title: String::from("t2"),
        author: String::from("a2"),
        isbn: String::new(),
        description: String::new(),
    };
    assert!(!update.validate());
}

#[test]
fn update_request_binds_ids_into_event() {
    let request = UpdateBookRequest {
        title: String::from("t"),
        author: String::from("a"),
        isbn: String::from("i"),
        description: String::from("d"),
    };
    let event = UpdateBookRequestWithIds::new(BookId(1), UserId(7), request).into_event();
    assert_eq!(event.book_id, BookId(1));
    assert_eq!(event.requested_user, UserId(7));
    assert_eq!(event.author, "a");
}

#[test]
fn list_query_validates_and_defaults() {
    assert_eq!(default_limit(), 20);
    let query = BookListQuery { limit: default_limit(), offset: 0 };
    assert!(query.validate());
    let negative = BookListQuery { limit: -1, offset: 0 };
    assert!(!negative.validate());
    let options = BookListQuery { limit: 10, offset: 40 }.into_options();
    assert_eq!(options.limit, 10);
    assert_eq!(options.offset, 40);
}

#[test]
fn paginated_response_keeps_window_and_items() {
    let book = |id: u64| Book {
        id: BookId(id),
        title: format!("t{}", id),
        author: format!("a{}", id),
        isbn: format!("i{}", id),
        description: String::new(),
        owner: BookOwner { id: UserId(7), name: String::from("owner") },
        checkout: None,
    };
    let page = PaginatedList { total: 12, limit: 2, offset: 4, items: vec![book(5), book(6)] };
    let response = PaginatedBookResponse::from_list(page);
    assert_eq!(response.total, 12);
    assert_eq!(response.limit, 2);
    assert_eq!(response.offset, 4);
    assert_eq!(response.items.len(), 2);
    assert_eq!(response.items[0].id, BookId(5));
    assert_eq!(response.items[1].title, "t6");

    let lone = BookResponse::from_book(book(9));
    assert_eq!(lone.id, BookId(9));
    assert_eq!(lone.owner.name, "owner");
}

#[test]
fn environment_labels_parse_and_default() {
    assert_eq!(Environment::from_label("development"), Some(Environment::Development));
    assert_eq!(Environment::from_label("production"), Some(Environment::Production));
    assert_eq!(Environment::from_label("staging"), None);
    assert_eq!(Environment::from_label("Production"), None);
    assert_eq!(Environment::default(), Environment::Development);
}

#[test]
fn token_event_splits_into_key_and_value() {
    let (key, value) = from(CreateToken {
        user_id: UserId(7),
        access_token: String::from("token-123"),
    });
    assert_eq!(key.0, "token-123");
    assert_eq!(value, AuthorizedUserId(UserId(7)));
    assert_eq!(value.into_inner(), UserId(7));

    let token = AccessToken(String::from("token-456"));
    let key = AuthorizationKey::from_token(&token);
    assert_eq!(key.0, "token-456");
    assert_eq!(key.into_token().0, "token-456");
    let key = AuthorizationKey::from_token(&token);
    assert_eq!(key.into_inner(), "token-456");
}

#[test]
fn authorized_user_exposes_id_and_role() {
    let admin = AuthorizedUser {
        access_token: AccessToken(String::from("token")),
        user: User {
            id: UserId(7),
            name: String::from("name"),
            email: String::from("mail"),
            role: Role::Admin,
        },
    };
    assert_eq!(admin.id(), UserId(7));
    assert!(admin.is_admin());

    let member = AuthorizedUser {
        access_token: AccessToken(String::from("token")),
        user: User {
            id: UserId(8),
            name: String::from("name"),
            email: String::from("mail"),
            role: Role::User,
        },
    };
    assert_eq!(member.id(), UserId(8));
    assert!(!member.is_admin());
}

#[test]
fn user_row_shapes_to_user_when_role_is_known() {
    let row = |role_name: &str| lending_core::auth::UserRow {
        user_id: UserId(7),
        name: String::from("name"),
        email: String::from("mail"),
        role_name: String::from(role_name),
        created_at: Timestamp(1),
        updated_at: Timestamp(2),
    };
    let user = row("Admin").into_user().expect("a known role");
    assert_eq!(user.id, UserId(7));
    assert_eq!(user.role, Role::Admin);
    let user = row("User").into_user().expect("a known role");
    assert_eq!(user.role, Role::User);
    assert!(row("Librarian").into_user().is_none());
    assert_eq!(Role::from_label("Admin"), Some(Role::Admin));
    assert_eq!(Role::from_label("admin"), None);
}
