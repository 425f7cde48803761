//! Identity and authorization data: the shapes the auth collaborator trades
//! in, and the authenticated caller the request layer hands to handlers.

use vstd::prelude::*;

use crate::ids::{Timestamp, UserId};

verus! {

/// Role of a user.
#[derive(Clone, Copy, PartialEq, Eq, Structural, Debug)]
pub enum Role {
    Admin,
    User,
}

/// A user record, as the user collaborator supplies it.
#[derive(Debug)]
pub struct User {
    pub id: UserId,
    pub name: String,
    pub email: String,
    pub role: Role,
}

/// A bearer access token.
#[derive(Debug)]
pub struct AccessToken(pub String);

/// A freshly issued token, bound to the user it authorizes.
pub struct CreateToken {
    pub user_id: UserId,
    pub access_token: String,
}

/// A row of the credential relation: a user and their password hash.
pub struct UserItem {
    pub user_id: UserId,
    pub password_hash: String,
}

/// The key under which a token is cached.
pub struct AuthorizationKey(pub String);

/// The user id a cached token authorizes.
#[derive(Clone, Copy, PartialEq, Eq, Structural, Debug)]
pub struct AuthorizedUserId(pub UserId);

/// Splits a token event into the cache key and the value cached under it.
pub fn from(event: CreateToken) -> (r: (AuthorizationKey, AuthorizedUserId))
    ensures
        r.0.0 == event.access_token,
        r.1.0 == event.user_id,
{
    (AuthorizationKey(event.access_token), AuthorizedUserId(event.user_id))
}

impl AuthorizationKey {
    /// The token string the key carries, for handing to the cache.
    pub fn into_inner(self) -> (r: String)
        ensures
            r == self.0,
    {
        self.0
    }

    /// The bearer token the key came from.
    pub fn into_token(self) -> (r: AccessToken)
        ensures
            r.0 == self.0,
    {
        AccessToken(self.0)
    }

    /// The cache key for a bearer token.
    pub fn from_token(token: &AccessToken) -> (r: Self)
        ensures
            r.0 == token.0,
    {
        AuthorizationKey(token.0.clone())
    }
}

impl AuthorizedUserId {
    /// The user id the cached value authorizes.
    pub fn into_inner(self) -> (r: UserId)
        ensures
            r == self.0,
    {
        self.0
    }
}

/// A request's authenticated caller: the token it presented and the user
/// record it resolved to.
pub struct AuthorizedUser {
    pub access_token: AccessToken,
    pub user: User,
}

impl AuthorizedUser {
    /// Identity of the caller.
    pub fn id(&self) -> (r: UserId)
        ensures
            r == self.user.id,
    {
        self.user.id
    }

    /// Whether the caller holds the administrator role.
    pub fn is_admin(&self) -> (r: bool)
        ensures
            r == (self.user.role == Role::Admin),
    {
        self.user.role == Role::Admin
    }
}

/// The role a label names, if any: the variant's own name.
pub open spec fn role_of_label(label: Seq<char>) -> Option<Role> {
    if label == "Admin"@ {
        Some(Role::Admin)
    } else if label == "User"@ {
        Some(Role::User)
    } else {
        None
    }
}

impl Role {
    /// Reads a role from its label.
    pub fn from_label(label: &str) -> (r: Option<Role>)
        ensures
            r == role_of_label(label@),
    {
        let owned = label.to_owned();
        let admin = "Admin".to_owned();
        let user = "User".to_owned();
        if owned == admin {
            Some(Role::Admin)
        } else if owned == user {
            Some(Role::User)
        } else {
            None
        }
    }
}

/// A user row joined with its role name, as the persistence layer reads it.
pub struct UserRow {
    pub user_id: UserId,
    pub name: String,
    pub email: String,
    pub role_name: String,
    pub created_at: Timestamp,
    pub updated_at: Timestamp,
}

impl UserRow {
    /// Shapes the row as a user record; `None` when the role name is not a
    /// role of this system.
    pub fn into_user(self) -> (r: Option<User>)
        ensures
            match r {
                Some(user) => {
                    &&& role_of_label(self.role_name@) == Some(user.role)
                    &&& user.id == self.user_id
                    &&& user.name == self.name
                    &&& user.email == self.email
                },
                None => role_of_label(self.role_name@) is None,
            },
    {
        let UserRow { user_id, name, email, role_name, created_at: _, updated_at: _ } = self;
        match Role::from_label(role_name.as_str()) {
            Some(role) => Some(User { id: user_id, name, email, role }),
            None => None,
        }
    }
}

} // verus!