//! Plain identities and instants used throughout the checkout core.

use vstd::prelude::*;

verus! {

/// Identity of a book in the catalog.
#[derive(Clone, Copy, PartialEq, Eq, Structural, Debug)]
pub struct BookId(pub u64);

/// Identity of a user.
#[derive(Clone, Copy, PartialEq, Eq, Structural, Debug)]
pub struct UserId(pub u64);

/// Identity of one loan instance; generated once per checkout, never reused.
#[derive(Clone, Copy, PartialEq, Eq, Structural, Debug)]
pub struct CheckoutId(pub u64);

/// An instant, counted in milliseconds from an arbitrary epoch.
#[derive(Clone, Copy, PartialEq, Eq, Structural, Debug)]
pub struct Timestamp(pub i64);

} // verus!
