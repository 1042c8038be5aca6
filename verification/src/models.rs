use std::collections::HashMap;
use vstd::prelude::*;

verus! {

/// A customer as the `customers` table holds it.
#[derive(Clone, Debug, PartialEq, Eq, Hash, Default)]
pub struct Customer {
    pub id: i32,
    pub name: String,
    pub address: String,
}

/// A product as the `products` table holds it.
#[derive(Clone, Debug, PartialEq, Eq, Hash, Default)]
pub struct Product {
    pub id: i32,
    pub name: String,
    pub price: i32,
    pub available: bool,
}

/// A date and time of day without a time zone, field by field.
#[derive(Clone, Copy, Debug, PartialEq, Eq, Structural, Hash, Default)]
pub struct Timestamp {
    pub year: i32,
    pub month: u32,
    pub day: u32,
    pub hour: u32,
    pub minute: u32,
    pub second: u32,
    pub nanosecond: u32,
}

/// An order as the `orders` table holds it.
#[derive(Clone, Debug, PartialEq, Eq, Hash, Default)]
pub struct Order {
    pub id: i32,
    pub customer_id: i32,
    pub status: String,
    pub created_at: Timestamp,
}

/// One line of an order: how many of a product it holds.
#[derive(Clone, Copy, Debug, PartialEq, Eq, Structural)]
pub struct ProductInOrder {
    pub product_id: i32,
    pub order_id: i32,
    pub quantity: i32,
}

/// An order together with its lines, from product id to quantity.
#[derive(Debug, Default)]
pub struct OrderWithProducts {
    pub id: i32,
    pub customer_id: i32,
    pub status: String,
    pub created_at: Timestamp,
    pub products: HashMap<i32, i32>,
}

/// What an `OrderWithProducts` holds, with its lines as a map.
#[verifier::ext_equal]
pub struct OrderView {
    pub id: i32,
    pub customer_id: i32,
    pub status: Seq<char>,
    pub created_at: Timestamp,
    pub products: Map<i32, i32>,
}

impl View for OrderWithProducts {
    type V = OrderView;

    open spec fn view(&self) -> OrderView {
        OrderView {
            id: self.id,
            customer_id: self.customer_id,
            status: self.status@,
            created_at: self.created_at,
            products: self.products@,
        }
    }
}

/// The `id` query parameter of a request.
#[derive(Clone, Copy, Debug, PartialEq, Eq, Structural)]
pub struct QueryIdParam {
    pub id: i32,
}

/// The answer to a successful authorisation: a token and its kind.
#[derive(Clone, Debug, PartialEq, Eq)]
pub struct TokenResponse {
    pub token: String,
    pub token_type: String,
}

impl TokenResponse {
    /// A bearer token response for `token`.
    pub fn new(token: String) -> (r: TokenResponse)
        ensures
            r.token == token,
            r.token_type@ == "Bearer"@,
    {
        TokenResponse { token, token_type: String::from_str("Bearer") }
    }
}

/// The role that a user holds.
#[derive(Clone, Copy, Debug, PartialEq, Eq, Structural, Hash)]
pub enum Roles {
    Customer,
    Admin,
}

/// The credentials that a client sends.
#[derive(Clone, Debug, PartialEq, Eq)]
pub struct RequestUser {
    pub name: String,
    pub password: String,
}

/// A user as the `users` table holds it.
#[derive(Clone, Debug, PartialEq, Eq)]
pub struct User {
    pub id: i32,
    pub name: String,
    pub passwd_hash: String,
    pub role: Roles,
}

/// What a token asserts: whose it is, the role it grants, and when it
/// expires (seconds since the Unix epoch).
#[derive(Clone, Debug, PartialEq, Eq)]
pub struct Claims {
    pub name: String,
    pub role: Roles,
    pub exp: usize,
}

impl Claims {
    /// Claims for `name` in `role`, expiring at `exp`.
    pub fn new(name: String, role: Roles, exp: usize) -> (r: Claims)
        ensures
            r.name == name,
            r.role == role,
            r.exp == exp,
    {
        Claims { name, role, exp }
    }
}

/// Why an authorisation request is refused.
#[derive(Clone, Copy, Debug, PartialEq, Eq, Structural)]
pub enum AuthError {
    WrongCredentials,
    MissingCredentials,
    TokenCreation,
    InvalidToken,
}

} // verus!
