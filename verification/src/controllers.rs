use vstd::prelude::*;

use crate::auth::{
    get_argon2_instance, hash_admits, lemma_hash_then_check, max_secret_len, password_check,
    verify_password,
};
use crate::json::{patch_entries, without_key, JsonValue};
use crate::models::{AuthError, Claims, Customer, OrderWithProducts, Product, RequestUser, Roles, User};
use crate::patch::{
    apply_customer_patch, apply_order_patch, check_order_patch, apply_product_patch, customer_patch, order_patch_apply,
    order_patch_check, product_patch, PatchCheck,
};
use crate::status::Status;
use crate::text::{seq_contains, text_contains};

verus! {

/// How long a token stays valid, divided by twelve: an hour.
pub const HOUR_IN_SECONDS: usize = 3600;

/// The answer to a read of one record: a record that is not there is
/// answered `NotFound`.
pub fn lookup_answer<T>(found: Option<T>) -> (r: Result<T, Status>)
    ensures
        match found {
            Some(x) => r == Ok::<T, Status>(x),
            None => r == Err::<T, Status>(Status::NotFound),
        },
{
    match found {
        Some(x) => Ok(x),
        None => Err(Status::NotFound),
    }
}

/// The answer to any other database operation (a listing, an insert, an
/// update): a failure is answered `InternalServerError`.
pub fn store_answer<T>(done: Option<T>) -> (r: Result<T, Status>)
    ensures
        match done {
            Some(x) => r == Ok::<T, Status>(x),
            None => r == Err::<T, Status>(Status::InternalServerError),
        },
{
    match done {
        Some(x) => Ok(x),
        None => Err(Status::InternalServerError),
    }
}

/// The handlers of the customer routes.
pub struct CustomerController;

impl CustomerController {
    /// The customer that a full update stores: refused with `BadRequest`
    /// where the id in the path is not the id in the body.
    pub fn update_customer(id: i32, customer: Customer) -> (r: Result<Customer, Status>)
        ensures
            id == customer.id ==> r == Ok::<Customer, Status>(customer),
            id != customer.id ==> r == Err::<Customer, Status>(Status::BadRequest),
    {
        if id != customer.id {
            return Err(Status::BadRequest);
        }
        Ok(customer)
    }

    /// The customer that a partial update stores, given the request body
    /// and the stored customer (if the lookup found one): a body that is
    /// not a JSON object is refused with `BadRequest` whatever the lookup
    /// gave (the lookup is then not needed, see `JsonValue::is_object`);
    /// the body's `id` member is ignored.
    pub fn partial_update_customer(body: JsonValue, stored: Option<Customer>) -> (r: Result<
        Customer,
        Status,
    >)
        ensures
            match body {
                JsonValue::Object(es) => match stored {
                    None => r == Err::<Customer, Status>(Status::NotFound),
                    Some(c) => r == customer_patch(c, without_key(es@, "id"@)),
                },
                _ => r == Err::<Customer, Status>(Status::BadRequest),
            },
    {
        let entries = match patch_entries(body) {
            Ok(es) => es,
            Err(s) => {
                return Err(s);
            },
        };
        match stored {
            None => Err(Status::NotFound),
            Some(c) => apply_customer_patch(c, &entries),
        }
    }
}

/// The handlers of the product routes.
pub struct ProductController;

impl ProductController {
    /// The product that a full update stores: refused with `BadRequest`
    /// where the id in the path is not the id in the body.
    pub fn update_product(id: i32, product: Product) -> (r: Result<Product, Status>)
        ensures
            id == product.id ==> r == Ok::<Product, Status>(product),
            id != product.id ==> r == Err::<Product, Status>(Status::BadRequest),
    {
        if id != product.id {
            return Err(Status::BadRequest);
        }
        Ok(product)
    }

    /// The product that a partial update stores, given the request body
    /// and the stored product (if the lookup found one): a body that is not
    /// a JSON object is refused with `BadRequest` whatever the lookup gave;
    /// the body's `id` member is ignored.
    pub fn partial_update_product(body: JsonValue, stored: Option<Product>) -> (r: Result<
        Product,
        Status,
    >)
        ensures
            match body {
                JsonValue::Object(es) => match stored {
                    None => r == Err::<Product, Status>(Status::NotFound),
                    Some(p) => r == product_patch(p, without_key(es@, "id"@)),
                },
                _ => r == Err::<Product, Status>(Status::BadRequest),
            },
    {
        let entries = match patch_entries(body) {
            Ok(es) => es,
            Err(s) => {
                return Err(s);
            },
        };
        match stored {
            None => Err(Status::NotFound),
            Some(p) => apply_product_patch(p, &entries),
        }
    }
}

/// The handlers of the order routes.
pub struct OrderController;

impl OrderController {
    /// The order that a full update stores: refused with `BadRequest`
    /// where the id in the path is not the id in the body.
    pub fn update_order(id: i32, order: OrderWithProducts) -> (r: Result<
        OrderWithProducts,
        Status,
    >)
        ensures
            id == order.id ==> (r matches Ok(o) && o@ == order@),
            id != order.id ==> r is Err && r->Err_0 == Status::BadRequest,
    {
        if id != order.id {
            return Err(Status::BadRequest);
        }
        Ok(order)
    }

    /// The order that a partial update stores, given the request body and
    /// the stored order (if the lookup found one): a body that is not a
    /// JSON object is refused with `BadRequest` whatever the lookup gave;
    /// the body's `id` member is ignored. A patch whose products cannot be
    /// read ends the request instead, and is left out.
    pub fn partial_update_order(body: JsonValue, stored: Option<OrderWithProducts>) -> (r: Result<
        OrderWithProducts,
        Status,
    >)
        requires
            body is Object && stored is Some ==> order_patch_check(
                without_key(body->Object_0@, "id"@),
            ) != PatchCheck::Aborted,
        ensures
            match body {
                JsonValue::Object(es) => match stored {
                    None => r is Err && r->Err_0 == Status::NotFound,
                    Some(o) => match order_patch_check(without_key(es@, "id"@)) {
                        PatchCheck::Fine => r matches Ok(o2) && o2@ == order_patch_apply(
                            o@,
                            without_key(es@, "id"@),
                        ),
                        PatchCheck::Refused(s) => r is Err && r->Err_0 == s,
                        PatchCheck::Aborted => false,
                    },
                },
                _ => r is Err && r->Err_0 == Status::BadRequest,
            },
    {
        let entries = match patch_entries(body) {
            Ok(es) => es,
            Err(s) => {
                return Err(s);
            },
        };
        match stored {
            None => Err(Status::NotFound),
            Some(o) => apply_order_patch(o, &entries),
        }
    }

    /// A partial update of an order for any body: `None` where the body is
    /// an object, the stored order was found, and the patch cannot be
    /// handled at all (the request then ends without an answer), and
    /// otherwise what `partial_update_order` answers.
    pub fn try_partial_update_order(body: JsonValue, stored: Option<OrderWithProducts>) -> (r:
        Option<Result<OrderWithProducts, Status>>)
        ensures
            match body {
                JsonValue::Object(es) => match stored {
                    None => r == Some(Err::<OrderWithProducts, Status>(Status::NotFound)),
                    Some(o) => match order_patch_check(without_key(es@, "id"@)) {
                        PatchCheck::Fine => r matches Some(Ok(o2)) && o2@ == order_patch_apply(
                            o@,
                            without_key(es@, "id"@),
                        ),
                        PatchCheck::Refused(s) => r == Some(Err::<OrderWithProducts, Status>(s)),
                        PatchCheck::Aborted => r is None,
                    },
                },
                _ => r == Some(Err::<OrderWithProducts, Status>(Status::BadRequest)),
            },
    {
        let entries = match patch_entries(body) {
            Ok(es) => es,
            Err(s) => {
                return Some(Err(s));
            },
        };
        match stored {
            None => Some(Err(Status::NotFound)),
            Some(o) => {
                if check_order_patch(&entries) == PatchCheck::Aborted {
                    None
                } else {
                    Some(apply_order_patch(o, &entries))
                }
            },
        }
    }
}

/// When a token issued at `now` (seconds since the Unix epoch) expires:
/// `HOUR_IN_SECONDS / 12` seconds later.
pub open spec fn token_expiry_spec(now: i64) -> int {
    (now as usize) + 300
}

/// The handlers of the user routes.
pub struct UserController;

impl UserController {
    /// The check that `authorize` makes before it looks the user up: a
    /// request with an empty name or password is refused with
    /// `MissingCredentials`.
    pub fn authorize(request: &RequestUser) -> (r: Result<(), AuthError>)
        ensures
            r is Err <==> (request.name@.len() == 0 || request.password@.len() == 0),
            r is Err ==> r->Err_0 == AuthError::MissingCredentials,
    {
        if request.name.as_str().is_empty() || request.password.as_str().is_empty() {
            return Err(AuthError::MissingCredentials);
        }
        Ok(())
    }

    /// The role that `create_user` gives a new user: `Customer` where the
    /// name contains "customer", else `Admin` where it contains "admin",
    /// else the request is refused with `WrongCredentials`.
    pub fn create_user(request: &RequestUser) -> (r: Result<Roles, AuthError>)
        ensures
            seq_contains(request.name@, "customer"@) ==> r == Ok::<Roles, AuthError>(
                Roles::Customer,
            ),
            !seq_contains(request.name@, "customer"@) && seq_contains(request.name@, "admin"@)
                ==> r == Ok::<Roles, AuthError>(Roles::Admin),
            !seq_contains(request.name@, "customer"@) && !seq_contains(request.name@, "admin"@)
                ==> r == Err::<Roles, AuthError>(AuthError::WrongCredentials),
    {
        if text_contains(request.name.as_str(), "customer") {
            Ok(Roles::Customer)
        } else if text_contains(request.name.as_str(), "admin") {
            Ok(Roles::Admin)
        } else {
            Err(AuthError::WrongCredentials)
        }
    }

    /// When a token issued at `now` expires.
    pub fn token_expiry(now: i64) -> (r: usize)
        requires
            token_expiry_spec(now) <= usize::MAX,
        ensures
            r == token_expiry_spec(now),
    {
        (now as usize) + HOUR_IN_SECONDS / 12
    }

    /// The claims granted to `user` once the password check has come out
    /// as `verified`: a failed check is refused with `WrongCredentials`.
    pub fn claims_after_check(user: User, verified: bool, now: i64) -> (r: Result<
        Claims,
        AuthError,
    >)
        requires
            verified ==> token_expiry_spec(now) <= usize::MAX,
        ensures
            verified ==> r == Ok::<Claims, AuthError>(
                Claims { name: user.name, role: user.role, exp: token_expiry_spec(now) as usize },
            ),
            !verified ==> r == Err::<Claims, AuthError>(AuthError::WrongCredentials),
    {
        if verified {
            Ok(Claims::new(user.name, user.role, Self::token_expiry(now)))
        } else {
            Err(AuthError::WrongCredentials)
        }
    }

    /// The claims that `authorize` grants, given the stored user with the
    /// requested name (if the lookup found one), the Argon2 pepper and the
    /// time of the request.
    pub fn get_claims(stored: Option<User>, request: &RequestUser, pepper: &[u8], now: i64) -> (r:
        Result<Claims, AuthError>)
        requires
            stored is Some ==> token_expiry_spec(now) <= usize::MAX,
        ensures
            r == claims_outcome(stored, request.password@, pepper@, now),
    {
        let user = match stored {
            Some(u) => u,
            None => {
                return Err(AuthError::WrongCredentials);
            },
        };
        let argon2 = match get_argon2_instance(pepper) {
            Ok(a) => a,
            Err(_) => {
                return Err(AuthError::TokenCreation);
            },
        };
        let verified = match verify_password(
            &argon2,
            request.password.as_str(),
            user.passwd_hash.as_str(),
        ) {
            Ok(v) => v,
            Err(_) => {
                return Err(AuthError::TokenCreation);
            },
        };
        Self::claims_after_check(user, verified, now)
    }

    /// The claims in the token that `create_user` answers with, given the
    /// stored user that the insert gave back (if it succeeded): a failed
    /// insert is refused with `WrongCredentials`.
    pub fn claims_for_new_user(created: Option<User>, now: i64) -> (r: Result<Claims, AuthError>)
        requires
            created is Some ==> token_expiry_spec(now) <= usize::MAX,
        ensures
            match created {
                Some(u) => r == Ok::<Claims, AuthError>(
                    Claims { name: u.name, role: u.role, exp: token_expiry_spec(now) as usize },
                ),
                None => r == Err::<Claims, AuthError>(AuthError::WrongCredentials),
            },
    {
        match created {
            Some(u) => Ok(Claims::new(u.name, u.role, Self::token_expiry(now))),
            None => Err(AuthError::WrongCredentials),
        }
    }
}

/// What `authorize` answers once the user has been looked up: no such
/// user, or a password that does not check out against the stored hash,
/// is refused with `WrongCredentials`; a pepper that Argon2 refuses, or a
/// stored text that is no PHC string, with `TokenCreation`; otherwise the
/// user's claims, valid for five minutes from `now`.
pub open spec fn claims_outcome(
    stored: Option<User>,
    password: Seq<char>,
    pepper: Seq<u8>,
    now: i64,
) -> Result<Claims, AuthError> {
    match stored {
        None => Err(AuthError::WrongCredentials),
        Some(u) => if pepper.len() > max_secret_len() {
            Err(AuthError::TokenCreation)
        } else {
            match password_check(pepper, password, u.passwd_hash@) {
                Err(_) => Err(AuthError::TokenCreation),
                Ok(true) => Ok(
                    Claims { name: u.name, role: u.role, exp: token_expiry_spec(now) as usize },
                ),
                Ok(false) => Err(AuthError::WrongCredentials),
            }
        },
    }
}

/// A user whose stored hash was made for a password (as
/// `UserService::password_hash_for` makes it) can log in with that
/// password: `authorize` grants the user's name and role.
pub proof fn lemma_created_user_logs_in(user: User, password: Seq<char>, pepper: Seq<u8>, now: i64)
    requires
        pepper.len() <= max_secret_len(),
        hash_admits(pepper, password, user.passwd_hash@),
    ensures
        claims_outcome(Some(user), password, pepper, now) == Ok::<Claims, AuthError>(
            Claims { name: user.name, role: user.role, exp: token_expiry_spec(now) as usize },
        ),
{
    lemma_hash_then_check(pepper, password, user.passwd_hash@);
}

} // verus!
