use std::collections::HashMap;

use data::auth::{get_argon2_instance, hash_password, verify_password, PasswordError};
use data::controllers::{
    lookup_answer, store_answer, CustomerController, OrderController, ProductController,
    UserController,
};
use data::json::{patch_entries, JsonValue};
use data::middleware::{
    middleware_require_admin_role, middleware_require_any_auth, middleware_require_customer_role,
};
use data::models::{
    AuthError, Claims, Customer, Order, OrderWithProducts, Product, ProductInOrder, RequestUser,
    Roles, Timestamp, TokenResponse, User,
};
use data::patch::{check_order_patch, set_created_at, PatchCheck};
use data::services::{
    BindValue, CustomerService, DbMockData, OrderService, UserService, PG_LIMIT,
};
use data::status::Status;
use data::text::{chars_of, parse_i32, text_contains, text_eq};

fn s(x: &str) -> String {
    x.to_string()
}

fn obj(members: Vec<(&str, JsonValue)>) -> JsonValue {
    JsonValue::Object(members.into_iter().map(|(k, v)| (k.to_string(), v)).collect())
}

fn entries(members: Vec<(&str, JsonValue)>) -> Vec<(String, JsonValue)> {
    members.into_iter().map(|(k, v)| (k.to_string(), v)).collect()
}

fn customer() -> Customer {
    Customer { id: 1, name: s("Customer 1"), address: s("Address 1") }
}

fn product() -> Product {
    Product { id: 4, name: s("Lamp"), price: 600, available: true }
}

fn ts(year: i32, month: u32, day: u32, hour: u32, minute: u32, second: u32) -> Timestamp {
    Timestamp { year, month, day, hour, minute, second, nanosecond: 0 }
}

fn order() -> OrderWithProducts {
    let mut products = HashMap::new();
    products.insert(1, 5);
    OrderWithProducts {
        id: 7,
        customer_id: 1,
        status: s("New"),
        created_at: ts(2023, 4, 25, 8, 41, 23),
        products,
    }
}

#[test]
fn parse_i32_reads_decimal_numbers() {
    assert_eq!(parse_i32("123"), Some(123));
    assert_eq!(parse_i32("-5"), Some(-5));
    assert_eq!(parse_i32("+7"), Some(7));
    assert_eq!(parse_i32("007"), Some(7));
    assert_eq!(parse_i32("2147483647"), Some(i32::MAX));
    assert_eq!(parse_i32("-2147483648"), Some(i32::MIN));
}

#[test]
fn parse_i32_refuses_what_std_refuses() {
    for bad in ["", "-", "+", "2147483648", "-2147483649", "12a", " 1", "1.0", "99999999999999999999"] {
        assert_eq!(parse_i32(bad), None, "{bad}");
        assert!(bad.parse::<i32>().is_err());
    }
}

#[test]
fn text_helpers_compare_and_search() {
    assert!(text_eq("name", "name"));
    assert!(!text_eq("name", "names"));
    assert!(text_contains("example_customer", "customer"));
    assert!(!text_contains("cust", "customer"));
    assert!(text_contains("abc", ""));
    assert_eq!(chars_of("héllo"), vec!['h', 'é', 'l', 'l', 'o']);
}

#[test]
fn status_codes_are_http_codes() {
    assert_eq!(Status::BadRequest.code(), 400);
    assert_eq!(Status::Unauthorized.code(), 401);
    assert_eq!(Status::Forbidden.code(), 403);
    assert_eq!(Status::NotFound.code(), 404);
    assert_eq!(Status::InternalServerError.code(), 500);
}

#[test]
fn json_accessors_follow_the_value_kind() {
    assert_eq!(JsonValue::String(s("a")).as_str(), Some(s("a")));
    assert_eq!(JsonValue::Number(Some(3)).as_str(), None);
    assert_eq!(JsonValue::Number(Some(3)).as_i64(), Some(3));
    assert_eq!(JsonValue::Number(None).as_i64(), None);
    assert_eq!(JsonValue::Bool(true).as_bool(), Some(true));
    assert_eq!(JsonValue::Null.as_bool(), None);
}

#[test]
fn patch_entries_drops_the_id_and_refuses_non_objects() {
    let body = obj(vec![
        ("address", JsonValue::String(s("x"))),
        ("id", JsonValue::Number(Some(9))),
        ("name", JsonValue::String(s("y"))),
    ]);
    let es = patch_entries(body).unwrap();
    let keys: Vec<String> = es.iter().map(|e| e.0.clone()).collect();
    assert_eq!(keys, vec![s("address"), s("name")]);
    assert_eq!(patch_entries(JsonValue::Array(vec![])).unwrap_err(), Status::BadRequest);
    assert_eq!(patch_entries(JsonValue::Null).unwrap_err(), Status::BadRequest);
}

#[test]
fn customer_partial_update_sets_fields() {
    let es = || obj(vec![("address", JsonValue::String(s("Some other address")))]);
    let r = CustomerController::partial_update_customer(es(), Some(customer())).unwrap();
    assert_eq!(r, Customer { id: 1, name: s("Customer 1"), address: s("Some other address") });
    let es = || obj(vec![("name", JsonValue::String(s("A"))), ("name", JsonValue::String(s("B")))]);
    let r = CustomerController::partial_update_customer(es(), Some(customer())).unwrap();
    assert_eq!(r.name, "B");
}

#[test]
fn customer_partial_update_refusals() {
    let es = || obj(vec![("name", JsonValue::Number(Some(1)))]);
    assert_eq!(
        CustomerController::partial_update_customer(es(), Some(customer())),
        Err(Status::BadRequest)
    );
    let es = || obj(vec![("phone", JsonValue::String(s("1")))]);
    assert_eq!(
        CustomerController::partial_update_customer(es(), Some(customer())),
        Err(Status::BadRequest)
    );
    let es = || obj(vec![("name", JsonValue::String(s("x")))]);
    assert_eq!(CustomerController::partial_update_customer(es(), None), Err(Status::NotFound));
}

#[test]
fn customer_patch_twice_is_patch_once() {
    let es = || obj(vec![
        ("address", JsonValue::String(s("A2"))),
        ("name", JsonValue::String(s("N2"))),
    ]);
    let once = CustomerController::partial_update_customer(es(), Some(customer())).unwrap();
    let twice = CustomerController::partial_update_customer(es(), Some(once.clone())).unwrap();
    assert_eq!(once, twice);
    assert_eq!(once.id, 1);
}

#[test]
fn product_partial_update_sets_fields() {
    let es = || obj(vec![
        ("available", JsonValue::Bool(false)),
        ("price", JsonValue::Number(Some(1000))),
    ]);
    let r = ProductController::partial_update_product(es(), Some(product())).unwrap();
    assert_eq!(r, Product { id: 4, name: s("Lamp"), price: 1000, available: false });
    // a price beyond i32 is kept modulo 2^32, as `as i32` does
    let es = || obj(vec![("price", JsonValue::Number(Some(4294967297)))]);
    let r = ProductController::partial_update_product(es(), Some(product())).unwrap();
    assert_eq!(r.price, 1);
    let es = || obj(vec![("price", JsonValue::Number(None))]);
    assert_eq!(
        ProductController::partial_update_product(es(), Some(product())),
        Err(Status::BadRequest)
    );
    assert_eq!(ProductController::partial_update_product(es(), None), Err(Status::NotFound));
}

#[test]
fn full_updates_need_matching_ids() {
    assert_eq!(CustomerController::update_customer(1, customer()), Ok(customer()));
    assert_eq!(CustomerController::update_customer(2, customer()), Err(Status::BadRequest));
    assert_eq!(ProductController::update_product(4, product()), Ok(product()));
    assert_eq!(ProductController::update_product(5, product()), Err(Status::BadRequest));
    assert_eq!(OrderController::update_order(7, order()).unwrap().id, 7);
    assert_eq!(OrderController::update_order(8, order()).unwrap_err(), Status::BadRequest);
}

#[test]
fn answers_to_database_failures() {
    assert_eq!(lookup_answer(Some(3)), Ok(3));
    assert_eq!(lookup_answer::<i32>(None), Err(Status::NotFound));
    assert_eq!(store_answer(Some(())), Ok(()));
    assert_eq!(store_answer::<()>(None), Err(Status::InternalServerError));
}

#[test]
fn order_partial_update_sets_fields() {
    let es = || obj(vec![
        ("created_at", JsonValue::String(s("2024-01-02 03:04:05"))),
        ("customer_id", JsonValue::Number(Some(2))),
        (
            "products",
            obj(vec![("1", JsonValue::Number(Some(800))), ("2", JsonValue::Number(Some(15)))]),
        ),
        ("status", JsonValue::String(s("Done"))),
    ]);
    assert_eq!(check_order_patch(&patch_entries(es()).unwrap()), PatchCheck::Fine);
    let r = OrderController::partial_update_order(es(), Some(order())).unwrap();
    assert_eq!(r.id, 7);
    assert_eq!(r.customer_id, 2);
    assert_eq!(r.status, "Done");
    assert_eq!(r.created_at, ts(2024, 1, 2, 3, 4, 5));
    let mut expected = HashMap::new();
    expected.insert(1, 800);
    expected.insert(2, 15);
    assert_eq!(r.products, expected);
}

#[test]
fn order_partial_update_refusals() {
    let es = || obj(vec![("created_at", JsonValue::String(s("2023-04-25T08:41:23")))]);
    assert_eq!(check_order_patch(&patch_entries(es()).unwrap()), PatchCheck::Refused(Status::BadRequest));
    assert_eq!(
        OrderController::partial_update_order(es(), Some(order())).unwrap_err(),
        Status::BadRequest
    );
    let es = || obj(vec![("products", JsonValue::Array(vec![]))]);
    assert_eq!(
        OrderController::partial_update_order(es(), Some(order())).unwrap_err(),
        Status::BadRequest
    );
    let es = || obj(vec![("customer_id", JsonValue::String(s("1")))]);
    assert_eq!(
        OrderController::partial_update_order(es(), Some(order())).unwrap_err(),
        Status::BadRequest
    );
    assert_eq!(OrderController::partial_update_order(es(), None).unwrap_err(), Status::NotFound);
}

#[test]
fn order_patch_with_unreadable_products_aborts() {
    let bad_key = entries(vec![("products", obj(vec![("one", JsonValue::Number(Some(1)))]))]);
    assert_eq!(check_order_patch(&bad_key), PatchCheck::Aborted);
    let bad_value = entries(vec![("products", obj(vec![("1", JsonValue::Number(None))]))]);
    assert_eq!(check_order_patch(&bad_value), PatchCheck::Aborted);
    // an earlier refused member decides first
    let refused_first = entries(vec![
        ("customer_id", JsonValue::Null),
        ("products", obj(vec![("one", JsonValue::Number(Some(1)))])),
    ]);
    assert_eq!(check_order_patch(&refused_first), PatchCheck::Refused(Status::BadRequest));
}

#[test]
fn order_products_later_keys_override() {
    let es = || obj(vec![(
        "products",
        obj(vec![("+1", JsonValue::Number(Some(3))), ("1", JsonValue::Number(Some(4)))]),
    )]);
    let r = OrderController::partial_update_order(es(), Some(order())).unwrap();
    assert_eq!(r.products.len(), 1);
    assert_eq!(r.products[&1], 4);
}

#[test]
fn set_created_at_takes_the_read_time() {
    let r = set_created_at(order(), Some(ts(2020, 2, 29, 0, 0, 0))).unwrap();
    assert_eq!(r.created_at, ts(2020, 2, 29, 0, 0, 0));
    assert_eq!(set_created_at(order(), None).unwrap_err(), Status::BadRequest);
}

#[test]
fn order_patch_twice_is_patch_once() {
    let es = || obj(vec![
        ("status", JsonValue::String(s("In progress"))),
        ("products", obj(vec![("3", JsonValue::Number(Some(1)))])),
    ]);
    let once = OrderController::partial_update_order(es(), Some(order())).unwrap();
    let twice = OrderController::partial_update_order(es(), Some(once)).unwrap();
    let again = OrderController::partial_update_order(es(), Some(order())).unwrap();
    assert_eq!(twice.status, again.status);
    assert_eq!(twice.products, again.products);
    assert_eq!(twice.customer_id, again.customer_id);
    assert_eq!(twice.id, 7);
}

#[test]
fn authorize_needs_name_and_password() {
    let ok = RequestUser { name: s("a"), password: s("b") };
    assert_eq!(UserController::authorize(&ok), Ok(()));
    let no_name = RequestUser { name: s(""), password: s("b") };
    assert_eq!(UserController::authorize(&no_name), Err(AuthError::MissingCredentials));
    let no_password = RequestUser { name: s("a"), password: s("") };
    assert_eq!(UserController::authorize(&no_password), Err(AuthError::MissingCredentials));
}

#[test]
fn new_users_get_their_role_from_the_name() {
    let user = |n: &str| RequestUser { name: s(n), password: s("p") };
    assert_eq!(UserController::create_user(&user("example_customer")), Ok(Roles::Customer));
    assert_eq!(UserController::create_user(&user("example_admin")), Ok(Roles::Admin));
    assert_eq!(UserController::create_user(&user("admin_or_customer")), Ok(Roles::Customer));
    assert_eq!(UserController::create_user(&user("bob")), Err(AuthError::WrongCredentials));
}

#[test]
fn tokens_expire_five_minutes_after_issue() {
    assert_eq!(UserController::token_expiry(1_700_000_000), 1_700_000_300);
    let user = User { id: 1, name: s("u"), passwd_hash: s("h"), role: Roles::Admin };
    assert_eq!(
        UserController::claims_after_check(user.clone(), true, 10),
        Ok(Claims { name: s("u"), role: Roles::Admin, exp: 310 })
    );
    assert_eq!(
        UserController::claims_after_check(user, false, 10),
        Err(AuthError::WrongCredentials)
    );
}

#[test]
fn claims_come_from_a_checked_password() {
    let pepper: &'static [u8] = b"pepper";
    let argon2 = get_argon2_instance(pepper).unwrap();
    let hash = hash_password(&argon2, "example_password").unwrap();
    assert_eq!(verify_password(&argon2, "example_password", &hash), Ok(true));
    assert_eq!(verify_password(&argon2, "other", &hash), Ok(false));
    assert_eq!(verify_password(&argon2, "x", ""), Err(PasswordError::InvalidHash));
    let stored = User { id: 1, name: s("example_admin"), passwd_hash: hash.clone(), role: Roles::Admin };
    let good = RequestUser { name: s("example_admin"), password: s("example_password") };
    let bad = RequestUser { name: s("example_admin"), password: s("nope") };
    assert_eq!(
        UserController::get_claims(Some(stored.clone()), &good, pepper, 100),
        Ok(Claims { name: s("example_admin"), role: Roles::Admin, exp: 400 })
    );
    assert_eq!(
        UserController::get_claims(Some(stored.clone()), &bad, pepper, 100),
        Err(AuthError::WrongCredentials)
    );
    assert_eq!(UserController::get_claims(None, &good, pepper, 100), Err(AuthError::WrongCredentials));
    // a different pepper does not check out
    assert_eq!(
        UserController::get_claims(Some(stored.clone()), &good, b"salt", 100),
        Err(AuthError::WrongCredentials)
    );
    let broken = User { passwd_hash: s("not a hash"), ..stored };
    assert_eq!(
        UserController::get_claims(Some(broken), &good, pepper, 100),
        Err(AuthError::TokenCreation)
    );
}

#[test]
fn new_user_hashes_check_out() {
    let pepper: &'static [u8] = b"pepper";
    let hash = UserService::password_hash_for(pepper, "pw").unwrap();
    assert!(hash.starts_with("$argon2id$"));
    let argon2 = get_argon2_instance(pepper).unwrap();
    assert_eq!(verify_password(&argon2, "pw", &hash), Ok(true));
}

#[test]
fn role_checks_let_through_only_their_role() {
    let customer = Claims { name: s("c"), role: Roles::Customer, exp: 1 };
    let admin = Claims { name: s("a"), role: Roles::Admin, exp: 1 };
    assert_eq!(middleware_require_customer_role(&customer), Ok(()));
    assert_eq!(middleware_require_customer_role(&admin), Err(Status::Forbidden));
    assert_eq!(middleware_require_admin_role(&admin), Ok(()));
    assert_eq!(middleware_require_admin_role(&customer), Err(Status::Forbidden));
    assert_eq!(middleware_require_any_auth(&customer), Ok(()));
    assert_eq!(middleware_require_any_auth(&admin), Ok(()));
}

#[test]
fn token_response_is_a_bearer_token() {
    let r = TokenResponse::new(s("abc"));
    assert_eq!(r.token, "abc");
    assert_eq!(r.token_type, "Bearer");
    let c = Claims::new(s("n"), Roles::Customer, 5);
    assert_eq!(c, Claims { name: s("n"), role: Roles::Customer, exp: 5 });
}

#[test]
fn customer_insert_plans() {
    let cs = vec![customer(), Customer { id: 2, name: s("B"), address: s("Y") }];
    let with_id = CustomerService::create_customers(&cs, true);
    assert_eq!(with_id.head, "insert into customers (id, name, address) ");
    assert_eq!(with_id.columns, 3);
    assert_eq!(
        with_id.rows[1],
        vec![BindValue::Int(2), BindValue::Text(s("B")), BindValue::Text(s("Y"))]
    );
    let without = CustomerService::create_customers(&cs, false);
    assert_eq!(without.head, "insert into customers (name, address) ");
    assert_eq!(without.rows[0], vec![BindValue::Text(s("Customer 1")), BindValue::Text(s("Address 1"))]);
}

#[test]
fn insert_plans_stop_at_the_bind_limit() {
    let many: Vec<Customer> =
        (0..40000).map(|i| Customer { id: i, name: s("n"), address: s("a") }).collect();
    let with_id = CustomerService::create_customers(&many, true);
    assert_eq!(with_id.rows.len(), 21845);
    assert!(with_id.rows.len() * with_id.columns <= PG_LIMIT as usize);
    let without = CustomerService::create_customers(&many, false);
    assert_eq!(without.rows.len(), 32767);
    assert!(without.rows.len() * without.columns <= PG_LIMIT as usize);
    let lines: Vec<ProductInOrder> =
        (0..30000).map(|i| ProductInOrder { product_id: i, order_id: 1, quantity: 1 }).collect();
    let plan = OrderService::products_in_order_plan(&lines);
    assert_eq!(plan.rows.len(), 21845);
    assert_eq!(plan.head, "insert into products_in_orders (order_id, product_id, quantity) ");
}

#[test]
fn order_lines_from_a_map() {
    let mut m = HashMap::new();
    m.insert(1, 5);
    m.insert(2, 15);
    let mut rows = OrderService::products_in_order(9, &m);
    rows.sort_by_key(|r| r.product_id);
    assert_eq!(
        rows,
        vec![
            ProductInOrder { product_id: 1, order_id: 9, quantity: 5 },
            ProductInOrder { product_id: 2, order_id: 9, quantity: 15 },
        ]
    );
    let plan = OrderService::products_in_order_plan(&rows);
    assert_eq!(plan.rows[0], vec![BindValue::Int(9), BindValue::Int(1), BindValue::Int(5)]);
}

#[test]
fn stored_lines_become_the_order_map() {
    let o = Order { id: 3, customer_id: 2, status: s("New"), created_at: ts(2023, 1, 1, 0, 0, 0) };
    let lines = vec![
        ProductInOrder { product_id: 1, order_id: 3, quantity: 3 },
        ProductInOrder { product_id: 2, order_id: 3, quantity: 4 },
        ProductInOrder { product_id: 1, order_id: 3, quantity: 9 },
    ];
    let r = OrderService::get_order_with_products(o, &lines);
    assert_eq!(r.id, 3);
    assert_eq!(r.customer_id, 2);
    assert_eq!(r.status, "New");
    assert_eq!(r.products.len(), 2);
    assert_eq!(r.products[&1], 9);
    assert_eq!(r.products[&2], 4);
}

#[test]
fn mock_data() {
    let cs = CustomerService::mock_customers();
    assert_eq!(cs[0], Customer { id: 1, name: s("Customer 1"), address: s("Address 1") });
    assert_eq!(cs[1], Customer { id: 2, name: s("Customer 2"), address: s("Address 2") });
    let users = UserService::mock_users();
    assert_eq!(users[0].0.name, "example_customer");
    assert_eq!(users[0].1, Roles::Customer);
    assert_eq!(users[1].0.name, "example_admin");
    assert_eq!(users[1].0.password, "example_password");
    assert_eq!(users[1].1, Roles::Admin);
    let ps = vec![product(), Product { id: 5, name: s("Desk"), price: 1, available: true }];
    let now = ts(2023, 4, 25, 8, 41, 23);
    let orders = OrderService::mock_orders(&ps, &cs, now);
    assert_eq!(orders.len(), 3);
    assert_eq!(orders[1].id, 2);
    assert_eq!(orders[1].products[&4], 6);
    assert_eq!(orders[2].customer_id, 2);
    assert_eq!(orders[2].status, "New");
    assert_eq!(orders[2].products[&5], 4);
    assert_eq!(orders[0].created_at, now);
    let _ = DbMockData::new();
    let _ = DbMockData::default();
}

#[test]
fn written_lines_read_back_as_the_same_map() {
    let mut m = HashMap::new();
    m.insert(10, 1);
    m.insert(11, 2);
    m.insert(12, 3);
    let rows = OrderService::products_in_order(4, &m);
    let o = Order { id: 4, customer_id: 1, status: s("New"), created_at: ts(2023, 1, 1, 0, 0, 0) };
    let back = OrderService::get_order_with_products(o, &rows);
    assert_eq!(back.products, m);
}

#[test]
fn unreadable_order_patch_is_reported_not_applied() {
    let bad = || obj(vec![("products", obj(vec![("x", JsonValue::Number(Some(1)))]))]);
    assert!(OrderController::try_partial_update_order(bad(), Some(order())).is_none());
    assert_eq!(
        OrderController::try_partial_update_order(bad(), None).unwrap().unwrap_err(),
        Status::NotFound
    );
    let good = || obj(vec![("status", JsonValue::String(s("Done")))]);
    let r = OrderController::try_partial_update_order(good(), Some(order())).unwrap().unwrap();
    assert_eq!(r.status, "Done");
}

#[test]
fn non_object_bodies_are_refused_whatever_the_lookup() {
    assert!(!JsonValue::Array(vec![]).is_object());
    assert!(obj(vec![]).is_object());
    assert_eq!(
        CustomerController::partial_update_customer(JsonValue::Null, Some(customer())),
        Err(Status::BadRequest)
    );
    assert_eq!(
        CustomerController::partial_update_customer(JsonValue::Array(vec![]), None),
        Err(Status::BadRequest)
    );
    assert_eq!(
        ProductController::partial_update_product(JsonValue::Bool(true), Some(product())),
        Err(Status::BadRequest)
    );
    assert_eq!(
        OrderController::partial_update_order(JsonValue::Number(Some(1)), Some(order()))
            .unwrap_err(),
        Status::BadRequest
    );
    assert_eq!(
        OrderController::try_partial_update_order(JsonValue::Null, None).unwrap().unwrap_err(),
        Status::BadRequest
    );
}

#[test]
fn the_id_member_of_a_patch_is_ignored() {
    let body = obj(vec![("id", JsonValue::Number(Some(99))), ("name", JsonValue::String(s("Z")))]);
    let r = CustomerController::partial_update_customer(body, Some(customer())).unwrap();
    assert_eq!(r, Customer { id: 1, name: s("Z"), address: s("Address 1") });
}

#[test]
fn a_new_user_logs_in_with_their_password_only() {
    let pepper: &'static [u8] = b"pepper";
    let hash = UserService::password_hash_for(pepper, "secret").unwrap();
    let created = User { id: 3, name: s("new_customer"), passwd_hash: hash, role: Roles::Customer };
    let claims = UserController::claims_for_new_user(Some(created.clone()), 50).unwrap();
    assert_eq!(claims, Claims { name: s("new_customer"), role: Roles::Customer, exp: 350 });
    assert_eq!(UserController::claims_for_new_user(None, 50), Err(AuthError::WrongCredentials));
    let right = RequestUser { name: s("new_customer"), password: s("secret") };
    let wrong = RequestUser { name: s("new_customer"), password: s("Secret") };
    assert_eq!(
        UserController::get_claims(Some(created.clone()), &right, pepper, 50),
        Ok(Claims { name: s("new_customer"), role: Roles::Customer, exp: 350 })
    );
    assert_eq!(
        UserController::get_claims(Some(created), &wrong, pepper, 50),
        Err(AuthError::WrongCredentials)
    );
}

#[test]
fn order_rows_with_and_without_id() {
    let with_id = OrderService::order_row_insert(&order(), true);
    assert_eq!(
        with_id.sql,
        "insert into orders (id, customer_id, status, created_at) values ($1, $2, $3, $4) returning id"
    );
    assert_eq!(
        with_id.binds,
        vec![
            BindValue::Int(7),
            BindValue::Int(1),
            BindValue::Text(s("New")),
            BindValue::Time(ts(2023, 4, 25, 8, 41, 23)),
        ]
    );
    let without = OrderService::order_row_insert(&order(), false);
    assert_eq!(
        without.sql,
        "insert into orders (customer_id, status, created_at) values ($1, $2, $3) returning id"
    );
    assert_eq!(without.binds.len(), 3);
    assert_eq!(without.binds[0], BindValue::Int(1));
}
