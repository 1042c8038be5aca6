use std::collections::HashMap;
use vstd::prelude::*;

use crate::json::{json_bool, json_i64, json_str, JsonValue};
use crate::models::{Customer, OrderView, OrderWithProducts, Product, Timestamp};
use crate::status::Status;
use crate::text::{parse_i32, spec_parse_i32, text_eq};
use crate::time::{chrono_naive_datetime, parse_naive_datetime};

verus! {

broadcast use vstd::std_specs::hash::group_hash_axioms;

// ---------------------------------------------------------------------
// Customers
// ---------------------------------------------------------------------

/// One member of a customer patch: `name` and `address` take a string,
/// any other key, or a value of another kind, is refused.
pub open spec fn customer_patch_step(c: Customer, key: Seq<char>, v: JsonValue) -> Result<
    Customer,
    Status,
> {
    if key == "name"@ {
        match json_str(v) {
            Some(s) => Ok(Customer { id: c.id, name: s, address: c.address }),
            None => Err(Status::BadRequest),
        }
    } else if key == "address"@ {
        match json_str(v) {
            Some(s) => Ok(Customer { id: c.id, name: c.name, address: s }),
            None => Err(Status::BadRequest),
        }
    } else {
        Err(Status::BadRequest)
    }
}

/// A customer patch: its members applied in order; the first refused
/// member refuses the whole patch.
pub open spec fn customer_patch(c: Customer, es: Seq<(String, JsonValue)>) -> Result<
    Customer,
    Status,
>
    decreases es.len(),
{
    if es.len() == 0 {
        Ok(c)
    } else {
        match customer_patch(c, es.drop_last()) {
            Ok(c1) => customer_patch_step(c1, es.last().0@, es.last().1),
            Err(e) => Err(e),
        }
    }
}

proof fn lemma_customer_patch_err_sticks(c: Customer, es: Seq<(String, JsonValue)>, k: int)
    requires
        0 <= k <= es.len(),
        customer_patch(c, es.take(k)) is Err,
    ensures
        customer_patch(c, es) == customer_patch(c, es.take(k)),
    decreases es.len() - k,
{
    if k < es.len() {
        assert(es.take(k + 1).drop_last() =~= es.take(k));
        lemma_customer_patch_err_sticks(c, es, k + 1);
    } else {
        assert(es.take(k) =~= es);
    }
}

fn customer_step(c: Customer, key: &String, v: &JsonValue) -> (r: Result<Customer, Status>)
    ensures
        r == customer_patch_step(c, key@, *v),
{
    if text_eq(key.as_str(), "name") {
        match v.as_str() {
            Some(s) => Ok(Customer { id: c.id, name: s, address: c.address }),
            None => Err(Status::BadRequest),
        }
    } else if text_eq(key.as_str(), "address") {
        match v.as_str() {
            Some(s) => Ok(Customer { id: c.id, name: c.name, address: s }),
            None => Err(Status::BadRequest),
        }
    } else {
        Err(Status::BadRequest)
    }
}

/// Applies the members of a patch body to `customer`.
pub fn apply_customer_patch(customer: Customer, entries: &Vec<(String, JsonValue)>) -> (r: Result<
    Customer,
    Status,
>)
    ensures
        r == customer_patch(customer, entries@),
{
    let ghost c0 = customer;
    let mut cur = customer;
    let mut i: usize = 0;
    while i < entries.len()
        invariant
            i <= entries.len(),
            c0 == customer,
            customer_patch(c0, entries@.take(i as int)) == Ok::<Customer, Status>(cur),
        decreases entries.len() - i,
    {
        assert(entries@.take(i + 1).drop_last() =~= entries@.take(i as int));
        let e = &entries[i];
        match customer_step(cur, &e.0, &e.1) {
            Ok(c) => {
                cur = c;
            },
            Err(s) => {
                assert(entries@.take(i + 1).last() == entries@[i as int]);
                assert(customer_patch(c0, entries@.take(i + 1)) == Err::<Customer, Status>(s));
                proof {
                    lemma_customer_patch_err_sticks(c0, entries@, i + 1);
                }
                return Err(s);
            },
        }
        i = i + 1;
    }
    assert(entries@.take(i as int) =~= entries@);
    Ok(cur)
}

// ---------------------------------------------------------------------
// Products
// ---------------------------------------------------------------------

/// One member of a product patch: `name` takes a string, `price` an
/// integer (kept modulo 2^32 as an `i32`), `available` a boolean.
pub open spec fn product_patch_step(p: Product, key: Seq<char>, v: JsonValue) -> Result<
    Product,
    Status,
> {
    if key == "name"@ {
        match json_str(v) {
            Some(s) => Ok(Product { id: p.id, name: s, price: p.price, available: p.available }),
            None => Err(Status::BadRequest),
        }
    } else if key == "price"@ {
        match json_i64(v) {
            Some(n) => Ok(
                Product { id: p.id, name: p.name, price: n as i32, available: p.available },
            ),
            None => Err(Status::BadRequest),
        }
    } else if key == "available"@ {
        match json_bool(v) {
            Some(b) => Ok(Product { id: p.id, name: p.name, price: p.price, available: b }),
            None => Err(Status::BadRequest),
        }
    } else {
        Err(Status::BadRequest)
    }
}

/// A product patch: its members applied in order; the first refused
/// member refuses the whole patch.
pub open spec fn product_patch(p: Product, es: Seq<(String, JsonValue)>) -> Result<
    Product,
    Status,
>
    decreases es.len(),
{
    if es.len() == 0 {
        Ok(p)
    } else {
        match product_patch(p, es.drop_last()) {
            Ok(p1) => product_patch_step(p1, es.last().0@, es.last().1),
            Err(e) => Err(e),
        }
    }
}

proof fn lemma_product_patch_err_sticks(p: Product, es: Seq<(String, JsonValue)>, k: int)
    requires
        0 <= k <= es.len(),
        product_patch(p, es.take(k)) is Err,
    ensures
        product_patch(p, es) == product_patch(p, es.take(k)),
    decreases es.len() - k,
{
    if k < es.len() {
        assert(es.take(k + 1).drop_last() =~= es.take(k));
        lemma_product_patch_err_sticks(p, es, k + 1);
    } else {
        assert(es.take(k) =~= es);
    }
}

fn product_step(p: Product, key: &String, v: &JsonValue) -> (r: Result<Product, Status>)
    ensures
        r == product_patch_step(p, key@, *v),
{
    if text_eq(key.as_str(), "name") {
        match v.as_str() {
            Some(s) => Ok(Product { id: p.id, name: s, price: p.price, available: p.available }),
            None => Err(Status::BadRequest),
        }
    } else if text_eq(key.as_str(), "price") {
        match v.as_i64() {
            Some(n) => Ok(
                Product { id: p.id, name: p.name, price: n as i32, available: p.available },
            ),
            None => Err(Status::BadRequest),
        }
    } else if text_eq(key.as_str(), "available") {
        match v.as_bool() {
            Some(b) => Ok(Product { id: p.id, name: p.name, price: p.price, available: b }),
            None => Err(Status::BadRequest),
        }
    } else {
        Err(Status::BadRequest)
    }
}

/// Applies the members of a patch body to `product`.
pub fn apply_product_patch(product: Product, entries: &Vec<(String, JsonValue)>) -> (r: Result<
    Product,
    Status,
>)
    ensures
        r == product_patch(product, entries@),
{
    let ghost p0 = product;
    let mut cur = product;
    let mut i: usize = 0;
    while i < entries.len()
        invariant
            i <= entries.len(),
            p0 == product,
            product_patch(p0, entries@.take(i as int)) == Ok::<Product, Status>(cur),
        decreases entries.len() - i,
    {
        assert(entries@.take(i + 1).drop_last() =~= entries@.take(i as int));
        let e = &entries[i];
        match product_step(cur, &e.0, &e.1) {
            Ok(p) => {
                cur = p;
            },
            Err(s) => {
                assert(entries@.take(i + 1).last() == entries@[i as int]);
                assert(product_patch(p0, entries@.take(i + 1)) == Err::<Product, Status>(s));
                proof {
                    lemma_product_patch_err_sticks(p0, entries@, i + 1);
                }
                return Err(s);
            },
        }
        i = i + 1;
    }
    assert(entries@.take(i as int) =~= entries@);
    Ok(cur)
}

// ---------------------------------------------------------------------
// Orders
// ---------------------------------------------------------------------

/// How a patch body fares before it is applied: it goes through, it is
/// refused with a status, or it cannot be handled at all (a `products`
/// member whose lines cannot be read ends the request without an answer).
#[derive(Clone, Copy, Debug, PartialEq, Eq, Structural)]
pub enum PatchCheck {
    Fine,
    Refused(Status),
    Aborted,
}

/// Whether every line of a `products` object can be read: each key a
/// decimal `i32`, each value an integral number.
pub open spec fn products_readable(pes: Seq<(String, JsonValue)>) -> bool {
    forall|i: int|
        0 <= i < pes.len() ==> (spec_parse_i32(#[trigger] pes[i].0@) is Some && json_i64(
            pes[i].1,
        ) is Some)
}

/// The lines that a readable `products` object sets, later members
/// overriding earlier ones with the same product id; quantities are kept
/// modulo 2^32 as `i32`.
pub open spec fn products_map(pes: Seq<(String, JsonValue)>) -> Map<i32, i32>
    decreases pes.len(),
{
    if pes.len() == 0 {
        Map::empty()
    } else {
        products_map(pes.drop_last()).insert(
            spec_parse_i32(pes.last().0@).unwrap(),
            json_i64(pes.last().1).unwrap() as i32,
        )
    }
}

/// The format in which a patch gives `created_at`.
pub open spec fn created_at_format() -> Seq<char> {
    "%Y-%m-%d %H:%M:%S"@
}

/// How one member of an order patch fares.
pub open spec fn order_step_check(key: Seq<char>, v: JsonValue) -> PatchCheck {
    if key == "customer_id"@ {
        if json_i64(v) is Some {
            PatchCheck::Fine
        } else {
            PatchCheck::Refused(Status::BadRequest)
        }
    } else if key == "status"@ {
        if json_str(v) is Some {
            PatchCheck::Fine
        } else {
            PatchCheck::Refused(Status::BadRequest)
        }
    } else if key == "created_at"@ {
        match json_str(v) {
            Some(s) => if chrono_naive_datetime(s@, created_at_format()) is Some {
                PatchCheck::Fine
            } else {
                PatchCheck::Refused(Status::BadRequest)
            },
            None => PatchCheck::Refused(Status::BadRequest),
        }
    } else if key == "products"@ {
        match v {
            JsonValue::Object(pes) => if products_readable(pes@) {
                PatchCheck::Fine
            } else {
                PatchCheck::Aborted
            },
            _ => PatchCheck::Refused(Status::BadRequest),
        }
    } else {
        PatchCheck::Refused(Status::BadRequest)
    }
}

/// How an order patch fares: the first member that does not go through
/// decides.
pub open spec fn order_patch_check(es: Seq<(String, JsonValue)>) -> PatchCheck
    decreases es.len(),
{
    if es.len() == 0 {
        PatchCheck::Fine
    } else {
        let before = order_patch_check(es.drop_last());
        if before is Fine {
            order_step_check(es.last().0@, es.last().1)
        } else {
            before
        }
    }
}

/// What one member that goes through does to an order.
pub open spec fn order_step_apply(o: OrderView, key: Seq<char>, v: JsonValue) -> OrderView {
    if key == "customer_id"@ {
        OrderView { customer_id: json_i64(v).unwrap() as i32, ..o }
    } else if key == "status"@ {
        OrderView { status: json_str(v).unwrap()@, ..o }
    } else if key == "created_at"@ {
        OrderView {
            created_at: chrono_naive_datetime(json_str(v).unwrap()@, created_at_format()).unwrap(),
            ..o
        }
    } else {
        match v {
            JsonValue::Object(pes) => OrderView { products: products_map(pes@), ..o },
            _ => o,
        }
    }
}

/// What an order patch that goes through does to an order.
pub open spec fn order_patch_apply(o: OrderView, es: Seq<(String, JsonValue)>) -> OrderView
    decreases es.len(),
{
    if es.len() == 0 {
        o
    } else {
        order_step_apply(order_patch_apply(o, es.drop_last()), es.last().0@, es.last().1)
    }
}

proof fn lemma_order_check_sticks(es: Seq<(String, JsonValue)>, k: int)
    requires
        0 <= k <= es.len(),
        !(order_patch_check(es.take(k)) is Fine),
    ensures
        order_patch_check(es) == order_patch_check(es.take(k)),
    decreases es.len() - k,
{
    if k < es.len() {
        assert(es.take(k + 1).drop_last() =~= es.take(k));
        lemma_order_check_sticks(es, k + 1);
    } else {
        assert(es.take(k) =~= es);
    }
}

/// Reads the lines of a `products` object, or nothing where one of them
/// cannot be read.
fn read_products(pes: &Vec<(String, JsonValue)>) -> (r: Option<HashMap<i32, i32>>)
    ensures
        products_readable(pes@) ==> (r matches Some(m) && m@ == products_map(pes@)),
        !products_readable(pes@) ==> r is None,
{
    let mut m: HashMap<i32, i32> = HashMap::new();
    let mut i: usize = 0;
    while i < pes.len()
        invariant
            i <= pes.len(),
            products_readable(pes@.take(i as int)),
            m@ == products_map(pes@.take(i as int)),
        decreases pes.len() - i,
    {
        let ghost prefix = pes@.take(i as int);
        let ghost next = pes@.take(i + 1);
        assert(next.drop_last() =~= prefix);
        let e = &pes[i];
        let key = parse_i32(e.0.as_str());
        let value = e.1.as_i64();
        match (key, value) {
            (Some(k), Some(v)) => {
                m.insert(k, v as i32);
                assert(products_readable(next)) by {
                    assert forall|j: int| 0 <= j < next.len() implies (spec_parse_i32(
                        #[trigger] next[j].0@,
                    ) is Some && json_i64(next[j].1) is Some) by {
                        if j < prefix.len() {
                            assert(next[j] == prefix[j]);
                        }
                    }
                }
            },
            _ => {
                assert(!products_readable(pes@)) by {
                    assert(pes@[i as int] == *e);
                }
                return None;
            },
        }
        i = i + 1;
    }
    assert(pes@.take(i as int) =~= pes@);
    Some(m)
}

/// How a patch body's members fare on an order, member by member.
fn order_step_checked(key: &String, v: &JsonValue) -> (r: PatchCheck)
    ensures
        r == order_step_check(key@, *v),
{
    if text_eq(key.as_str(), "customer_id") {
        if v.as_i64().is_some() {
            PatchCheck::Fine
        } else {
            PatchCheck::Refused(Status::BadRequest)
        }
    } else if text_eq(key.as_str(), "status") {
        if v.as_str().is_some() {
            PatchCheck::Fine
        } else {
            PatchCheck::Refused(Status::BadRequest)
        }
    } else if text_eq(key.as_str(), "created_at") {
        match v.as_str() {
            Some(s) => if parse_naive_datetime(s.as_str(), "%Y-%m-%d %H:%M:%S").is_some() {
                PatchCheck::Fine
            } else {
                PatchCheck::Refused(Status::BadRequest)
            },
            None => PatchCheck::Refused(Status::BadRequest),
        }
    } else if text_eq(key.as_str(), "products") {
        match v {
            JsonValue::Object(pes) => if read_products(pes).is_some() {
                PatchCheck::Fine
            } else {
                PatchCheck::Aborted
            },
            _ => PatchCheck::Refused(Status::BadRequest),
        }
    } else {
        PatchCheck::Refused(Status::BadRequest)
    }
}

/// How the members of an order patch fare, before any is applied.
pub fn check_order_patch(entries: &Vec<(String, JsonValue)>) -> (r: PatchCheck)
    ensures
        r == order_patch_check(entries@),
{
    let mut i: usize = 0;
    while i < entries.len()
        invariant
            i <= entries.len(),
            order_patch_check(entries@.take(i as int)) is Fine,
        decreases entries.len() - i,
    {
        assert(entries@.take(i + 1).drop_last() =~= entries@.take(i as int));
        assert(entries@.take(i + 1).last() == entries@[i as int]);
        let e = &entries[i];
        let c = order_step_checked(&e.0, &e.1);
        if !(c == PatchCheck::Fine) {
            proof {
                lemma_order_check_sticks(entries@, i + 1);
            }
            return c;
        }
        i = i + 1;
    }
    assert(entries@.take(i as int) =~= entries@);
    PatchCheck::Fine
}

/// Sets an order's creation time from the outcome of reading it: a text
/// that could not be read is refused with `BadRequest`.
pub fn set_created_at(order: OrderWithProducts, parsed: Option<Timestamp>) -> (r: Result<
    OrderWithProducts,
    Status,
>)
    ensures
        match parsed {
            Some(t) => r matches Ok(o) && o@ == OrderView { created_at: t, ..order@ },
            None => r is Err && r == Err::<OrderWithProducts, Status>(Status::BadRequest),
        },
{
    match parsed {
        Some(t) => Ok(OrderWithProducts { created_at: t, ..order }),
        None => Err(Status::BadRequest),
    }
}

fn order_step(o: OrderWithProducts, key: &String, v: &JsonValue) -> (r: OrderWithProducts)
    requires
        order_step_check(key@, *v) is Fine,
    ensures
        r@ == order_step_apply(o@, key@, *v),
{
    if text_eq(key.as_str(), "customer_id") {
        let n = v.as_i64().unwrap();
        OrderWithProducts { customer_id: n as i32, ..o }
    } else if text_eq(key.as_str(), "status") {
        let s = v.as_str().unwrap();
        OrderWithProducts { status: s, ..o }
    } else if text_eq(key.as_str(), "created_at") {
        let s = v.as_str().unwrap();
        let parsed = parse_naive_datetime(s.as_str(), "%Y-%m-%d %H:%M:%S");
        match set_created_at(o, parsed) {
            Ok(o2) => o2,
            Err(_) => {
                assert(false);
                OrderWithProducts {
                    id: 0,
                    customer_id: 0,
                    status: String::new(),
                    created_at: Timestamp {
                        year: 0,
                        month: 0,
                        day: 0,
                        hour: 0,
                        minute: 0,
                        second: 0,
                        nanosecond: 0,
                    },
                    products: HashMap::new(),
                }
            },
        }
    } else {
        match v {
            JsonValue::Object(pes) => {
                let m = read_products(pes).unwrap();
                OrderWithProducts { products: m, ..o }
            },
            _ => o,
        }
    }
}

/// Applies the members of a patch body to `order`. A body that cannot be
/// handled at all (see `check_order_patch`) is left out.
pub fn apply_order_patch(order: OrderWithProducts, entries: &Vec<(String, JsonValue)>) -> (r:
    Result<OrderWithProducts, Status>)
    requires
        order_patch_check(entries@) != PatchCheck::Aborted,
    ensures
        match order_patch_check(entries@) {
            PatchCheck::Fine => r matches Ok(o) && o@ == order_patch_apply(order@, entries@),
            PatchCheck::Refused(s) => r is Err && r->Err_0 == s,
            PatchCheck::Aborted => false,
        },
{
    let ghost o0 = order@;
    let mut cur = order;
    let mut i: usize = 0;
    while i < entries.len()
        invariant
            i <= entries.len(),
            o0 == order@,
            order_patch_check(entries@) != PatchCheck::Aborted,
            order_patch_check(entries@.take(i as int)) is Fine,
            cur@ == order_patch_apply(o0, entries@.take(i as int)),
        decreases entries.len() - i,
    {
        assert(entries@.take(i + 1).drop_last() =~= entries@.take(i as int));
        assert(entries@.take(i + 1).last() == entries@[i as int]);
        let e = &entries[i];
        let c = order_step_checked(&e.0, &e.1);
        if !(c == PatchCheck::Fine) {
            proof {
                lemma_order_check_sticks(entries@, i + 1);
            }
            match c {
                PatchCheck::Refused(s) => {
                    return Err(s);
                },
                _ => {
                    assert(false);
                    return Err(Status::BadRequest);
                },
            }
        }
        cur = order_step(cur, &e.0, &e.1);
        i = i + 1;
    }
    assert(entries@.take(i as int) =~= entries@);
    Ok(cur)
}

} // verus!
