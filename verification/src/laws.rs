use vstd::prelude::*;

use crate::json::{json_bool, json_i64, json_str, JsonValue};
use crate::models::{Customer, OrderView, Product, ProductInOrder, Timestamp};
use crate::controllers::{claims_outcome, token_expiry_spec, HOUR_IN_SECONDS};
use crate::models::{Claims, User};
use crate::patch::{
    created_at_format, customer_patch, customer_patch_step, order_patch_apply, order_step_check,
    product_patch, product_patch_step, products_map, PatchCheck,
};
use crate::services::{lines_map, order_line_row, BindValue};
use crate::text::spec_parse_i32;
use crate::status::Status;
use crate::time::chrono_naive_datetime;

verus! {

/// The value that the last member of `es` for which `sel` picks one
/// gives, or `x` where none does.
pub open spec fn last_set<T>(
    es: Seq<(String, JsonValue)>,
    sel: spec_fn(Seq<char>, JsonValue) -> Option<T>,
    x: T,
) -> T
    decreases es.len(),
{
    if es.len() == 0 {
        x
    } else {
        match sel(es.last().0@, es.last().1) {
            Some(t) => t,
            None => last_set(es.drop_last(), sel, x),
        }
    }
}

proof fn lemma_last_set_idempotent<T>(
    es: Seq<(String, JsonValue)>,
    sel: spec_fn(Seq<char>, JsonValue) -> Option<T>,
    x: T,
)
    ensures
        last_set(es, sel, last_set(es, sel, x)) == last_set(es, sel, x),
    decreases es.len(),
{
    if es.len() > 0 {
        match sel(es.last().0@, es.last().1) {
            Some(t) => {},
            None => {
                lemma_last_set_idempotent(es.drop_last(), sel, x);
                lemma_last_set_reaches_start(es.drop_last(), sel, x);
            },
        }
    }
}

/// Either some member sets the value, and the start does not matter, or
/// none does and the start comes back.
proof fn lemma_last_set_reaches_start<T>(
    es: Seq<(String, JsonValue)>,
    sel: spec_fn(Seq<char>, JsonValue) -> Option<T>,
    x: T,
)
    ensures
        last_set(es, sel, x) == x || forall|y: T| last_set(es, sel, y) == last_set(es, sel, x),
    decreases es.len(),
{
    if es.len() > 0 {
        lemma_last_set_reaches_start(es.drop_last(), sel, x);
        match sel(es.last().0@, es.last().1) {
            Some(t) => {},
            None => {
                if last_set(es.drop_last(), sel, x) != x {
                    assert forall|y: T| last_set(es, sel, y) == last_set(es, sel, x) by {
                        assert(last_set(es, sel, y) == last_set(es.drop_last(), sel, y));
                    }
                }
            },
        }
    }
}

// ---------------------------------------------------------------------
// Customers
// ---------------------------------------------------------------------

/// The name that a customer patch member sets, if it sets one.
pub open spec fn sets_customer_name(k: Seq<char>, v: JsonValue) -> Option<String> {
    if k == "name"@ {
        json_str(v)
    } else {
        None
    }
}

/// Picks the name that a customer patch member sets.
pub open spec fn customer_name_sel() -> spec_fn(Seq<char>, JsonValue) -> Option<String> {
    |k: Seq<char>, v: JsonValue| sets_customer_name(k, v)
}

/// Picks the address that a customer patch member sets.
pub open spec fn customer_address_sel() -> spec_fn(Seq<char>, JsonValue) -> Option<String> {
    |k: Seq<char>, v: JsonValue| sets_customer_address(k, v)
}

/// The address that a customer patch member sets, if it sets one.
pub open spec fn sets_customer_address(k: Seq<char>, v: JsonValue) -> Option<String> {
    if k == "address"@ {
        json_str(v)
    } else {
        None
    }
}

proof fn lemma_customer_patch_shape(c: Customer, d: Customer, es: Seq<(String, JsonValue)>)
    ensures
        customer_patch(c, es) is Err <==> customer_patch(d, es) is Err,
        customer_patch(c, es) is Err ==> customer_patch(c, es) == customer_patch(d, es),
        customer_patch(c, es) is Ok ==> customer_patch(c, es)->Ok_0 == (Customer {
            id: c.id,
            name: last_set(es, customer_name_sel(), c.name),
            address: last_set(es, customer_address_sel(), c.address),
        }),
    decreases es.len(),
{
    reveal_strlit("name");
    reveal_strlit("address");
    if es.len() > 0 {
        lemma_customer_patch_shape(c, d, es.drop_last());
        let k = es.last().0@;
        let v = es.last().1;
        assert(last_set(es, customer_name_sel(), c.name) == match sets_customer_name(k, v) {
            Some(t) => t,
            None => last_set(es.drop_last(), customer_name_sel(), c.name),
        });
        assert(last_set(es, customer_address_sel(), c.address) == match sets_customer_address(
            k,
            v,
        ) {
            Some(t) => t,
            None => last_set(es.drop_last(), customer_address_sel(), c.address),
        });
        assert("name"@.len() == 4 && "address"@.len() == 7);
        assert("name"@ != "address"@);
        if customer_patch(c, es) is Ok {
            let c0 = customer_patch(c, es.drop_last())->Ok_0;
            assert(customer_patch(c, es.drop_last()) is Ok);
            assert(customer_patch(c, es) == customer_patch_step(c0, k, v));
            if k == "name"@ {
                assert(sets_customer_address(k, v) is None);
            } else {
                assert(k == "address"@);
                assert(sets_customer_name(k, v) is None);
            }
        }
    } else {
        assert(customer_patch(c, es) == Ok::<Customer, Status>(c));
        assert(last_set(es, customer_name_sel(), c.name) == c.name);
    }
}

/// A customer patch never changes the customer's id.
pub proof fn lemma_customer_patch_keeps_id(c: Customer, es: Seq<(String, JsonValue)>)
    ensures
        customer_patch(c, es) is Ok ==> customer_patch(c, es)->Ok_0.id == c.id,
{
    lemma_customer_patch_shape(c, c, es);
}

/// Whether a customer patch is refused, and with which status, does not
/// depend on the customer it is applied to.
pub proof fn lemma_customer_patch_refusal_ignores_record(
    c: Customer,
    d: Customer,
    es: Seq<(String, JsonValue)>,
)
    ensures
        customer_patch(c, es) is Err <==> customer_patch(d, es) is Err,
        customer_patch(c, es) is Err ==> customer_patch(c, es) == customer_patch(d, es),
{
    lemma_customer_patch_shape(c, d, es);
}

/// Applying a customer patch a second time changes nothing.
pub proof fn lemma_customer_patch_idempotent(c: Customer, es: Seq<(String, JsonValue)>)
    requires
        customer_patch(c, es) is Ok,
    ensures
        customer_patch(customer_patch(c, es)->Ok_0, es) == customer_patch(c, es),
{
    let c1 = customer_patch(c, es)->Ok_0;
    lemma_customer_patch_shape(c, c1, es);
    lemma_customer_patch_shape(c1, c1, es);
    lemma_last_set_idempotent(es, customer_name_sel(), c.name);
    lemma_last_set_idempotent(es, customer_address_sel(), c.address);
}

// ---------------------------------------------------------------------
// Products
// ---------------------------------------------------------------------

/// Picks the name that a product patch member sets.
pub open spec fn product_name_sel() -> spec_fn(Seq<char>, JsonValue) -> Option<String> {
    |k: Seq<char>, v: JsonValue| if k == "name"@ { json_str(v) } else { None }
}

/// Picks the price that a product patch member sets.
pub open spec fn product_price_sel() -> spec_fn(Seq<char>, JsonValue) -> Option<i32> {
    |k: Seq<char>, v: JsonValue|
        if k == "price"@ {
            match json_i64(v) {
                Some(n) => Some(n as i32),
                None => None,
            }
        } else {
            None
        }
}

/// Picks the availability that a product patch member sets.
pub open spec fn product_available_sel() -> spec_fn(Seq<char>, JsonValue) -> Option<bool> {
    |k: Seq<char>, v: JsonValue| if k == "available"@ { json_bool(v) } else { None }
}

proof fn lemma_product_patch_shape(p: Product, d: Product, es: Seq<(String, JsonValue)>)
    ensures
        product_patch(p, es) is Err <==> product_patch(d, es) is Err,
        product_patch(p, es) is Err ==> product_patch(p, es) == product_patch(d, es),
        product_patch(p, es) is Ok ==> product_patch(p, es)->Ok_0 == (Product {
            id: p.id,
            name: last_set(es, product_name_sel(), p.name),
            price: last_set(es, product_price_sel(), p.price),
            available: last_set(es, product_available_sel(), p.available),
        }),
    decreases es.len(),
{
    reveal_strlit("name");
    reveal_strlit("price");
    reveal_strlit("available");
    if es.len() > 0 {
        lemma_product_patch_shape(p, d, es.drop_last());
        let k = es.last().0@;
        let v = es.last().1;
        assert("name"@.len() == 4 && "price"@.len() == 5 && "available"@.len() == 9);
        if product_patch(p, es) is Ok {
            let p0 = product_patch(p, es.drop_last())->Ok_0;
            assert(product_patch(p, es) == product_patch_step(p0, k, v));
            assert(last_set(es, product_name_sel(), p.name) == match product_name_sel()(k, v) {
                Some(t) => t,
                None => last_set(es.drop_last(), product_name_sel(), p.name),
            });
            assert(last_set(es, product_price_sel(), p.price) == match product_price_sel()(k, v) {
                Some(t) => t,
                None => last_set(es.drop_last(), product_price_sel(), p.price),
            });
            assert(last_set(es, product_available_sel(), p.available) == match product_available_sel()(
                k,
                v,
            ) {
                Some(t) => t,
                None => last_set(es.drop_last(), product_available_sel(), p.available),
            });
        }
    } else {
        assert(product_patch(p, es) == Ok::<Product, Status>(p));
    }
}

/// A product patch never changes the product's id.
pub proof fn lemma_product_patch_keeps_id(p: Product, es: Seq<(String, JsonValue)>)
    ensures
        product_patch(p, es) is Ok ==> product_patch(p, es)->Ok_0.id == p.id,
{
    lemma_product_patch_shape(p, p, es);
}

/// Whether a product patch is refused, and with which status, does not
/// depend on the product it is applied to.
pub proof fn lemma_product_patch_refusal_ignores_record(
    p: Product,
    d: Product,
    es: Seq<(String, JsonValue)>,
)
    ensures
        product_patch(p, es) is Err <==> product_patch(d, es) is Err,
        product_patch(p, es) is Err ==> product_patch(p, es) == product_patch(d, es),
{
    lemma_product_patch_shape(p, d, es);
}

/// Applying a product patch a second time changes nothing.
pub proof fn lemma_product_patch_idempotent(p: Product, es: Seq<(String, JsonValue)>)
    requires
        product_patch(p, es) is Ok,
    ensures
        product_patch(product_patch(p, es)->Ok_0, es) == product_patch(p, es),
{
    let p1 = product_patch(p, es)->Ok_0;
    lemma_product_patch_shape(p, p1, es);
    lemma_product_patch_shape(p1, p1, es);
    lemma_last_set_idempotent(es, product_name_sel(), p.name);
    lemma_last_set_idempotent(es, product_price_sel(), p.price);
    lemma_last_set_idempotent(es, product_available_sel(), p.available);
}

// ---------------------------------------------------------------------
// Orders
// ---------------------------------------------------------------------

/// Picks the customer id that an order patch member sets.
pub open spec fn order_customer_sel() -> spec_fn(Seq<char>, JsonValue) -> Option<i32> {
    |k: Seq<char>, v: JsonValue|
        if k == "customer_id"@ {
            Some(json_i64(v).unwrap() as i32)
        } else {
            None
        }
}

/// Picks the status that an order patch member sets.
pub open spec fn order_status_sel() -> spec_fn(Seq<char>, JsonValue) -> Option<Seq<char>> {
    |k: Seq<char>, v: JsonValue|
        if k == "status"@ {
            Some(json_str(v).unwrap()@)
        } else {
            None
        }
}

/// Picks the creation time that an order patch member sets.
pub open spec fn order_created_sel() -> spec_fn(Seq<char>, JsonValue) -> Option<Timestamp> {
    |k: Seq<char>, v: JsonValue|
        if k == "created_at"@ {
            Some(chrono_naive_datetime(json_str(v).unwrap()@, created_at_format()).unwrap())
        } else {
            None
        }
}

/// Picks the lines that an order patch member sets.
pub open spec fn order_products_sel() -> spec_fn(Seq<char>, JsonValue) -> Option<Map<i32, i32>> {
    |k: Seq<char>, v: JsonValue|
        if k == "customer_id"@ || k == "status"@ || k == "created_at"@ {
            None
        } else {
            match v {
                JsonValue::Object(pes) => Some(products_map(pes@)),
                _ => None,
            }
        }
}

proof fn lemma_order_patch_shape(o: OrderView, es: Seq<(String, JsonValue)>)
    ensures
        order_patch_apply(o, es) == (OrderView {
            id: o.id,
            customer_id: last_set(es, order_customer_sel(), o.customer_id),
            status: last_set(es, order_status_sel(), o.status),
            created_at: last_set(es, order_created_sel(), o.created_at),
            products: last_set(es, order_products_sel(), o.products),
        }),
    decreases es.len(),
{
    reveal_strlit("customer_id");
    reveal_strlit("status");
    reveal_strlit("created_at");
    if es.len() > 0 {
        lemma_order_patch_shape(o, es.drop_last());
        let k = es.last().0@;
        let v = es.last().1;
        assert("customer_id"@.len() == 11 && "status"@.len() == 6 && "created_at"@.len() == 10);
        assert(last_set(es, order_customer_sel(), o.customer_id) == match order_customer_sel()(
            k,
            v,
        ) {
            Some(t) => t,
            None => last_set(es.drop_last(), order_customer_sel(), o.customer_id),
        });
        assert(last_set(es, order_status_sel(), o.status) == match order_status_sel()(k, v) {
            Some(t) => t,
            None => last_set(es.drop_last(), order_status_sel(), o.status),
        });
        assert(last_set(es, order_created_sel(), o.created_at) == match order_created_sel()(
            k,
            v,
        ) {
            Some(t) => t,
            None => last_set(es.drop_last(), order_created_sel(), o.created_at),
        });
        assert(last_set(es, order_products_sel(), o.products) == match order_products_sel()(
            k,
            v,
        ) {
            Some(t) => t,
            None => last_set(es.drop_last(), order_products_sel(), o.products),
        });
    }
}

/// An order patch never changes the order's id.
pub proof fn lemma_order_patch_keeps_id(o: OrderView, es: Seq<(String, JsonValue)>)
    ensures
        order_patch_apply(o, es).id == o.id,
{
    lemma_order_patch_shape(o, es);
}

/// Applying an order patch a second time changes nothing.
pub proof fn lemma_order_patch_idempotent(o: OrderView, es: Seq<(String, JsonValue)>)
    ensures
        order_patch_apply(order_patch_apply(o, es), es) == order_patch_apply(o, es),
{
    let o1 = order_patch_apply(o, es);
    lemma_order_patch_shape(o, es);
    lemma_order_patch_shape(o1, es);
    lemma_last_set_idempotent(es, order_customer_sel(), o.customer_id);
    lemma_last_set_idempotent(es, order_status_sel(), o.status);
    lemma_last_set_idempotent(es, order_created_sel(), o.created_at);
    lemma_last_set_idempotent(es, order_products_sel(), o.products);
}

// ---------------------------------------------------------------------
// Stored order lines
// ---------------------------------------------------------------------

/// Reading an order's line rows keeps exactly the products that occur in
/// them, each with the quantity of its last row.
pub proof fn lemma_lines_map_last_wins(rows: Seq<ProductInOrder>, i: int)
    requires
        0 <= i < rows.len(),
        forall|j: int| i < j < rows.len() ==> #[trigger] rows[j].product_id != rows[i].product_id,
    ensures
        lines_map(rows).contains_key(rows[i].product_id),
        lines_map(rows)[rows[i].product_id] == rows[i].quantity,
    decreases rows.len(),
{
    if i < rows.len() - 1 {
        assert forall|j: int| i < j < rows.drop_last().len() implies #[trigger] rows.drop_last()[
            j].product_id != rows.drop_last()[i].product_id by {
            assert(rows[j].product_id != rows[i].product_id);
        }
        lemma_lines_map_last_wins(rows.drop_last(), i);
        assert(rows.last().product_id != rows[i].product_id);
    }
}

/// Every product id that a stored order's lines hold occurs in a row.
pub proof fn lemma_lines_map_keys(rows: Seq<ProductInOrder>, k: i32)
    ensures
        lines_map(rows).contains_key(k) <==> exists|j: int|
            0 <= j < rows.len() && #[trigger] rows[j].product_id == k,
    decreases rows.len(),
{
    if rows.len() > 0 {
        lemma_lines_map_keys(rows.drop_last(), k);
        if lines_map(rows.drop_last()).contains_key(k) {
            let j = choose|j: int|
                0 <= j < rows.drop_last().len() && #[trigger] rows.drop_last()[j].product_id == k;
            assert(rows[j].product_id == k);
        }
        if exists|j: int| 0 <= j < rows.len() && #[trigger] rows[j].product_id == k {
            let j = choose|j: int| 0 <= j < rows.len() && #[trigger] rows[j].product_id == k;
            if j < rows.len() - 1 {
                assert(rows.drop_last()[j].product_id == k);
            }
        }
    }
}

/// Lines written as rows, one per product of an order's map (as
/// `products_in_order` makes them), read back as `get_order_with_products`
/// reads them, give the same map.
pub proof fn lemma_lines_roundtrip(m: Map<i32, i32>, order_id: i32, rows: Seq<ProductInOrder>)
    requires
        forall|i: int|
            0 <= i < rows.len() ==> {
                &&& (#[trigger] rows[i]).order_id == order_id
                &&& m.contains_key(rows[i].product_id)
                &&& m[rows[i].product_id] == rows[i].quantity
            },
        forall|k: i32|
            #[trigger] m.contains_key(k) ==> exists|i: int|
                0 <= i < rows.len() && rows[i].product_id == k,
        forall|i: int, j: int|
            0 <= i < j < rows.len() ==> (#[trigger] rows[i]).product_id != (#[trigger] rows[
                j
            ]).product_id,
    ensures
        lines_map(rows) == m,
{
    assert forall|k: i32| #[trigger] lines_map(rows).contains_key(k) <==> m.contains_key(k) by {
        lemma_lines_map_keys(rows, k);
    }
    assert forall|k: i32| #[trigger] m.contains_key(k) implies lines_map(rows)[k] == m[k] by {
        let i = choose|i: int| 0 <= i < rows.len() && rows[i].product_id == k;
        assert forall|j: int| i < j < rows.len() implies #[trigger] rows[j].product_id
            != rows[i].product_id by {
            assert(rows[i].product_id != rows[j].product_id);
        }
        lemma_lines_map_last_wins(rows, i);
    }
    assert(lines_map(rows) =~= m);
}

// ---------------------------------------------------------------------
// Which patches go through
// ---------------------------------------------------------------------

/// A member that a customer patch accepts: `name` or `address` with any
/// JSON string.
pub open spec fn customer_member_ok(k: Seq<char>, v: JsonValue) -> bool {
    (k == "name"@ || k == "address"@) && v is String
}

/// A customer patch is refused exactly when some member has another key
/// or a value that is not a string, and then with `BadRequest`; any
/// string is taken as a name or an address, and the customer that comes
/// back has the last name and the last address that the patch gives (or
/// the stored ones), and the stored id.
pub proof fn lemma_customer_patch_acceptance(c: Customer, es: Seq<(String, JsonValue)>)
    ensures
        customer_patch(c, es) is Ok <==> forall|i: int|
            0 <= i < es.len() ==> customer_member_ok(#[trigger] es[i].0@, es[i].1),
        customer_patch(c, es) is Err ==> customer_patch(c, es)->Err_0 == Status::BadRequest,
        customer_patch(c, es) is Ok ==> customer_patch(c, es)->Ok_0 == (Customer {
            id: c.id,
            name: last_set(es, customer_name_sel(), c.name),
            address: last_set(es, customer_address_sel(), c.address),
        }),
    decreases es.len(),
{
    lemma_customer_patch_shape(c, c, es);
    reveal_strlit("name");
    reveal_strlit("address");
    assert("name"@.len() == 4 && "address"@.len() == 7);
    if es.len() > 0 {
        let init = es.drop_last();
        lemma_customer_patch_acceptance(c, init);
        let k = es.last().0@;
        let v = es.last().1;
        assert(es[es.len() - 1] == es.last());
        if customer_patch(c, init) is Ok {
            assert(customer_patch(c, es) == customer_patch_step(customer_patch(c, init)->Ok_0, k, v));
            assert((customer_patch_step(customer_patch(c, init)->Ok_0, k, v) is Ok)
                == customer_member_ok(k, v));
        }
        if forall|i: int| 0 <= i < es.len() ==> customer_member_ok(#[trigger] es[i].0@, es[i].1) {
            assert forall|i: int| 0 <= i < init.len() implies customer_member_ok(
                #[trigger] init[i].0@,
                init[i].1,
            ) by {
                assert(init[i] == es[i]);
            }
        }
        if forall|i: int| 0 <= i < init.len() ==> customer_member_ok(#[trigger] init[i].0@, init[i].1) {
            if customer_member_ok(k, v) {
                assert forall|i: int| 0 <= i < es.len() implies customer_member_ok(
                    #[trigger] es[i].0@,
                    es[i].1,
                ) by {
                    if i < init.len() {
                        assert(init[i] == es[i]);
                    }
                }
            }
        } else {
            let i = choose|i: int|
                0 <= i < init.len() && !customer_member_ok(#[trigger] init[i].0@, init[i].1);
            assert(init[i] == es[i]);
        }
    }
}

/// A member that a product patch accepts: `name` with a string, `price`
/// with an integral number, `available` with a boolean.
pub open spec fn product_member_ok(k: Seq<char>, v: JsonValue) -> bool {
    ||| (k == "name"@ && v is String)
    ||| (k == "price"@ && v matches JsonValue::Number(Some(_)))
    ||| (k == "available"@ && v is Bool)
}

/// A product patch is refused exactly when some member has an unknown key
/// or a value of the wrong kind, and then with `BadRequest`; otherwise
/// the product that comes back has the last name, price (as an `i32`) and
/// availability that the patch gives (or the stored ones), and the stored
/// id.
pub proof fn lemma_product_patch_acceptance(p: Product, es: Seq<(String, JsonValue)>)
    ensures
        product_patch(p, es) is Ok <==> forall|i: int|
            0 <= i < es.len() ==> product_member_ok(#[trigger] es[i].0@, es[i].1),
        product_patch(p, es) is Err ==> product_patch(p, es)->Err_0 == Status::BadRequest,
        product_patch(p, es) is Ok ==> product_patch(p, es)->Ok_0 == (Product {
            id: p.id,
            name: last_set(es, product_name_sel(), p.name),
            price: last_set(es, product_price_sel(), p.price),
            available: last_set(es, product_available_sel(), p.available),
        }),
    decreases es.len(),
{
    lemma_product_patch_shape(p, p, es);
    reveal_strlit("name");
    reveal_strlit("price");
    reveal_strlit("available");
    assert("name"@.len() == 4 && "price"@.len() == 5 && "available"@.len() == 9);
    if es.len() > 0 {
        let init = es.drop_last();
        lemma_product_patch_acceptance(p, init);
        let k = es.last().0@;
        let v = es.last().1;
        assert(es[es.len() - 1] == es.last());
        if product_patch(p, init) is Ok {
            assert(product_patch(p, es) == product_patch_step(product_patch(p, init)->Ok_0, k, v));
            assert((product_patch_step(product_patch(p, init)->Ok_0, k, v) is Ok)
                == product_member_ok(k, v));
        }
        if forall|i: int| 0 <= i < es.len() ==> product_member_ok(#[trigger] es[i].0@, es[i].1) {
            assert forall|i: int| 0 <= i < init.len() implies product_member_ok(
                #[trigger] init[i].0@,
                init[i].1,
            ) by {
                assert(init[i] == es[i]);
            }
        }
        if forall|i: int| 0 <= i < init.len() ==> product_member_ok(#[trigger] init[i].0@, init[i].1) {
            if product_member_ok(k, v) {
                assert forall|i: int| 0 <= i < es.len() implies product_member_ok(
                    #[trigger] es[i].0@,
                    es[i].1,
                ) by {
                    if i < init.len() {
                        assert(init[i] == es[i]);
                    }
                }
            }
        } else {
            let i = choose|i: int|
                0 <= i < init.len() && !product_member_ok(#[trigger] init[i].0@, init[i].1);
            assert(init[i] == es[i]);
        }
    }
}

// ---------------------------------------------------------------------
// The lines of an order patch
// ---------------------------------------------------------------------

/// A line of a `products` object that an order patch can read: a key
/// that `str::parse::<i32>` accepts and an integral quantity.
pub open spec fn product_line_ok(k: Seq<char>, v: JsonValue) -> bool {
    spec_parse_i32(k) is Some && v matches JsonValue::Number(Some(_))
}

/// A `products` member of an order patch goes through exactly when every
/// line has a decimal `i32` key and an integral quantity, whatever the
/// ids and quantities are; otherwise the request ends without an answer.
/// A `products` value that is not an object is refused with `BadRequest`.
pub proof fn lemma_products_member_check(v: JsonValue)
    ensures
        v matches JsonValue::Object(pes) ==> order_step_check("products"@, v) == (if forall|i: int|
            0 <= i < pes@.len() ==> product_line_ok(#[trigger] pes@[i].0@, pes@[i].1) {
            PatchCheck::Fine
        } else {
            PatchCheck::Aborted
        }),
        !(v is Object) ==> order_step_check("products"@, v) == PatchCheck::Refused(
            Status::BadRequest,
        ),
{
    reveal_strlit("products");
    reveal_strlit("customer_id");
    reveal_strlit("status");
    reveal_strlit("created_at");
    assert("products"@.len() == 8 && "customer_id"@.len() == 11 && "status"@.len() == 6
        && "created_at"@.len() == 10);
}

/// The lines that a readable `products` object sets are exactly the
/// products its keys name, each with the quantity (as an `i32`) of the
/// last line whose key names it.
pub proof fn lemma_products_map_lines(pes: Seq<(String, JsonValue)>, i: int)
    requires
        0 <= i < pes.len(),
        forall|j: int| 0 <= j < pes.len() ==> product_line_ok(#[trigger] pes[j].0@, pes[j].1),
        forall|j: int|
            i < j < pes.len() ==> spec_parse_i32(#[trigger] pes[j].0@) != spec_parse_i32(
                pes[i].0@,
            ),
    ensures
        products_map(pes).contains_key(spec_parse_i32(pes[i].0@).unwrap()),
        products_map(pes)[spec_parse_i32(pes[i].0@).unwrap()] == (pes[i].1->Number_0).unwrap()
            as i32,
    decreases pes.len(),
{
    let init = pes.drop_last();
    assert(product_line_ok(pes[i].0@, pes[i].1));
    if i < pes.len() - 1 {
        assert forall|j: int| 0 <= j < init.len() implies product_line_ok(
            #[trigger] init[j].0@,
            init[j].1,
        ) by {
            assert(init[j] == pes[j]);
        }
        assert forall|j: int| i < j < init.len() implies spec_parse_i32(#[trigger] init[j].0@)
            != spec_parse_i32(init[i].0@) by {
            assert(init[j] == pes[j]);
        }
        lemma_products_map_lines(init, i);
        let last = pes.len() - 1;
        assert(pes.last() == pes[last]);
        assert(product_line_ok(pes[last].0@, pes[last].1));
        assert(spec_parse_i32(pes[last].0@) != spec_parse_i32(pes[i].0@));
        assert(spec_parse_i32(pes[last].0@).unwrap() != spec_parse_i32(pes[i].0@).unwrap());
        assert(init[i] == pes[i]);
    }
}

// ---------------------------------------------------------------------
// Token lifetime
// ---------------------------------------------------------------------

/// A token expires five minutes (`HOUR_IN_SECONDS / 12` seconds) after it
/// is issued, whenever it is issued, and the claims that `authorize`
/// grants carry that expiry.
pub proof fn lemma_tokens_last_five_minutes(
    now: i64,
    stored: Option<User>,
    password: Seq<char>,
    pepper: Seq<u8>,
)
    requires
        0 <= now,
        now + 300 <= usize::MAX,
    ensures
        token_expiry_spec(now) == now + HOUR_IN_SECONDS / 12,
        token_expiry_spec(now) - now == 300,
        claims_outcome(stored, password, pepper, now) matches Ok(c) ==> c.exp == now + 300,
{
}

// ---------------------------------------------------------------------
// Planned line rows
// ---------------------------------------------------------------------

/// A row of `products_in_orders` read back by the columns of its insert,
/// `(order_id, product_id, quantity)`.
pub open spec fn read_line_row(row: Seq<BindValue>) -> Option<ProductInOrder> {
    if row.len() == 3 {
        match (row[0], row[1], row[2]) {
            (BindValue::Int(o), BindValue::Int(p), BindValue::Int(q)) => Some(
                ProductInOrder { product_id: p, order_id: o, quantity: q },
            ),
            _ => None,
        }
    } else {
        None
    }
}

/// The rows that the line insert plans read back, column by column, as the
/// very lines they were planned from; so the stored lines give the same
/// map as the lines written.
pub proof fn lemma_line_rows_read_back(lines: Seq<ProductInOrder>, rows: Seq<Seq<BindValue>>)
    requires
        rows.len() == lines.len(),
        forall|i: int| 0 <= i < rows.len() ==> #[trigger] rows[i] == order_line_row(lines[i]),
    ensures
        forall|i: int| 0 <= i < rows.len() ==> read_line_row(#[trigger] rows[i]) == Some(lines[i]),
        rows.map_values(|r: Seq<BindValue>| read_line_row(r).unwrap()) == lines,
        lines_map(rows.map_values(|r: Seq<BindValue>| read_line_row(r).unwrap())) == lines_map(
            lines,
        ),
{
    assert forall|i: int| 0 <= i < rows.len() implies read_line_row(#[trigger] rows[i]) == Some(
        lines[i],
    ) by {
        assert(rows[i] == order_line_row(lines[i]));
    }
    assert(rows.map_values(|r: Seq<BindValue>| read_line_row(r).unwrap()) =~= lines);
}

} // verus!
