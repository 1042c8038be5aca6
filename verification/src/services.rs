use std::collections::HashMap;
use vstd::prelude::*;
use vstd::string::*;
use vstd::std_specs::iter::IteratorSpec;

use crate::auth::{get_argon2_instance, hash_admits, hash_password, max_secret_len, PasswordError};
use crate::models::{
    Customer, Order, OrderView, OrderWithProducts, Product, ProductInOrder, RequestUser, Roles,
    Timestamp,
};

verus! {

broadcast use vstd::std_specs::hash::group_hash_axioms;

/// The most bind parameters that one Postgres statement takes.
pub const PG_LIMIT: u16 = 65535;

/// A value bound to a parameter of an insert.
#[derive(Clone, Debug, PartialEq, Eq)]
pub enum BindValue {
    Int(i32),
    Text(String),
    Time(Timestamp),
}

/// A bulk insert: the statement's head (table and columns), the number
/// of columns, and the rows of values, one per inserted record.
#[derive(Clone, Debug, PartialEq, Eq)]
pub struct InsertPlan {
    pub head: String,
    pub columns: usize,
    pub rows: Vec<Vec<BindValue>>,
}

/// One row's insert: the statement and the values bound to it, in order.
#[derive(Clone, Debug, PartialEq, Eq)]
pub struct RowInsert {
    pub sql: String,
    pub binds: Vec<BindValue>,
}

/// The values that an order's own row binds.
pub open spec fn order_row(o: &OrderWithProducts, with_id: bool) -> Seq<BindValue> {
    if with_id {
        seq![
            BindValue::Int(o.id),
            BindValue::Int(o.customer_id),
            BindValue::Text(o.status),
            BindValue::Time(o.created_at),
        ]
    } else {
        seq![BindValue::Int(o.customer_id), BindValue::Text(o.status), BindValue::Time(o.created_at)]
    }
}

/// How many rows of `columns` values one insert takes at most.
pub open spec fn batch_limit(columns: int) -> int {
    PG_LIMIT as int / columns
}

/// The smaller of two numbers.
pub open spec fn min(a: int, b: int) -> int {
    if a <= b {
        a
    } else {
        b
    }
}

/// The values that a customer's row binds.
pub open spec fn customer_row(c: Customer, with_id: bool) -> Seq<BindValue> {
    if with_id {
        seq![BindValue::Int(c.id), BindValue::Text(c.name), BindValue::Text(c.address)]
    } else {
        seq![BindValue::Text(c.name), BindValue::Text(c.address)]
    }
}

/// The values that an order line's row binds.
pub open spec fn order_line_row(p: ProductInOrder) -> Seq<BindValue> {
    seq![BindValue::Int(p.order_id), BindValue::Int(p.product_id), BindValue::Int(p.quantity)]
}

/// The lines of a stored order, read row by row: a later row for the
/// same product overrides an earlier one.
pub open spec fn lines_map(rows: Seq<ProductInOrder>) -> Map<i32, i32>
    decreases rows.len(),
{
    if rows.len() == 0 {
        Map::empty()
    } else {
        lines_map(rows.drop_last()).insert(rows.last().product_id, rows.last().quantity)
    }
}

/// Every statement that a plan makes binds at most `PG_LIMIT` values.
pub open spec fn plan_fits(p: InsertPlan) -> bool {
    p.columns > 0 && p.rows@.len() * p.columns <= PG_LIMIT as int && forall|i: int|
        0 <= i < p.rows@.len() ==> #[trigger] p.rows@[i]@.len() == p.columns
}

/// The services that read and write customers.
pub struct CustomerService;

impl CustomerService {
    /// The bulk insert that `create_customers` runs: the first customers,
    /// as many as fit in one statement, with or without their ids.
    pub fn create_customers(customers: &Vec<Customer>, with_id: bool) -> (r: InsertPlan)
        ensures
            with_id ==> r.head@ == "insert into customers (id, name, address) "@,
            !with_id ==> r.head@ == "insert into customers (name, address) "@,
            r.columns == (if with_id { 3usize } else { 2usize }),
            r.rows@.len() == min(customers@.len() as int, batch_limit(r.columns as int)),
            forall|i: int|
                0 <= i < r.rows@.len() ==> #[trigger] r.rows@[i]@ == customer_row(
                    customers@[i],
                    with_id,
                ),
            plan_fits(r),
    {
        let columns: usize = if with_id { 3 } else { 2 };
        let limit: usize = PG_LIMIT as usize / columns;
        let n: usize = if customers.len() < limit { customers.len() } else { limit };
        let mut rows: Vec<Vec<BindValue>> = Vec::new();
        let mut i: usize = 0;
        while i < n
            invariant
                n <= customers.len(),
                i <= n,
                rows@.len() == i,
                forall|j: int|
                    0 <= j < i ==> #[trigger] rows@[j]@ == customer_row(customers@[j], with_id),
            decreases n - i,
        {
            let c = &customers[i];
            let mut row: Vec<BindValue> = Vec::new();
            if with_id {
                row.push(BindValue::Int(c.id));
            }
            row.push(BindValue::Text(c.name.clone()));
            row.push(BindValue::Text(c.address.clone()));
            assert(row@ =~= customer_row(customers@[i as int], with_id));
            rows.push(row);
            i = i + 1;
        }
        assert(n * columns <= 65535) by (nonlinear_arith)
            requires
                n <= limit,
                limit == 65535int / (columns as int),
                columns == 2 || columns == 3,
        ;
        let head = if with_id {
            String::from_str("insert into customers (id, name, address) ")
        } else {
            String::from_str("insert into customers (name, address) ")
        };
        InsertPlan { head, columns, rows }
    }
}

/// The services that read and write orders.
pub struct OrderService;

impl OrderService {
    /// The lines of an order as rows of `products_in_orders`, one per
    /// product, in the order in which the map yields them.
    pub fn products_in_order(order_id: i32, products: &HashMap<i32, i32>) -> (r: Vec<
        ProductInOrder,
    >)
        ensures
            r@.len() == products@.dom().len(),
            forall|i: int|
                0 <= i < r@.len() ==> {
                    &&& (#[trigger] r@[i]).order_id == order_id
                    &&& products@.contains_key(r@[i].product_id)
                    &&& products@[r@[i].product_id] == r@[i].quantity
                },
            forall|k: i32|
                #[trigger] products@.contains_key(k) ==> exists|i: int|
                    0 <= i < r@.len() && r@[i].product_id == k,
            forall|i: int, j: int|
                0 <= i < j < r@.len() ==> (#[trigger] r@[i]).product_id != (#[trigger] r@[
                    j
                ]).product_id,
    {
        let mut out: Vec<ProductInOrder> = Vec::new();
        let ghost all = vstd::std_specs::hash::spec_hash_map_iter(products).remaining();
        for (k, v) in it: products.iter()
            invariant
                it.seq() == all,
                all.no_duplicates(),
                out@.len() == it.index(),
                it.index() <= all.len(),
                forall|i: int|
                    0 <= i < it.index() ==> #[trigger] out@[i] == (ProductInOrder {
                        product_id: *it.seq()[i].0,
                        order_id: order_id,
                        quantity: *it.seq()[i].1,
                    }),
        {
            out.push(ProductInOrder { product_id: *k, order_id, quantity: *v });
        }
        proof {
            assert forall|k: i32| #[trigger] products@.contains_key(k) implies exists|i: int|
                0 <= i < out@.len() && out@[i].product_id == k by {
                assert(all.contains((&k, &products@[k])));
                let i = choose|i: int| 0 <= i < all.len() && all[i] == (&k, &products@[k]);
                assert(out@[i].product_id == k);
            }
            assert forall|i: int, j: int| 0 <= i < j < out@.len() implies (#[trigger] out@[
                i]).product_id != (#[trigger] out@[j]).product_id by {
                if out@[i].product_id == out@[j].product_id {
                    assert(products@.contains_key(*all[i].0));
                    assert(products@[*all[i].0] == *all[i].1);
                    assert(products@[*all[j].0] == *all[j].1);
                    assert(all[i] == all[j]);
                }
            }
        }
        out
    }

    /// The statement that `create_orders` runs for one order's row, with
    /// its values: with `with_id` the order's own id is stored, else the
    /// database picks one; either way the statement returns the id.
    pub fn order_row_insert(order: &OrderWithProducts, with_id: bool) -> (r: RowInsert)
        ensures
            with_id ==> r.sql@
                == "insert into orders (id, customer_id, status, created_at) values ($1, $2, $3, $4) returning id"@,
            !with_id ==> r.sql@
                == "insert into orders (customer_id, status, created_at) values ($1, $2, $3) returning id"@,
            r.binds@ == order_row(order, with_id),
    {
        let mut binds: Vec<BindValue> = Vec::new();
        if with_id {
            binds.push(BindValue::Int(order.id));
        }
        binds.push(BindValue::Int(order.customer_id));
        binds.push(BindValue::Text(order.status.clone()));
        binds.push(BindValue::Time(order.created_at));
        assert(binds@ =~= order_row(order, with_id));
        let sql = if with_id {
            String::from_str(
                "insert into orders (id, customer_id, status, created_at) values ($1, $2, $3, $4) returning id",
            )
        } else {
            String::from_str(
                "insert into orders (customer_id, status, created_at) values ($1, $2, $3) returning id",
            )
        };
        RowInsert { sql, binds }
    }

    /// The bulk insert of order lines that `create_order`, `update_order`
    /// and `create_orders` run: the first lines, as many as fit in one
    /// statement.
    pub fn products_in_order_plan(lines: &Vec<ProductInOrder>) -> (r: InsertPlan)
        ensures
            r.head@ == "insert into products_in_orders (order_id, product_id, quantity) "@,
            r.columns == 3,
            r.rows@.len() == min(lines@.len() as int, batch_limit(3)),
            forall|i: int|
                0 <= i < r.rows@.len() ==> #[trigger] r.rows@[i]@ == order_line_row(lines@[i]),
            plan_fits(r),
    {
        let limit: usize = PG_LIMIT as usize / 3;
        let n: usize = if lines.len() < limit { lines.len() } else { limit };
        let mut rows: Vec<Vec<BindValue>> = Vec::new();
        let mut i: usize = 0;
        while i < n
            invariant
                n <= lines.len(),
                n <= 21845,
                i <= n,
                rows@.len() == i,
                forall|j: int| 0 <= j < i ==> #[trigger] rows@[j]@ == order_line_row(lines@[j]),
            decreases n - i,
        {
            let p = lines[i];
            let mut row: Vec<BindValue> = Vec::new();
            row.push(BindValue::Int(p.order_id));
            row.push(BindValue::Int(p.product_id));
            row.push(BindValue::Int(p.quantity));
            assert(row@ =~= order_line_row(lines@[i as int]));
            rows.push(row);
            i = i + 1;
        }
        assert(rows@.len() * 3 <= 65535);
        assert forall|j: int| 0 <= j < rows@.len() implies #[trigger] rows@[j]@.len() == 3 by {
            assert(rows@[j]@ == order_line_row(lines@[j]));
        }
        let head = String::from_str("insert into products_in_orders (order_id, product_id, quantity) ");
        InsertPlan { head, columns: 3, rows }
    }

    /// An order with its lines, as `get_order_with_products` assembles it
    /// from the order's row and the rows of its lines.
    pub fn get_order_with_products(order: Order, lines: &Vec<ProductInOrder>) -> (r:
        OrderWithProducts)
        ensures
            r@ == (OrderView {
                id: order.id,
                customer_id: order.customer_id,
                status: order.status@,
                created_at: order.created_at,
                products: lines_map(lines@),
            }),
    {
        let mut products: HashMap<i32, i32> = HashMap::new();
        let mut i: usize = 0;
        while i < lines.len()
            invariant
                i <= lines.len(),
                products@ == lines_map(lines@.take(i as int)),
            decreases lines.len() - i,
        {
            assert(lines@.take(i + 1).drop_last() =~= lines@.take(i as int));
            let p = lines[i];
            products.insert(p.product_id, p.quantity);
            i = i + 1;
        }
        assert(lines@.take(i as int) =~= lines@);
        OrderWithProducts {
            id: order.id,
            customer_id: order.customer_id,
            status: order.status,
            created_at: order.created_at,
            products,
        }
    }

    /// The orders that `fill_with_mocked_data` stores, given the stored
    /// products and customers (it reads the first two of each) and the
    /// time of filling.
    pub fn mock_orders(products: &Vec<Product>, customers: &Vec<Customer>, now: Timestamp) -> (r:
        Vec<OrderWithProducts>)
        requires
            products@.len() >= 2,
            customers@.len() >= 2,
        ensures
            r@.len() == 3,
            r@[0]@ == (OrderView {
                id: 1,
                customer_id: customers@[0].id,
                status: "In progress"@,
                created_at: now,
                products: map![products@[0].id => 1i32].insert(products@[1].id, 2i32),
            }),
            r@[1]@ == (OrderView {
                id: 2,
                customer_id: customers@[0].id,
                status: "In progress"@,
                created_at: now,
                products: map![products@[0].id => 6i32].insert(products@[1].id, 2i32),
            }),
            r@[2]@ == (OrderView {
                id: 3,
                customer_id: customers@[1].id,
                status: "New"@,
                created_at: now,
                products: map![products@[0].id => 3i32].insert(products@[1].id, 4i32),
            }),
    {
        let p0 = products[0].id;
        let p1 = products[1].id;
        let mut r: Vec<OrderWithProducts> = Vec::new();
        let mut lines: HashMap<i32, i32> = HashMap::new();
        lines.insert(p0, 1);
        lines.insert(p1, 2);
        r.push(
            OrderWithProducts {
                id: 1,
                customer_id: customers[0].id,
                status: String::from_str("In progress"),
                created_at: now,
                products: lines,
            },
        );
        let mut lines: HashMap<i32, i32> = HashMap::new();
        lines.insert(p0, 6);
        lines.insert(p1, 2);
        r.push(
            OrderWithProducts {
                id: 2,
                customer_id: customers[0].id,
                status: String::from_str("In progress"),
                created_at: now,
                products: lines,
            },
        );
        let mut lines: HashMap<i32, i32> = HashMap::new();
        lines.insert(p0, 3);
        lines.insert(p1, 4);
        r.push(
            OrderWithProducts {
                id: 3,
                customer_id: customers[1].id,
                status: String::from_str("New"),
                created_at: now,
                products: lines,
            },
        );
        r
    }
}

impl CustomerService {
    /// The customers that `fill_with_mocked_data` stores.
    pub fn mock_customers() -> (r: Vec<Customer>)
        ensures
            r@.len() == 2,
            r@[0].id == 1 && r@[0].name@ == "Customer 1"@ && r@[0].address@ == "Address 1"@,
            r@[1].id == 2 && r@[1].name@ == "Customer 2"@ && r@[1].address@ == "Address 2"@,
    {
        let mut r: Vec<Customer> = Vec::new();
        r.push(
            Customer {
                id: 1,
                name: String::from_str("Customer 1"),
                address: String::from_str("Address 1"),
            },
        );
        r.push(
            Customer {
                id: 2,
                name: String::from_str("Customer 2"),
                address: String::from_str("Address 2"),
            },
        );
        r
    }
}

/// The services that read and write products.
pub struct ProductService;

/// The services that read and write users.
pub struct UserService;

impl UserService {
    /// The users that `fill_with_mocked_data` stores, with their roles.
    pub fn mock_users() -> (r: Vec<(RequestUser, Roles)>)
        ensures
            r@.len() == 2,
            r@[0].0.name@ == "example_customer"@ && r@[0].0.password@ == "example_password"@,
            r@[0].1 == Roles::Customer,
            r@[1].0.name@ == "example_admin"@ && r@[1].0.password@ == "example_password"@,
            r@[1].1 == Roles::Admin,
    {
        let mut r: Vec<(RequestUser, Roles)> = Vec::new();
        r.push(
            (
                RequestUser {
                    name: String::from_str("example_customer"),
                    password: String::from_str("example_password"),
                },
                Roles::Customer,
            ),
        );
        r.push(
            (
                RequestUser {
                    name: String::from_str("example_admin"),
                    password: String::from_str("example_password"),
                },
                Roles::Admin,
            ),
        );
        r
    }

    /// The stored hash of a new user's password, as `create_user` makes it
    /// before it inserts the user: Argon2 with `pepper` as its secret and a
    /// fresh random salt. The password checks out against the hash; the
    /// call fails only where the pepper is too long, the system's random
    /// source fails, or the password is longer than `u32::MAX` bytes.
    pub fn password_hash_for(pepper: &[u8], password: &str) -> (r: Result<String, PasswordError>)
        ensures
            pepper@.len() > max_secret_len() ==> r == Err::<String, PasswordError>(
                PasswordError::SecretTooLong,
            ),
            r matches Ok(s) ==> hash_admits(pepper@, password@, s@),
            pepper@.len() <= max_secret_len() && password.spec_bytes().len() <= 0xFFFF_FFFF ==> (
            r is Ok || r == Err::<String, PasswordError>(PasswordError::RandomSource)),
    {
        let argon2 = match get_argon2_instance(pepper) {
            Ok(a) => a,
            Err(e) => {
                return Err(e);
            },
        };
        hash_password(&argon2, password)
    }
}

/// The services whose tables the mock data fills and clears.
pub struct DbMockData {
    pub product_service: ProductService,
    pub order_service: OrderService,
    pub customer_service: CustomerService,
    pub user_service: UserService,
}

impl DbMockData {
    /// The four services together.
    pub fn new() -> (r: DbMockData)
        ensures
            r == (DbMockData {
                product_service: ProductService,
                order_service: OrderService,
                customer_service: CustomerService,
                user_service: UserService,
            }),
    {
        DbMockData {
            product_service: ProductService {},
            order_service: OrderService {},
            customer_service: CustomerService {},
            user_service: UserService {},
        }
    }
}

impl Default for DbMockData {
    fn default() -> (r: DbMockData)
        ensures
            r == (DbMockData {
                product_service: ProductService,
                order_service: OrderService,
                customer_service: CustomerService,
                user_service: UserService,
            }),
    {
        Self::new()
    }
}

} // verus!
