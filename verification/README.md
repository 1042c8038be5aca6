# data

The verified core of a small shop back end (customers, products, orders
and users behind a JSON HTTP API backed by Postgres).

- `src/` is the library, checked by Verus: the records (`models`), the
  HTTP answers (`status`), request bodies (`json`), text helpers (`text`),
  the rules for full and partial updates (`patch`, `controllers`), the
  role checks (`middleware`), password handling over Argon2 (`auth`),
  reading times with chrono (`time`), the bulk inserts and mock data
  (`services`), and the laws that tie them together (`laws`).
- `app/` is the server around it: axum routes and extractors, the sqlx
  queries, token signing with jsonwebtoken, configuration and start-up.
- `tests/` runs the library on concrete values.
