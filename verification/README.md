# readdeck

The verified core of Readdeck, a bookstore and book-delivery web service.

- `src/` is the library, checked by Verus: the validation rules of the
  request bodies, the error answers, authentication (where a token comes
  from, whose it is, password checks), rate-limit keys, cursor pagination,
  the event-listing cache key, cover-image lookup, and the rules the
  handlers apply between database round trips (carts, orders, addresses,
  vendor onboarding).
  Proved lemmas state what the operations keep across calls: a user has
  at most one default address and at most one bookstore, and following the
  cursors of a listing visits every row once.
- `app/` is the HTTP server around it (axum, sqlx, moka caches, cookies,
  rate limiting) and the `seed-covers` command, which fills in missing book
  covers from Open Library.
- `tests/` exercises the library on concrete values.
