# shop

A small web shop (Rocket, Diesel on SQLite, Tera templates) whose decisions
are proved with Verus.

- `src/` is the verified library: reading and writing the cart cookie
  (`cart`), the session cookies and the guards that read them (`guards`),
  decimal and hex text (`text`), password hashing (`password`), cookie
  changes and a model of the cookie jar (`cookies`), redirect replies
  (`reply`), and what each route decides (`routes`).
- `app/` is the Rocket program around it: request guards, database queries,
  templates and the number filter; it hands the library plain values and
  applies the replies it gets back.
- `tests/` runs the library on concrete values.

The cart page counts the ids of the cart in a `Vec<(i32, i32)>` kept in
order of first appearance, where a `HashMap<i32, i32>` would leave the order
of the page's lines to the hasher's seed: the tally states exactly which
lines come out and in what order, one of the orders a hash map could give.
Counting fails only where one id stands more than `i32::MAX` times, as
adding one to such a count overflows.
