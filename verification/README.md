# kanidm_schema

The schema of an identity server: the attributes and classes that say which
entries may be committed to the database, verified with Verus.

- `attribute`, `class`: the rules, and how they are read from the entries that
  define them.
- `consistency`: whether the classes of a schema name only attributes that it
  has and can store.
- `state`, `schema`: the content of a schema, the cell that holds it, and the
  transactions that read and change it.
- `bootstrap`: the definitions that every schema starts with. The identifiers of
  these definitions are given by the server.
- `definition`: the entries that define attributes and classes.
- `compliance`, `filter`: whether an entry or a filter complies with a schema.
- `value`, `order`, `entry`, `error`, `text`: what the others are made of. A set
  of values stands in ascending order.
- `tables`, `state`, `text`, `order`, `foreign`: what is trusted of `hashbrown`, of
  `concread`, of the standard library and of `uuid`.
- `laws`: what holds of the library as a whole.

A write transaction borrows the schema exclusively. While it is open, a read of
what is committed begins through it, with `read_committed`. Read transactions hold
on to the content of the time at which they began, so they can be kept while the
schema is changed.
