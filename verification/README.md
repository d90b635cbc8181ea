# xactserver

The transaction server of a geo-partitioned database. Each region has a database and a server. A
transaction that touches data of several regions is executed by the database of one of them, whose
server coordinates it: it sends what the transaction read and wrote to the servers of the other
regions. Each of these validates and prepares the transaction in its own database and tells all
others how it votes. A server commits a transaction when every participant voted for it, and rolls
it back as soon as one voted against it.

`src/` is the logic of the server, verified with Verus. It does no I/O: where something is to be
sent, or asked of the database, a function says what, and is told in the next call how that went.

* `decoder` reads what a transaction read and wrote.
* `xact` counts votes and decides; `xact::laws` is what holds of that.
* `pg` is the conversation with the database: what it is asked to do with a transaction, and how it
  is told of decisions.
* `manager` is what each message and each answer leads to. `manager::laws` is what holds of one
  server, `manager::cluster` what holds of all of them together: no two servers decide a transaction
  differently.
* `cli`, `node`, `metrics`, `local_log`, `remote_logs`, `pg_dispatcher` and `tuple` are the smaller
  rules of the server.
* `buf`, `node_set` and `printing` hold what is taken on trust of the crates `bytes` and `bit-set`
  and of the formatter of the standard library. What is taken on trust of others stands where it is used: `SqlState` of `tokio-postgres` and
  `str::from_utf8` in `metrics`, `Error` of `tokio-postgres` in `pg::error`, `Url` of `url` and
  `str::to_lowercase` in `cli`.

`app/` is the server around the library: sockets, connection pools, channels, counters and the
command line.
