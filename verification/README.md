# recorder

Recording of workload patterns: McPAT systems arrive as configuration files
through a Redis queue, and the power or the area of their cores and L3 caches
is written into an SQLite table.

- `src/` is the verified library (Verus): options from the command line,
  addresses, names of result columns, the time that a configuration file
  stands for, the messages of the queue, the replies of the server, the SQL
  that stores the records, and the decisions of a worker between messages.
- `app/` holds the programs around it: connections to Redis, McPAT and
  SQLite, the loops that read the queue, and the output.
- `tests/` runs the library on concrete values.
