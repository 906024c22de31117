# target-cloudberry

Verified planning and protocol logic for mirroring PostgreSQL tables into Apache Cloudberry.

`src/` is the library. Everything in it is Verus code: each executable function states what it
returns or changes, and the public proof functions whose names begin with `law_` state what holds
of several functions together.

- `text`, `order`, `digest`, `ident`, `lsn`, `source`, `change`: the values that the rest works on.
- `sql`, `copy`, `schema`, `storage`, `version`, `migration`: rendering of statements and of COPY
  rows, planning of types and tables, and the rules for the target's version and metadata.
- `apply`: planning of the staged apply of one batch, and the encoding of its rows.
- `checkpoint`, `chunk`, `managed`: fences, node checkpoints, the ledger of transaction chunks, and
  the identity of managed tables.
- `snapshot`: shadow loads, their durable progress, the manifest of a group, its activation and its
  cleanup.
- `reconciliation`, `reconciliation_reader`: the state of table comparisons, and the validation that
  precedes a scan.
- `schema_event`, `table_transition`: the ledgers of schema changes and of table transitions.

The library does no input or output. Decisions take what was read from the target as plain values
and give back what is to be written. `app/` runs them: it opens transactions, reads and locks rows,
executes the statements, and turns the library's errors into errors with messages.

What is believed rather than proved stands next to its use: the byte buffers of `bytes`, SHA-256 of
`sha2`, the text and the bytes of a `uuid`, the comparison of JSON values of `serde_json`, and three
functions of the standard library on text.
