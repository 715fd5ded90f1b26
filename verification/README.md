# parsql

The SQL text behind the parsql derive macros, verified with Verus.

`src/` holds the library that Verus checks:

- `utils` and `numbering`: numbering of the `$` placeholders of a clause
  and the parameter counter that keeps statements and parameters in step;
- `query_builder`: the builder that joins keywords, sanitised identifiers
  and raw pieces;
- `sql_sanitizer`: sanitising of identifiers and quoted values;
- `updateable`, `insertable`, `queryable`, `deletable`: the statements that
  the derives emit; `sql_params`, `update_params`: the fields that the
  parameter derives pass;
- `direct_sql`: statements written straight from a table's metadata;
- `text`: the character-level helpers (trimming, splitting, joining,
  decimal rendering) on which the rest is proved.

`app/` is the ordinary Rust around it: the derive glue over `syn` and
`quote`, and the PostgreSQL operations over `postgres`,
`deadpool-postgres` and `tokio-postgres`, which run the generated
statements.
