# embucket (verified core)

The logic of the Embucket Snowflake-compatible query engine, written in Verus and proved
against its contracts: the conversion of query results for Snowflake clients, the
copy-on-write merge filter, SQL rewrites and generated SQL, the type planner, the
`INSERT` string function, the metastore bootstrap and table registration, information
schema views, session and UI tokens, the schema and table caches in front of catalog
providers, and the session's list of catalogs with its object-store registry.

- `src/` — the verified library, one module per concern; laws that relate several
  functions are public proof functions named `law_*`.
- `tests/` — tests of the library on concrete values.
- `app/` — what stays outside verification: Arrow arrays read into and written from the
  library's column model, JSON web tokens with serde, JSON and Arrow IPC result writers,
  the row sort used to compare results, the process-wide metastore settings, and the
  loops that run the merge filter over Arrow batches, apply a bootstrap configuration
  against a metastore and refresh catalogs from their providers.
