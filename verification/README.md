# sample_export

The logic of a desktop tool that connects to MySQL, lists databases, tables
and views, and exports table definitions with sample (or all) rows as SQL,
CSV, Markdown or JSON, masking phone and password columns; and of the list
of saved connections kept beside the program, with Base64-encoded passwords.

- `src/` is the library, verified with Verus: the export formats
  (`export/`), the export rules and queries (`rules.rs`, `query.rs`), the
  masking (`masking.rs`), the reading of query results (`value.rs`,
  `object.rs`, `catalog.rs`), the export time (`timefmt.rs`) and the saved
  connections (`connections.rs`).
- `app/` is the program around it: the MySQL connection, the files, the
  serde forms of the records, and the commands answered to the front end.
- `tests/` runs the library on concrete values.
