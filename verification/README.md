# ch2rs

Generates Rust row types for ClickHouse tables: a struct with a field per
column (with `serde` attributes where a column needs a helper module), enum
types for `Enum8`/`Enum16` columns, and serde modules for columns read as
`Option` through a sentinel default value. The generated code opens with a
comment that records the command line that produced it.

Layout:

- `src/` — the verified library (Verus):
  - `schema.rs`: ClickHouse types, their notation, tables and columns;
  - `parse.rs`: reading a type from its notation;
  - `codegen.rs`: the generator;
  - `options.rs`: the options, reading `-T`/`-O` values, and the command line
    that records them;
  - `order.rs`, `sort.rs`: the orders of the option lists and stable sorting;
  - `text.rs`: text primitives; `case.rs`: case conversion through `heck`;
  - `laws.rs`: properties proved for all inputs.
- `tests/` — tests of the library.
- `app/` — the `structopt` command line and displayable errors.
