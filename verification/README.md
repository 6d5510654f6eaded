# pymulter

`pymulter` brings the multipart/form-data parser of the
[multer](https://github.com/rwf2/multer) crate to Python. Input is fed to a
parser in pieces as it arrives; once the input is closed, the fields are read one
by one, and the content of each field chunk by chunk.

The logic is a library verified with Verus:

- `src/size_limit.rs`, `src/constraint.rs`: the limits and constraints of a
  parse, and their hand-over to `multer`
- `src/parser.rs`: the parser, from the first byte fed to the last field
- `src/laws.rs`: what holds of a parser and a field from one call to the
  next
- `src/field.rs`: a field's metadata, and reading its content
- `src/boundary.rs`: the boundary of a Content-Type header
- `src/chunk_stream.rs`, `src/exception.rs`, `src/text.rs`: small types and views
- `src/outside.rs`: the contracts that are believed of `multer`, `bytes`,
  `futures` and the standard library

`app/` holds the Python classes and the awaiting; `tests/` runs the library with
the real crates.
