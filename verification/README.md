# evenframe_core

Type descriptions shared between Rust and generated schemas. Every
function of the library is proved against its contract by Verus, except
five small trusted wrappers around outside calls: case conversion
(`convert_case`), the `\w` class of `regex`, `str::to_lowercase`,
`Path::file_stem`, and collecting chars into a `String`. Their contracts
are believed, not proved.

## Layout

- `src/` — the verified library.
  - `types/` — the type model: structs, tagged unions, field types (their
    canonical and displayed names, and reading a type from its Rust text),
    the registry of foreign types, SurrealDB `DEFINE FIELD` statements, and
    reading canonical names back.
  - `validator.rs`, `number.rs` — validators and the numbers they carry,
    kept as their canonical text.
  - `typesync/flatbuffers_parser/` — a FlatBuffers schema lexer, parser and
    converter to the type model, with the validators written in `validate`
    attributes.
  - `typesync/arktype.rs`, `typesync/flatbuffers.rs`,
    `typesync/macroforge.rs`, `typesync/effect.rs` — generation of ArkType
    validator scopes, of FlatBuffers schemas, of Macroforge validator lists
    and foreign-type imports, and of Effect schema modules.
  - `typesync/file_grouping.rs` — which types share a generated file.
  - `typesync/config.rs`, `typesync/output.rs`, `typesync/import_resolver.rs`,
    `typesync/doc_comment.rs` — output settings, where an output goes, import
    and barrel lines, and doc comments.
  - `tooling/` — build configuration, the bookkeeping of scan inputs, the
    gathering of type names that two files define, the merging of output
    rule plugins' answers into the scanned types, and the cache directory
    of expanded sources.
  - `named_map.rs`, `text.rs`, `paths.rs`, `case.rs` — maps ordered by name,
    text helpers, path joining and normalisation, and case conversion (done
    by the `convert_case` crate).
- `tests/` — tests of the library.
- `app/` — reading schema files and writing outputs to disk.

Each public proof function (`lemma_*`) states a law that the library keeps,
such as what a map gives back after a write, that later definitions of a
name replace earlier ones, or that tokens come in source order.
