# dfdl_vm

Reading DFDL schemas and TDML test suites, with contracts that Verus proves.

- `src/xsd`, `src/props`, `src/expr.rs`, `src/computed.rs`: from the markup of a
  schema to its declarations and properties.
- `src/merge.rs`, `src/resolver.rs`, `src/qname.rs`: how properties, schemas and
  names are put together.
- `src/validate`: the rules that a schema keeps before it is used.
- `src/tdml`: suites, documents, infosets, and what a test comes to. A test is run
  by `src/tdml/runner`, which says what to do next from what was done so far.
- `src/unparse_validate.rs`, `src/program.rs`, `src/value.rs`: checks of values and
  infosets against a compiled schema.
- `app`: files, binary floating point numbers, and the loop that runs tests with an
  engine.

Texts are modelled as character sequences, and every type that holds text has a
model type whose name ends in `Model`. A function's `ensures` relates the models.
Public proof functions whose names begin with `law_` state what holds of several
functions together.
