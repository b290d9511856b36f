# juniper_codegen

The decisions behind the procedural macros of a GraphQL server library
(`#[derive(GraphQLEnum)]`, `#[derive(GraphQLUnion)]`, `#[graphql_union]`,
`#[graphql_interface]`, `#[derive(GraphQLInterface)]`, `#[graphql_object]`,
`#[graphql_subscription]`, `#[derive(GraphQLObject)]`,
`#[derive(GraphQLInputObject)]`, `#[derive(GraphQLScalar)]`,
`#[graphql_scalar]`, `#[derive(GraphQLScalarValue)]`), written in Verus and
proved against their contracts.

The library decides; it does not generate code. Each macro's input is read
into plain values, the library decides what the macro accepts, refuses or
reports, and what the generated items are made of (names, fields,
arguments, the variants and generic parameters of the enum behind an
interface, which implementer each field resolver dispatches to), and
returns that as plain values. Turning those into Rust tokens is left to
the caller; `app/` renders the enum behind an interface as an example.

## Layout

- `src/` is the verified library. It works on plain values that stand for
  Rust syntax: identifiers as strings, spans and types as opaque values
  (`S`, `T`), and each Rust type known by a number where types are compared.
  - `text`, `rename`: characters and the renaming policies (`camelCase`,
    `SCREAMING_SNAKE_CASE`).
  - `description`, `deprecation`: descriptions from doc comments, and
    deprecations from `#[deprecated]`.
  - `diagnostic`, `session`: diagnostics, and the protocol by which a macro
    emits them, aborts, and is expanded at its entry point.
  - `attr`, `field`, `arg`, `type_attr`: the arguments of the `#[graphql]`
    attributes on fields, method arguments, interfaces and objects.
  - `definition`: fields defined by methods and struct fields, their
    arguments, and the checks on a type's fields.
  - `graphql_enum`, `graphql_union`, `graphql_interface`, `graphql_object`,
    `graphql_input_object`, `graphql_scalar`, `graphql_scalar_value`: what
    each macro decides.
  - `type_definition`, `derive_enum`, `derive_object`,
    `derive_input_object`, `derive_union`, `impl_object`, `impl_union`,
    `gql`: the type definitions that the attribute-driven derives, the impl
    object and impl union macros and `gql!` objects build, with what each
    refuses and reports, in order.
  - `scalar`, `types`, `lifetimes`, `span_container`: `ScalarValue`
    parametrization and `specified_by_url`, shapes of Rust types, their
    lifetimes.
- `tests/` runs the library on concrete values.
- `app/` reads Rust syntax with `syn` into the library's inputs, feeds each
  attribute argument to the library as soon as it is read, and drives the
  diagnostics session from a thread-local at the macro's entry point.

The laws of the library (what every operation keeps, what parsing split
attributes means, what the session reports) are public proof functions named
`law_*`.
