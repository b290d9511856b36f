//! Verified core of the GraphQL code generator: naming policies, GraphQL
//! descriptions and deprecations, the arguments of `#[graphql]` attributes,
//! what each macro accepts, refuses and reports (enums, unions, interfaces,
//! objects, input objects, scalars), what the generated items are made of,
//! and the diagnostics protocol of the procedural macros.
pub mod arg;
pub mod attr;
pub mod definition;
pub mod deprecation;
pub mod derive_enum;
pub mod derive_input_object;
pub mod derive_object;
pub mod derive_union;
pub mod description;
pub mod diagnostic;
pub mod field;
pub mod gql;
pub mod graphql_enum;
pub mod graphql_input_object;
pub mod graphql_interface;
pub mod graphql_scalar;
pub mod graphql_scalar_value;
pub mod graphql_object;
pub mod graphql_union;
pub mod impl_object;
pub mod impl_union;
pub mod lifetimes;
pub mod rename;
pub mod scalar;
pub mod session;
pub mod span_container;
pub mod text;
pub mod type_attr;
pub mod type_definition;
pub mod types;
