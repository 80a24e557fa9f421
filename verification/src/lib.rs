//! Declaring the pathways of a programmable contract.
//!
//! A contract type declares, by name, the transitions it can make, the
//! conditions that alone unlock its funds and the pathways that take an
//! argument from outside. Each declaration may be absent, which is how a
//! contract type implements a subset of the names it knows. Whoever compiles
//! the contract reads the declarations, in their order, from a
//! [`registry::Registry`].
//!
//! Bodies are values of types that the contract's author chooses. The body
//! of a guard or of a compile-time condition is carried and handed out, never
//! run here; the body of a pathway is run only where its caller asks for it.
//!
//! The schema of the argument of an exposed pathway comes from a
//! [`schema::SchemaCache`], which generates the schema of a type once and
//! shares it from then on.

pub mod compile_if;
pub mod declaration;
pub mod guard;
pub mod pathway;
pub mod registry;
pub mod schema;
