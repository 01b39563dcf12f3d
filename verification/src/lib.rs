//! Validation of RDF graph nodes against shape schemas.
//!
//! A schema is compiled into an index-addressed table of shape expressions,
//! a graph is held as interned terms with their outgoing arcs, and the
//! validator decides for a node and a shape whether the node conforms,
//! remembering every decision it has taken for the rest of the run.

pub mod compiled;
pub mod component;
pub mod datatype;
pub mod engine;
pub mod grammar;
pub mod graph;
pub mod label;
pub mod laws;
pub mod logical;
pub mod lookup;
pub mod min_length;
pub mod numeric;
pub mod report;
pub mod schema;
pub mod semantics;
pub mod state;
pub mod table_laws;
pub mod term;
pub mod text;
pub mod validator;
pub mod value_nodes;
pub mod value_range;
