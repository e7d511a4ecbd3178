//! An embeddable graph datastore.
//!
//! The library stores a directed, typed, property-attributed multigraph and
//! answers compositional queries against it. Clients create vertices and
//! edges, attach JSON properties to either, and issue queries that traverse
//! from a vertex set to adjacent edges or from an edge set to incident
//! vertices, optionally filtered and paginated.

pub mod bytes;
pub mod errors;
pub mod fbits;
pub mod identifier;
pub mod json;
pub mod laws;
pub mod memory;
pub mod model;
pub mod models;
pub mod plugin;
pub mod queries;
pub mod traits;

pub use errors::Error;
pub use identifier::Identifier;
pub use json::{Json, JsonEntry, JsonNum, JsonValue};
pub use models::{
    BulkInsertItem, BulkInsertResult, Edge, EdgeDirection, EdgeProperties, EdgeProperty,
    NamedProperty, Vertex, VertexProperties, VertexProperty,
};
pub use memory::MemoryDatastore;
pub use plugin::HelloWorldPlugin;
pub use queries::{EdgePropertyQuery, EdgeQuery, VertexPropertyQuery, VertexQuery};
pub use traits::{Datastore, Transaction};
