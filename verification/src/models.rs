use vstd::prelude::*;

verus! {

use crate::bytes::bytes_eq;
use crate::identifier::Identifier;
use crate::json::{Json, JsonV};

/// The side of an edge that a query walks or counts.
#[derive(Clone, Copy, Debug, PartialEq, Eq, Structural)]
pub enum EdgeDirection {
    Outbound,
    Inbound,
}

/// A vertex: an id, assigned by the engine and never zero, and an
/// immutable type set at creation.
#[derive(Debug)]
pub struct Vertex {
    pub id: u64,
    pub t: Identifier,
}

/// The mathematical shape of a vertex.
pub struct VertexView {
    pub id: u64,
    pub t: Seq<u8>,
}

impl View for Vertex {
    type V = VertexView;

    open spec fn view(&self) -> VertexView {
        VertexView { id: self.id, t: self.t@ }
    }
}

impl Vertex {
    /// Builds a vertex record.
    pub fn new(id: u64, t: Identifier) -> (r: Vertex)
        ensures
            r@ == (VertexView { id: id, t: t@ }),
    {
        Vertex { id, t }
    }
}

impl Clone for Vertex {
    fn clone(&self) -> (r: Vertex)
        ensures
            r@ == self@,
    {
        Vertex { id: self.id, t: self.t.clone() }
    }
}

impl PartialEq for Vertex {
    fn eq(&self, other: &Vertex) -> (r: bool) {
        self.id == other.id && bytes_eq(self.t.as_bytes(), other.t.as_bytes())
    }
}

impl vstd::std_specs::cmp::PartialEqSpecImpl for Vertex {
    open spec fn obeys_eq_spec() -> bool {
        true
    }

    open spec fn eq_spec(&self, other: &Vertex) -> bool {
        self@ == other@
    }
}

impl Eq for Vertex {}

/// A directed, typed edge. The triple is the edge's identity: the store
/// holds at most one edge per (outbound, type, inbound).
#[derive(Debug)]
pub struct Edge {
    pub outbound_id: u64,
    pub t: Identifier,
    pub inbound_id: u64,
}

/// The mathematical shape of an edge.
pub struct EdgeView {
    pub outbound_id: u64,
    pub t: Seq<u8>,
    pub inbound_id: u64,
}

impl View for Edge {
    type V = EdgeView;

    open spec fn view(&self) -> EdgeView {
        EdgeView { outbound_id: self.outbound_id, t: self.t@, inbound_id: self.inbound_id }
    }
}

impl Edge {
    /// Builds an edge triple.
    pub fn new(outbound_id: u64, t: Identifier, inbound_id: u64) -> (r: Edge)
        ensures
            r@ == (EdgeView { outbound_id: outbound_id, t: t@, inbound_id: inbound_id }),
    {
        Edge { outbound_id, t, inbound_id }
    }
}

impl Clone for Edge {
    fn clone(&self) -> (r: Edge)
        ensures
            r@ == self@,
    {
        Edge { outbound_id: self.outbound_id, t: self.t.clone(), inbound_id: self.inbound_id }
    }
}

impl PartialEq for Edge {
    fn eq(&self, other: &Edge) -> (r: bool) {
        self.outbound_id == other.outbound_id && self.inbound_id == other.inbound_id
            && bytes_eq(self.t.as_bytes(), other.t.as_bytes())
    }
}

impl vstd::std_specs::cmp::PartialEqSpecImpl for Edge {
    open spec fn obeys_eq_spec() -> bool {
        true
    }

    open spec fn eq_spec(&self, other: &Edge) -> bool {
        self@ == other@
    }
}

impl Eq for Edge {}

/// One named property value on a vertex.
#[derive(Debug)]
pub struct VertexProperty {
    pub id: u64,
    pub name: Identifier,
    pub value: Json,
}

/// The mathematical shape of a vertex property row.
pub struct VertexPropView {
    pub id: u64,
    pub name: Seq<u8>,
    pub value: JsonV,
}

impl View for VertexProperty {
    type V = VertexPropView;

    open spec fn view(&self) -> VertexPropView {
        VertexPropView { id: self.id, name: self.name@, value: self.value@ }
    }
}

/// One named property value on an edge.
#[derive(Debug)]
pub struct EdgeProperty {
    pub edge: Edge,
    pub name: Identifier,
    pub value: Json,
}

/// The mathematical shape of an edge property row.
pub struct EdgePropView {
    pub edge: EdgeView,
    pub name: Seq<u8>,
    pub value: JsonV,
}

impl View for EdgeProperty {
    type V = EdgePropView;

    open spec fn view(&self) -> EdgePropView {
        EdgePropView { edge: self.edge@, name: self.name@, value: self.value@ }
    }
}

/// A property name together with its value, as returned when all
/// properties of an entity are fetched.
#[derive(Debug)]
pub struct NamedProperty {
    pub name: Identifier,
    pub value: Json,
}

/// The mathematical shape of a named property.
pub struct NamedPropView {
    pub name: Seq<u8>,
    pub value: JsonV,
}

impl View for NamedProperty {
    type V = NamedPropView;

    open spec fn view(&self) -> NamedPropView {
        NamedPropView { name: self.name@, value: self.value@ }
    }
}

/// A vertex together with all its properties.
#[derive(Debug)]
pub struct VertexProperties {
    pub vertex: Vertex,
    pub props: Vec<NamedProperty>,
}

/// An edge together with all its properties.
#[derive(Debug)]
pub struct EdgeProperties {
    pub edge: Edge,
    pub props: Vec<NamedProperty>,
}

/// One atomic mutation of a bulk insert request.
#[derive(Debug)]
pub enum BulkInsertItem {
    /// A vertex to create, of the given type; the engine assigns its id.
    Vertex(Identifier),
    /// An edge to create between pre-existing vertices.
    Edge(Edge),
    /// A property to set on the vertex with the given id.
    VertexProperty(u64, Identifier, Json),
    /// A property to set on the given edge.
    EdgeProperty(Edge, Identifier, Json),
}

/// The summary of a bulk insert: the first and most recent vertex id the
/// request produced, when it created any vertices.
#[derive(Clone, Copy, Debug, PartialEq, Eq)]
pub struct BulkInsertResult {
    pub id_range: Option<(u64, u64)>,
}

} // verus!
