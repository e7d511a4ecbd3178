use vstd::prelude::*;

verus! {

use crate::identifier::Identifier;
use crate::models::{Edge, EdgeDirection};

/// A selection over vertices. Queries are built programmatically and never
/// touch the store; the evaluator resolves them against an engine.
#[derive(Debug)]
pub enum VertexQuery {
    /// The vertices whose id is at least `start_id`, in ascending id order,
    /// optionally filtered by type, capped at `limit`.
    Range { start_id: u64, t: Option<Identifier>, limit: u64 },
    /// Exactly the listed ids that exist, in the order listed.
    Specific { ids: Vec<u64> },
    /// The endpoints of the inner edge set on the chosen side, first-seen
    /// order and deduplicated, optionally filtered by type, capped at
    /// `limit`.
    Pipe { inner: Box<EdgeQuery>, direction: EdgeDirection, t: Option<Identifier>, limit: u64 },
}

/// A selection over edges.
#[derive(Debug)]
pub enum EdgeQuery {
    /// Exactly the listed edges that exist, in the order listed.
    Specific { edges: Vec<Edge> },
    /// The edges incident to the inner vertex set on the chosen side, in
    /// descending creation order per source vertex, optionally filtered by
    /// type and restricted to creation stamps in `(low, high]`, capped at
    /// `limit` per source vertex.
    Pipe {
        inner: Box<VertexQuery>,
        direction: EdgeDirection,
        t: Option<Identifier>,
        limit: u64,
        high: Option<u64>,
        low: Option<u64>,
    },
}

/// A vertex selection scoped to one property name.
#[derive(Debug)]
pub struct VertexPropertyQuery {
    pub inner: VertexQuery,
    pub name: Identifier,
}

/// An edge selection scoped to one property name.
#[derive(Debug)]
pub struct EdgePropertyQuery {
    pub inner: EdgeQuery,
    pub name: Identifier,
}

/// The shape of an optional type filter.
pub open spec fn opt_view(t: Option<Identifier>) -> Option<Seq<u8>> {
    match t {
        None => None,
        Some(id) => Some(id@),
    }
}

impl VertexQuery {
    /// A query for exactly the listed ids.
    pub fn specific(ids: Vec<u64>) -> (r: VertexQuery)
        ensures
            (r matches VertexQuery::Specific { ids: i2 } && i2@ == ids@),
    {
        VertexQuery::Specific { ids }
    }

    /// A query for one id.
    pub fn specific_single(id: u64) -> (r: VertexQuery)
        ensures
            (r matches VertexQuery::Specific { ids: i2 } && i2@ == seq![id]),
    {
        let mut ids: Vec<u64> = Vec::new();
        ids.push(id);
        assert(ids@ =~= seq![id]);
        VertexQuery::Specific { ids }
    }

    /// A query for the vertices from `start_id` up, capped at `limit`.
    pub fn range(start_id: u64, limit: u64) -> (r: VertexQuery)
        ensures
            (r matches VertexQuery::Range { start_id: s2, t: t2, limit: l2 } && s2 == start_id
                && t2 is None && l2 == limit),
    {
        VertexQuery::Range { start_id, t: None, limit }
    }

    /// Pipes this vertex set to its outbound edges, up to `limit` per
    /// source vertex.
    pub fn outbound(self, limit: u64) -> (r: EdgeQuery)
        ensures
            (r matches EdgeQuery::Pipe { inner, direction, t, limit: l2, high, low }
                && *inner == self && direction == EdgeDirection::Outbound && t is None
                && l2 == limit && high is None && low is None),
    {
        EdgeQuery::Pipe {
            inner: Box::new(self),
            direction: EdgeDirection::Outbound,
            t: None,
            limit,
            high: None,
            low: None,
        }
    }

    /// Pipes this vertex set to its inbound edges, up to `limit` per
    /// source vertex.
    pub fn inbound(self, limit: u64) -> (r: EdgeQuery)
        ensures
            (r matches EdgeQuery::Pipe { inner, direction, t, limit: l2, high, low }
                && *inner == self && direction == EdgeDirection::Inbound && t is None
                && l2 == limit && high is None && low is None),
    {
        EdgeQuery::Pipe {
            inner: Box::new(self),
            direction: EdgeDirection::Inbound,
            t: None,
            limit,
            high: None,
            low: None,
        }
    }

    /// Constrains the type filter of a range or pipe stage; a specific
    /// query names its vertices exactly and is returned unchanged.
    pub fn t(self, t: Identifier) -> (r: VertexQuery)
        ensures
            (match self {
                VertexQuery::Range { start_id, t: _, limit } => r matches VertexQuery::Range {
                    start_id: s2,
                    t: t2,
                    limit: l2,
                } && s2 == start_id && (t2 matches Some(x) && x@ == t@) && l2 == limit,
                VertexQuery::Specific { .. } => r == self,
                VertexQuery::Pipe { inner, direction, t: _, limit } => r matches VertexQuery::Pipe {
                    inner: i2,
                    direction: d2,
                    t: t2,
                    limit: l2,
                } && i2 == inner && d2 == direction && (t2 matches Some(x) && x@ == t@)
                    && l2 == limit,
            }),
    {
        match self {
            VertexQuery::Range { start_id, t: _, limit } => VertexQuery::Range {
                start_id,
                t: Some(t),
                limit,
            },
            VertexQuery::Specific { ids } => VertexQuery::Specific { ids },
            VertexQuery::Pipe { inner, direction, t: _, limit } => VertexQuery::Pipe {
                inner,
                direction,
                t: Some(t),
                limit,
            },
        }
    }

    /// Scopes this selection to one property name.
    pub fn property(self, name: Identifier) -> (r: VertexPropertyQuery)
        ensures
            r.inner == self,
            r.name@ == name@,
    {
        VertexPropertyQuery { inner: self, name }
    }
}

impl EdgeQuery {
    /// A query for exactly the listed edges.
    pub fn specific(edges: Vec<Edge>) -> (r: EdgeQuery)
        ensures
            (r matches EdgeQuery::Specific { edges: e2 } && e2@ == edges@),
    {
        EdgeQuery::Specific { edges }
    }

    /// A query for one edge.
    pub fn specific_single(edge: Edge) -> (r: EdgeQuery)
        ensures
            (r matches EdgeQuery::Specific { edges: e2 } && e2@ == seq![edge]),
    {
        let mut edges: Vec<Edge> = Vec::new();
        edges.push(edge);
        assert(edges@ =~= seq![edge]);
        EdgeQuery::Specific { edges }
    }

    /// Pipes this edge set to its outbound endpoints, deduplicated, capped
    /// at `limit`.
    pub fn outbound(self, limit: u64) -> (r: VertexQuery)
        ensures
            (r matches VertexQuery::Pipe { inner, direction, t, limit: l2 } && *inner == self
                && direction == EdgeDirection::Outbound && t is None && l2 == limit),
    {
        VertexQuery::Pipe {
            inner: Box::new(self),
            direction: EdgeDirection::Outbound,
            t: None,
            limit,
        }
    }

    /// Pipes this edge set to its inbound endpoints, deduplicated, capped
    /// at `limit`.
    pub fn inbound(self, limit: u64) -> (r: VertexQuery)
        ensures
            (r matches VertexQuery::Pipe { inner, direction, t, limit: l2 } && *inner == self
                && direction == EdgeDirection::Inbound && t is None && l2 == limit),
    {
        VertexQuery::Pipe {
            inner: Box::new(self),
            direction: EdgeDirection::Inbound,
            t: None,
            limit,
        }
    }

    /// Constrains the type filter of a pipe stage; a specific query names
    /// its edges exactly and is returned unchanged.
    pub fn t(self, t: Identifier) -> (r: EdgeQuery)
        ensures
            (match self {
                EdgeQuery::Specific { .. } => r == self,
                EdgeQuery::Pipe { inner, direction, t: _, limit, high, low } => r
                    matches EdgeQuery::Pipe {
                    inner: i2,
                    direction: d2,
                    t: t2,
                    limit: l2,
                    high: h2,
                    low: lo2,
                } && i2 == inner && d2 == direction && (t2 matches Some(x) && x@ == t@)
                    && l2 == limit && h2 == high && lo2 == low,
            }),
    {
        match self {
            EdgeQuery::Specific { edges } => EdgeQuery::Specific { edges },
            EdgeQuery::Pipe { inner, direction, t: _, limit, high, low } => EdgeQuery::Pipe {
                inner,
                direction,
                t: Some(t),
                limit,
                high,
                low,
            },
        }
    }

    /// Restricts a pipe stage to edges created at or before `high`; a
    /// specific query is returned unchanged.
    pub fn high(self, high: u64) -> (r: EdgeQuery)
        ensures
            (match self {
                EdgeQuery::Specific { .. } => r == self,
                EdgeQuery::Pipe { inner, direction, t, limit, high: _, low } => r
                    matches EdgeQuery::Pipe {
                    inner: i2,
                    direction: d2,
                    t: t2,
                    limit: l2,
                    high: h2,
                    low: lo2,
                } && i2 == inner && d2 == direction && t2 == t && l2 == limit
                    && h2 == Some(high) && lo2 == low,
            }),
    {
        match self {
            EdgeQuery::Specific { edges } => EdgeQuery::Specific { edges },
            EdgeQuery::Pipe { inner, direction, t, limit, high: _, low } => EdgeQuery::Pipe {
                inner,
                direction,
                t,
                limit,
                high: Some(high),
                low,
            },
        }
    }

    /// Restricts a pipe stage to edges created strictly after `low`; a
    /// specific query is returned unchanged.
    pub fn low(self, low: u64) -> (r: EdgeQuery)
        ensures
            (match self {
                EdgeQuery::Specific { .. } => r == self,
                EdgeQuery::Pipe { inner, direction, t, limit, high, low: _ } => r
                    matches EdgeQuery::Pipe {
                    inner: i2,
                    direction: d2,
                    t: t2,
                    limit: l2,
                    high: h2,
                    low: lo2,
                } && i2 == inner && d2 == direction && t2 == t && l2 == limit && h2 == high
                    && lo2 == Some(low),
            }),
    {
        match self {
            EdgeQuery::Specific { edges } => EdgeQuery::Specific { edges },
            EdgeQuery::Pipe { inner, direction, t, limit, high, low: _ } => EdgeQuery::Pipe {
                inner,
                direction,
                t,
                limit,
                high,
                low: Some(low),
            },
        }
    }

    /// Scopes this selection to one property name.
    pub fn property(self, name: Identifier) -> (r: EdgePropertyQuery)
        ensures
            r.inner == self,
            r.name@ == name@,
    {
        EdgePropertyQuery { inner: self, name }
    }
}

} // verus!
