use vstd::prelude::*;

verus! {

use crate::errors::Error;
use crate::identifier::Identifier;
use crate::json::Json;
use crate::memory::{MemoryDatastore, named_views, vertex_views, vprop_views, eprop_views};
use crate::model::{
    GraphModel, wf, eval_vq, eval_eq, ids_of, edge_count, create_vertex_model, create_edge_ok,
    create_edge_model, delete_vertices_model, delete_edges_model, set_vprops, del_vprops,
    set_eprops, del_eprops, vprop_rows, eprop_rows, props_of_vertex, props_of_edge, has_edge,
    edge_views, bulk_run,
};
use crate::models::{
    BulkInsertItem, BulkInsertResult, Edge, EdgeDirection, EdgeProperties, EdgeProperty, Vertex,
    VertexProperties, VertexProperty,
};
use crate::queries::{EdgePropertyQuery, EdgeQuery, VertexPropertyQuery, VertexQuery};

/// The capability surface through which all reads and writes are
/// performed. Every backend exposes its state as a mathematical model and
/// keeps it well formed; each call takes effect atomically and reports
/// its error at the faulting call, never at release.
pub trait Transaction: Sized {
    /// The mathematical state behind the transaction.
    spec fn model(&self) -> GraphModel;

    /// Creates a vertex of the given type and returns its fresh non-zero
    /// id; fails only when the id space is exhausted.
    fn create_vertex(&mut self, t: &Identifier) -> (r: Result<u64, Error>)
        requires
            wf(old(self).model()),
        ensures
            wf(final(self).model()),
            match r {
                Ok(id) => id == old(self).model().next_id && id != 0 && old(self).model().next_id != u64::MAX && final(self).model() == create_vertex_model(
                    old(self).model(),
                    t@,
                ),
                Err(e) => e == Error::OutOfRange && old(self).model().next_id == u64::MAX && final(self).model() == old(self).model(),
            },
    ;

    /// The vertices a query selects, in result order.
    fn get_vertices(&self, q: &VertexQuery) -> (r: Result<Vec<Vertex>, Error>)
        requires
            wf(self.model()),
        ensures
            (r matches Ok(vs) && vertex_views(vs@) == eval_vq(self.model(), *q)),
    ;

    /// Deletes the selected vertices, cascading to incident edges and to
    /// every property of either.
    fn delete_vertices(&mut self, q: &VertexQuery) -> (r: Result<(), Error>)
        requires
            wf(old(self).model()),
        ensures
            wf(final(self).model()),
            (r matches Ok(u) && final(self).model() == delete_vertices_model(
                old(self).model(),
                ids_of(eval_vq(old(self).model(), *q)),
            )),
    ;

    /// The number of live vertices.
    fn get_vertex_count(&self) -> (r: Result<u64, Error>)
        ensures
            (r matches Ok(n) && n == self.model().vertices.len()),
    ;

    /// Creates an edge; false exactly when an endpoint is missing, true on
    /// insert and on idempotent re-insert.
    fn create_edge(&mut self, edge: &Edge) -> (r: Result<bool, Error>)
        requires
            wf(old(self).model()),
        ensures
            wf(final(self).model()),
            match r {
                Ok(b) => b == create_edge_ok(old(self).model(), edge@) && final(self).model()
                    == create_edge_model(old(self).model(), edge@) && !(create_edge_ok(
                    old(self).model(),
                    edge@,
                ) && !has_edge(old(self).model(), edge@) && old(self).model().next_ts
                    == u64::MAX),
                Err(e) => e == Error::OutOfRange && old(self).model().next_ts == u64::MAX
                    && create_edge_ok(old(self).model(), edge@) && !has_edge(
                    old(self).model(),
                    edge@,
                ) && final(self).model() == old(self).model(),
            },
    ;

    /// The edges a query selects, in result order.
    fn get_edges(&self, q: &EdgeQuery) -> (r: Result<Vec<Edge>, Error>)
        requires
            wf(self.model()),
        ensures
            (r matches Ok(es) && edge_views(es@) == eval_eq(self.model(), *q)),
    ;

    /// Deletes the selected edges, cascading to their properties.
    fn delete_edges(&mut self, q: &EdgeQuery) -> (r: Result<(), Error>)
        requires
            wf(old(self).model()),
        ensures
            wf(final(self).model()),
            (r matches Ok(u) && final(self).model() == delete_edges_model(
                old(self).model(),
                eval_eq(old(self).model(), *q),
            )),
    ;

    /// Counts the edges on the chosen side of a vertex, optionally
    /// restricted to one type.
    fn get_edge_count(&self, id: u64, t: Option<&Identifier>, direction: EdgeDirection) -> (r:
        Result<u64, Error>)
        ensures
            (r matches Ok(n) && n == edge_count(
                self.model(),
                id,
                match t {
                    None => None,
                    Some(x) => Some(x@),
                },
                direction,
            )),
    ;

    /// The rows under the query's property name for the selected vertices,
    /// omitting vertices where it is absent.
    fn get_vertex_properties(&self, q: &VertexPropertyQuery) -> (r: Result<
        Vec<VertexProperty>,
        Error,
    >)
        requires
            wf(self.model()),
        ensures
            (r matches Ok(ps) && vprop_views(ps@) == vprop_rows(
                self.model(),
                eval_vq(self.model(), q.inner),
                q.name@,
            )),
    ;

    /// One row per selected vertex with all its properties.
    fn get_all_vertex_properties(&self, q: &VertexQuery) -> (r: Result<
        Vec<VertexProperties>,
        Error,
    >)
        requires
            wf(self.model()),
        ensures
            (r matches Ok(rows) && rows@.len() == eval_vq(self.model(), *q).len() && (forall|
                i: int,
            |
                0 <= i < rows@.len() ==> (#[trigger] rows@[i].vertex)@ == eval_vq(
                    self.model(),
                    *q,
                )[i] && named_views(rows@[i].props@) == props_of_vertex(
                    self.model().vertex_props,
                    eval_vq(self.model(), *q)[i].id,
                ))),
    ;

    /// Upserts a value under the query's property name on every selected
    /// vertex.
    fn set_vertex_properties(&mut self, q: &VertexPropertyQuery, value: &Json) -> (r: Result<
        (),
        Error,
    >)
        requires
            wf(old(self).model()),
        ensures
            wf(final(self).model()),
            (r matches Ok(u) && final(self).model() == (GraphModel {
                vertex_props: set_vprops(
                    old(self).model().vertex_props,
                    ids_of(eval_vq(old(self).model(), q.inner)),
                    q.name@,
                    value@,
                ),
                ..old(self).model()
            })),
    ;

    /// Deletes the rows under the query's property name for the selected
    /// vertices.
    fn delete_vertex_properties(&mut self, q: &VertexPropertyQuery) -> (r: Result<(), Error>)
        requires
            wf(old(self).model()),
        ensures
            wf(final(self).model()),
            (r matches Ok(u) && final(self).model() == (GraphModel {
                vertex_props: del_vprops(
                    old(self).model().vertex_props,
                    ids_of(eval_vq(old(self).model(), q.inner)),
                    q.name@,
                ),
                ..old(self).model()
            })),
    ;

    /// The rows under the query's property name for the selected edges,
    /// omitting edges where it is absent.
    fn get_edge_properties(&self, q: &EdgePropertyQuery) -> (r: Result<Vec<EdgeProperty>, Error>)
        requires
            wf(self.model()),
        ensures
            (r matches Ok(ps) && eprop_views(ps@) == eprop_rows(
                self.model(),
                eval_eq(self.model(), q.inner),
                q.name@,
            )),
    ;

    /// One row per selected edge with all its properties.
    fn get_all_edge_properties(&self, q: &EdgeQuery) -> (r: Result<Vec<EdgeProperties>, Error>)
        requires
            wf(self.model()),
        ensures
            (r matches Ok(rows) && rows@.len() == eval_eq(self.model(), *q).len() && (forall|
                i: int,
            |
                0 <= i < rows@.len() ==> (#[trigger] rows@[i].edge)@ == eval_eq(
                    self.model(),
                    *q,
                )[i] && named_views(rows@[i].props@) == props_of_edge(
                    self.model().edge_props,
                    eval_eq(self.model(), *q)[i],
                ))),
    ;

    /// Upserts a value under the query's property name on every selected
    /// edge.
    fn set_edge_properties(&mut self, q: &EdgePropertyQuery, value: &Json) -> (r: Result<
        (),
        Error,
    >)
        requires
            wf(old(self).model()),
        ensures
            wf(final(self).model()),
            (r matches Ok(u) && final(self).model() == (GraphModel {
                edge_props: set_eprops(
                    old(self).model().edge_props,
                    eval_eq(old(self).model(), q.inner),
                    q.name@,
                    value@,
                ),
                ..old(self).model()
            })),
    ;

    /// Deletes the rows under the query's property name for the selected
    /// edges.
    fn delete_edge_properties(&mut self, q: &EdgePropertyQuery) -> (r: Result<(), Error>)
        requires
            wf(old(self).model()),
        ensures
            wf(final(self).model()),
            (r matches Ok(u) && final(self).model() == (GraphModel {
                edge_props: del_eprops(
                    old(self).model().edge_props,
                    eval_eq(old(self).model(), q.inner),
                    q.name@,
                ),
                ..old(self).model()
            })),
    ;
}

impl Transaction for MemoryDatastore {
    open spec fn model(&self) -> GraphModel {
        self@
    }

    fn create_vertex(&mut self, t: &Identifier) -> (r: Result<u64, Error>) {
        MemoryDatastore::create_vertex(self, t)
    }

    fn get_vertices(&self, q: &VertexQuery) -> (r: Result<Vec<Vertex>, Error>) {
        MemoryDatastore::get_vertices(self, q)
    }

    fn delete_vertices(&mut self, q: &VertexQuery) -> (r: Result<(), Error>) {
        MemoryDatastore::delete_vertices(self, q)
    }

    fn get_vertex_count(&self) -> (r: Result<u64, Error>) {
        MemoryDatastore::get_vertex_count(self)
    }

    fn create_edge(&mut self, edge: &Edge) -> (r: Result<bool, Error>) {
        MemoryDatastore::create_edge(self, edge)
    }

    fn get_edges(&self, q: &EdgeQuery) -> (r: Result<Vec<Edge>, Error>) {
        MemoryDatastore::get_edges(self, q)
    }

    fn delete_edges(&mut self, q: &EdgeQuery) -> (r: Result<(), Error>) {
        MemoryDatastore::delete_edges(self, q)
    }

    fn get_edge_count(&self, id: u64, t: Option<&Identifier>, direction: EdgeDirection) -> (r:
        Result<u64, Error>) {
        MemoryDatastore::get_edge_count(self, id, t, direction)
    }

    fn get_vertex_properties(&self, q: &VertexPropertyQuery) -> (r: Result<
        Vec<VertexProperty>,
        Error,
    >) {
        MemoryDatastore::get_vertex_properties(self, q)
    }

    fn get_all_vertex_properties(&self, q: &VertexQuery) -> (r: Result<
        Vec<VertexProperties>,
        Error,
    >) {
        let r = MemoryDatastore::get_all_vertex_properties(self, q);
        proof {
            match &r {
                Ok(rows) => {
                    assert forall|i: int| 0 <= i < rows@.len() implies (#[trigger] rows@[i].vertex)@
                        == eval_vq(self.model(), *q)[i] && named_views(rows@[i].props@)
                        == props_of_vertex(
                        self.model().vertex_props,
                        eval_vq(self.model(), *q)[i].id,
                    ) by {
                        assert((rows@[i].vertex)@ == eval_vq(self@, *q)[i]);
                    }
                }
                Err(_) => {}
            }
        }
        r
    }

    fn set_vertex_properties(&mut self, q: &VertexPropertyQuery, value: &Json) -> (r: Result<
        (),
        Error,
    >) {
        MemoryDatastore::set_vertex_properties(self, q, value)
    }

    fn delete_vertex_properties(&mut self, q: &VertexPropertyQuery) -> (r: Result<(), Error>) {
        MemoryDatastore::delete_vertex_properties(self, q)
    }

    fn get_edge_properties(&self, q: &EdgePropertyQuery) -> (r: Result<Vec<EdgeProperty>, Error>) {
        MemoryDatastore::get_edge_properties(self, q)
    }

    fn get_all_edge_properties(&self, q: &EdgeQuery) -> (r: Result<Vec<EdgeProperties>, Error>) {
        let r = MemoryDatastore::get_all_edge_properties(self, q);
        proof {
            match &r {
                Ok(rows) => {
                    assert forall|i: int| 0 <= i < rows@.len() implies (#[trigger] rows@[i].edge)@
                        == eval_eq(self.model(), *q)[i] && named_views(rows@[i].props@)
                        == props_of_edge(
                        self.model().edge_props,
                        eval_eq(self.model(), *q)[i],
                    ) by {
                        assert((rows@[i].edge)@ == eval_eq(self@, *q)[i]);
                    }
                }
                Err(_) => {}
            }
        }
        r
    }

    fn set_edge_properties(&mut self, q: &EdgePropertyQuery, value: &Json) -> (r: Result<
        (),
        Error,
    >) {
        MemoryDatastore::set_edge_properties(self, q, value)
    }

    fn delete_edge_properties(&mut self, q: &EdgePropertyQuery) -> (r: Result<(), Error>) {
        MemoryDatastore::delete_edge_properties(self, q)
    }
}


/// A factory for transactions together with the default bulk-insert
/// strategy. In this library a transaction is exclusive access to the
/// store: a datastore is usable as its own transaction, a mutable borrow
/// scopes the access, and every call commits atomically, so release can
/// never fail.
pub trait Datastore: Transaction {
    /// Bulk inserts many vertices, edges and properties under one
    /// transaction, returning the first and most recent vertex id
    /// produced. A failing item aborts the batch; the preceding effects
    /// are retained.
    fn bulk_insert(&mut self, items: Vec<BulkInsertItem>) -> (r: Result<BulkInsertResult, Error>)
        requires
            wf(old(self).model()),
        ensures
            wf(final(self).model()),
            final(self).model() == bulk_run(old(self).model(), items@).model,
            (match r {
                Ok(br) => bulk_run(old(self).model(), items@).ok && br.id_range == bulk_run(
                    old(self).model(),
                    items@,
                ).range,
                Err(e) => !bulk_run(old(self).model(), items@).ok && e == Error::OutOfRange,
            }),
    ;
}

impl Datastore for MemoryDatastore {
    fn bulk_insert(&mut self, items: Vec<BulkInsertItem>) -> (r: Result<BulkInsertResult, Error>) {
        MemoryDatastore::bulk_insert(self, items)
    }
}

} // verus!
