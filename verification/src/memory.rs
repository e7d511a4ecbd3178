use vstd::prelude::*;

verus! {

use crate::bytes::bytes_eq;
use crate::errors::Error;
use crate::identifier::Identifier;
use crate::json::Json;
use crate::model::{
    lemma_vertex_type_at, GraphModel, EdgeRecView, has_vertex, has_edge, vertex_type, wf, type_matches, capped,
    range_sel, specific_sel, endpoint, endpoints, dedup_first, pipe_vertex_sel, eval_vpipe,
    specific_edge_sel, edge_matches, scan_desc, epipe, incident_sel, edge_count, edge_views,
    ids_of, eval_vq, eval_eq, create_vertex_model, create_edge_ok, create_edge_model,
    keep_vertices, keep_edges_clear, keep_vprops_clear, keep_eprops_clear, keep_edges_not_in,
    keep_eprops_not_in, delete_vertices_model, delete_edges_model, edge_touches, has_vprop,
    vprop_value, has_eprop, eprop_value, set_vprop, set_vprops, del_vprops, set_eprop, set_eprops,
    del_eprops, vprop_rows, eprop_rows, props_of_vertex, props_of_edge, bulk_run, bulk_step,
    BulkOutcome,
};
use crate::models::{
    BulkInsertItem, BulkInsertResult, Edge, EdgeDirection, EdgeProperty, EdgePropView, EdgeView,
    Vertex, VertexProperty, VertexPropView, VertexView,
};
use crate::queries::{EdgePropertyQuery, EdgeQuery, VertexPropertyQuery, VertexQuery, opt_view};

/// One committed edge with its creation stamp.
pub struct EdgeRec {
    pub edge: Edge,
    pub ts: u64,
}

impl View for EdgeRec {
    type V = EdgeRecView;

    open spec fn view(&self) -> EdgeRecView {
        EdgeRecView { edge: self.edge@, ts: self.ts }
    }
}

/// The shapes of a vertex table.
pub open spec fn vertex_views(s: Seq<Vertex>) -> Seq<VertexView> {
    Seq::new(s.len(), |i: int| s[i]@)
}

/// The shapes of an edge table.
pub open spec fn edge_rec_views(s: Seq<EdgeRec>) -> Seq<EdgeRecView> {
    Seq::new(s.len(), |i: int| s[i]@)
}

/// The shapes of a vertex property table.
pub open spec fn vprop_views(s: Seq<VertexProperty>) -> Seq<VertexPropView> {
    Seq::new(s.len(), |i: int| s[i]@)
}

/// The shapes of an edge property table.
pub open spec fn eprop_views(s: Seq<EdgeProperty>) -> Seq<EdgePropView> {
    Seq::new(s.len(), |i: int| s[i]@)
}

/// The in-memory storage engine: the reference datastore. It holds the
/// vertex table in ascending id order, the edge table in ascending
/// creation order (the authoritative edge store), and the two property
/// tables. Every operation takes effect and is observed atomically; a
/// failed operation leaves the state unchanged.
pub struct MemoryDatastore {
    vertices: Vec<Vertex>,
    edges: Vec<EdgeRec>,
    vertex_props: Vec<VertexProperty>,
    edge_props: Vec<EdgeProperty>,
    next_id: u64,
    next_ts: u64,
}

impl View for MemoryDatastore {
    type V = GraphModel;

    closed spec fn view(&self) -> GraphModel {
        GraphModel {
            vertices: vertex_views(self.vertices@),
            edges: edge_rec_views(self.edges@),
            vertex_props: vprop_views(self.vertex_props@),
            edge_props: eprop_views(self.edge_props@),
            next_id: self.next_id,
            next_ts: self.next_ts,
        }
    }
}

/// The empty model a fresh datastore has.
pub open spec fn empty_model() -> GraphModel {
    GraphModel {
        vertices: Seq::empty(),
        edges: Seq::empty(),
        vertex_props: Seq::empty(),
        edge_props: Seq::empty(),
        next_id: 1,
        next_ts: 1,
    }
}

impl MemoryDatastore {
    /// A fresh, empty datastore.
    pub fn new() -> (r: MemoryDatastore)
        ensures
            r@ == empty_model(),
            wf(r@),
    {
        let r = MemoryDatastore {
            vertices: Vec::new(),
            edges: Vec::new(),
            vertex_props: Vec::new(),
            edge_props: Vec::new(),
            next_id: 1,
            next_ts: 1,
        };
        proof {
            assert(vertex_views(r.vertices@) =~= Seq::<VertexView>::empty());
            assert(edge_rec_views(r.edges@) =~= Seq::<EdgeRecView>::empty());
            assert(vprop_views(r.vertex_props@) =~= Seq::<VertexPropView>::empty());
            assert(eprop_views(r.edge_props@) =~= Seq::<EdgePropView>::empty());
        }
        r
    }

    /// The index of the vertex with the given id, if it is live.
    fn find_vertex(&self, id: u64) -> (r: Option<usize>)
        ensures
            match r {
                Some(i) => i < self@.vertices.len() && self@.vertices[i as int].id == id,
                None => !has_vertex(self@, id),
            },
    {
        let mut i: usize = 0;
        while i < self.vertices.len()
            invariant
                0 <= i <= self.vertices@.len(),
                self@.vertices.len() == self.vertices@.len(),
                forall|j: int| 0 <= j < i ==> self@.vertices[j].id != id,
            decreases self.vertices@.len() - i,
        {
            if self.vertices[i].id == id {
                return Some(i);
            }
            i = i + 1;
        }
        None
    }

    /// The index of the committed edge with the given triple, if any.
    fn find_edge(&self, e: &Edge) -> (r: Option<usize>)
        ensures
            match r {
                Some(i) => i < self@.edges.len() && self@.edges[i as int].edge == e@,
                None => !has_edge(self@, e@),
            },
    {
        let mut i: usize = 0;
        while i < self.edges.len()
            invariant
                0 <= i <= self.edges@.len(),
                self@.edges.len() == self.edges@.len(),
                forall|j: int| 0 <= j < i ==> self@.edges[j].edge != e@,
            decreases self.edges@.len() - i,
        {
            let rec = &self.edges[i];
            if rec.edge.outbound_id == e.outbound_id && rec.edge.inbound_id == e.inbound_id
                && bytes_eq(rec.edge.t.as_bytes(), e.t.as_bytes()) {
                assert(self@.edges[i as int].edge == e@);
                return Some(i);
            }
            assert(self@.edges[i as int].edge != e@);
            i = i + 1;
        }
        None
    }

    /// Creates a vertex of the given type and returns its fresh id. Ids
    /// ascend strictly from 1 and are never reused; the call fails with
    /// `OutOfRange` exactly when the id space is exhausted.
    pub fn create_vertex(&mut self, t: &Identifier) -> (r: Result<u64, Error>)
        requires
            wf(old(self)@),
        ensures
            wf(final(self)@),
            match r {
                Ok(id) => id == old(self)@.next_id && id != 0 && old(self)@.next_id != u64::MAX
                    && final(self)@ == create_vertex_model(old(self)@, t@),
                Err(e) => e == Error::OutOfRange && old(self)@.next_id == u64::MAX && final(self)@
                    == old(self)@,
            },
    {
        if self.next_id == u64::MAX {
            return Err(Error::OutOfRange);
        }
        let id = self.next_id;
        self.next_id = self.next_id + 1;
        self.vertices.push(Vertex { id, t: t.clone() });
        proof {
            assert(vertex_views(self.vertices@) =~= vertex_views(old(self).vertices@).push(
                VertexView { id: id, t: t@ },
            ));
            assert(self@ == create_vertex_model(old(self)@, t@));
            let m = self@;
            assert forall|i: int, j: int| 0 <= i < j < m.vertices.len() implies m.vertices[i].id
                < m.vertices[j].id by {
                if j == m.vertices.len() - 1 {
                    assert(old(self)@.vertices[i].id < old(self)@.next_id);
                }
            }
            assert forall|i: int| 0 <= i < m.edges.len() implies has_vertex(
                m,
                #[trigger] m.edges[i].edge.outbound_id,
            ) && has_vertex(m, m.edges[i].edge.inbound_id) by {
                let oldm = old(self)@;
                assert(has_vertex(oldm, m.edges[i].edge.outbound_id));
                assert(has_vertex(oldm, m.edges[i].edge.inbound_id));
                let w = choose|k: int|
                    0 <= k < oldm.vertices.len() && oldm.vertices[k].id
                        == m.edges[i].edge.outbound_id;
                assert(m.vertices[w].id == m.edges[i].edge.outbound_id);
                let w2 = choose|k: int|
                    0 <= k < oldm.vertices.len() && oldm.vertices[k].id
                        == m.edges[i].edge.inbound_id;
                assert(m.vertices[w2].id == m.edges[i].edge.inbound_id);
            }
            assert forall|i: int| 0 <= i < m.vertex_props.len() implies has_vertex(
                m,
                #[trigger] m.vertex_props[i].id,
            ) by {
                let oldm = old(self)@;
                assert(has_vertex(oldm, m.vertex_props[i].id));
                let w = choose|k: int|
                    0 <= k < oldm.vertices.len() && oldm.vertices[k].id == m.vertex_props[i].id;
                assert(m.vertices[w].id == m.vertex_props[i].id);
            }
            assert forall|i: int| 0 <= i < m.edge_props.len() implies has_edge(
                m,
                #[trigger] m.edge_props[i].edge,
            ) by {
                let oldm = old(self)@;
                assert(has_edge(oldm, m.edge_props[i].edge));
                let w = choose|k: int|
                    0 <= k < oldm.edges.len() && oldm.edges[k].edge == m.edge_props[i].edge;
                assert(m.edges[w].edge == m.edge_props[i].edge);
            }
        }
        Ok(id)
    }

    /// The number of live vertices.
    pub fn get_vertex_count(&self) -> (r: Result<u64, Error>)
        ensures
            (r matches Ok(n) && n == self@.vertices.len()),
    {
        Ok(self.vertices.len() as u64)
    }

    /// Creates an edge. Returns `Ok(false)`, changing nothing, when either
    /// endpoint is missing; `Ok(true)` when the triple is already
    /// committed (idempotent, the original stamp is kept) or when it is
    /// inserted with a fresh stamp. Fails with `OutOfRange` only when the
    /// stamp space is exhausted.
    pub fn create_edge(&mut self, edge: &Edge) -> (r: Result<bool, Error>)
        requires
            wf(old(self)@),
        ensures
            wf(final(self)@),
            match r {
                Ok(b) => b == create_edge_ok(old(self)@, edge@) && final(self)@
                    == create_edge_model(old(self)@, edge@) && !(create_edge_ok(old(self)@, edge@)
                    && !has_edge(old(self)@, edge@) && old(self)@.next_ts == u64::MAX),
                Err(e) => e == Error::OutOfRange && old(self)@.next_ts == u64::MAX
                    && create_edge_ok(old(self)@, edge@) && !has_edge(old(self)@, edge@)
                    && final(self)@ == old(self)@,
            },
    {
        let out_ok = self.find_vertex(edge.outbound_id);
        let in_ok = self.find_vertex(edge.inbound_id);
        let ghost oldm = self@;
        match (out_ok, in_ok) {
            (Some(_), Some(_)) => {
                proof {
                    assert(has_vertex(oldm, edge@.outbound_id));
                    assert(has_vertex(oldm, edge@.inbound_id));
                }
                match self.find_edge(edge) {
                    Some(_) => {
                        proof {
                            assert(has_edge(oldm, edge@));
                            assert(self@ == create_edge_model(oldm, edge@));
                        }
                        Ok(true)
                    }
                    None => {
                        if self.next_ts == u64::MAX {
                            return Err(Error::OutOfRange);
                        }
                        let ts = self.next_ts;
                        self.next_ts = self.next_ts + 1;
                        self.edges.push(EdgeRec { edge: edge.clone(), ts });
                        proof {
                            assert(edge_rec_views(self.edges@) =~= edge_rec_views(
                                old(self).edges@,
                            ).push(EdgeRecView { edge: edge@, ts: ts }));
                            assert(self@ == create_edge_model(oldm, edge@));
                            let m = self@;
                            assert forall|i: int, j: int| 0 <= i < j < m.edges.len() implies
                                m.edges[i].ts < m.edges[j].ts by {
                                if j == m.edges.len() - 1 {
                                    assert(oldm.edges[i].ts < oldm.next_ts);
                                }
                            }
                            assert forall|i: int| 0 <= i < m.edges.len() implies #[trigger]
                                m.edges[i].ts < m.next_ts by {
                                if i < m.edges.len() - 1 {
                                    assert(oldm.edges[i].ts < oldm.next_ts);
                                }
                            }
                            assert forall|i: int| 0 <= i < m.vertex_props.len() implies
                                has_vertex(m, #[trigger] m.vertex_props[i].id) by {
                                assert(has_vertex(oldm, m.vertex_props[i].id));
                                let w = choose|k: int|
                                    0 <= k < oldm.vertices.len() && oldm.vertices[k].id
                                        == m.vertex_props[i].id;
                                assert(m.vertices[w].id == m.vertex_props[i].id);
                            }
                            assert forall|i: int, j: int|
                                0 <= i < m.edges.len() && 0 <= j < m.edges.len() && i != j
                                    implies m.edges[i].edge != m.edges[j].edge by {
                                if i < m.edges.len() - 1 && j < m.edges.len() - 1 {
                                } else {
                                    assert(!has_edge(oldm, edge@));
                                }
                            }
                            assert forall|i: int| 0 <= i < m.edges.len() implies has_vertex(
                                m,
                                #[trigger] m.edges[i].edge.outbound_id,
                            ) && has_vertex(m, m.edges[i].edge.inbound_id) by {
                                assert(m.vertices == oldm.vertices);
                                if i < m.edges.len() - 1 {
                                    assert(has_vertex(oldm, oldm.edges[i].edge.outbound_id));
                                    assert(has_vertex(oldm, oldm.edges[i].edge.inbound_id));
                                }
                            }
                            assert forall|i: int| 0 <= i < m.edge_props.len() implies has_edge(
                                m,
                                #[trigger] m.edge_props[i].edge,
                            ) by {
                                assert(has_edge(oldm, oldm.edge_props[i].edge));
                                let w = choose|k: int|
                                    0 <= k < oldm.edges.len() && oldm.edges[k].edge
                                        == oldm.edge_props[i].edge;
                                assert(m.edges[w].edge == m.edge_props[i].edge);
                            }
                        }
                        Ok(true)
                    }
                }
            }
            _ => {
                proof {
                    assert(!create_edge_ok(oldm, edge@));
                    assert(self@ == create_edge_model(oldm, edge@));
                }
                Ok(false)
            }
        }
    }

    /// Counts the committed edges on the chosen side of `id`, restricted
    /// to type `t` when given. A missing or zero id has no incident edges,
    /// so its count is zero.
    #[verifier::loop_isolation(false)]
    pub fn get_edge_count(
        &self,
        id: u64,
        t: Option<&Identifier>,
        direction: EdgeDirection,
    ) -> (r: Result<u64, Error>)
        ensures
            (r matches Ok(n) && n == edge_count(
                self@,
                id,
                match t {
                    None => None,
                    Some(x) => Some(x@),
                },
                direction,
            )),
    {
        let ghost tf: Option<Seq<u8>> = match t {
            None => None,
            Some(x) => Some(x@),
        };
        let mut count: u64 = 0;
        let mut i: usize = 0;
        proof {
            assert(self@.edges.subrange(0, 0) =~= Seq::<EdgeRecView>::empty());
        }
        while i < self.edges.len()
            invariant
                0 <= i <= self.edges@.len(),
                self@.edges.len() == self.edges@.len(),
                count == incident_sel(self@.edges.subrange(0, i as int), id, tf, direction).len(),
                count <= i,
            decreases self.edges@.len() - i,
        {
            let rec = &self.edges[i];
            let side = match direction {
                EdgeDirection::Outbound => rec.edge.outbound_id,
                EdgeDirection::Inbound => rec.edge.inbound_id,
            };
            let tm = match t {
                None => true,
                Some(x) => bytes_eq(rec.edge.t.as_bytes(), x.as_bytes()),
            };
            proof {
                let pre = self@.edges.subrange(0, i as int);
                let cur = self@.edges.subrange(0, i + 1);
                assert(cur.drop_last() =~= pre);
                assert(cur.last() == self@.edges[i as int]);
                assert(endpoint(self@.edges[i as int].edge, direction) == side);
                assert(type_matches(tf, self@.edges[i as int].edge.t) == tm);
            }
            if side == id && tm {
                count = count + 1;
                assert(count == incident_sel(
                    self@.edges.subrange(0, i + 1),
                    id,
                    tf,
                    direction,
                ).len());
            } else {
                assert(count == incident_sel(
                    self@.edges.subrange(0, i + 1),
                    id,
                    tf,
                    direction,
                ).len());
            }
            i = i + 1;
        }
        proof {
            assert(self@.edges.subrange(0, self@.edges.len() as int) =~= self@.edges);
        }
        Ok(count)
    }
}

/// True when the vector holds the id.
fn u64_in(v: &Vec<u64>, x: u64) -> (r: bool)
    ensures
        r == v@.contains(x),
{
    let mut i: usize = 0;
    while i < v.len()
        invariant
            0 <= i <= v@.len(),
            forall|j: int| 0 <= j < i ==> v@[j] != x,
        decreases v@.len() - i,
    {
        if v[i] == x {
            assert(v@[i as int] == x);
            assert(v@.contains(x));
            return true;
        }
        i = i + 1;
    }
    assert(!v@.contains(x));
    false
}

impl MemoryDatastore {
    /// Resolves a vertex query to its result vertices, in result order.
    #[verifier::loop_isolation(false)]
    fn run_vq(&self, q: &VertexQuery) -> (r: Vec<Vertex>)
        requires
            wf(self@),
        ensures
            vertex_views(r@) == eval_vq(self@, *q),
        decreases *q,
    {
        let ghost m = self@;
        match q {
            VertexQuery::Range { start_id, t, limit } => {
                let ghost tf = opt_view(*t);
                let mut out: Vec<Vertex> = Vec::new();
                let mut i: usize = 0;
                proof {
                    assert(m.vertices.subrange(0, 0) =~= Seq::<VertexView>::empty());
                    assert(vertex_views(out@) =~= Seq::<VertexView>::empty());
                }
                while i < self.vertices.len()
                    invariant
                        0 <= i <= self.vertices@.len(),
                        vertex_views(out@) == range_sel(
                            m.vertices.subrange(0, i as int),
                            *start_id,
                            tf,
                        ),
                    decreases self.vertices@.len() - i,
                {
                    let v = &self.vertices[i];
                    let keep = v.id >= *start_id && (match t {
                        None => true,
                        Some(x) => bytes_eq(v.t.as_bytes(), x.as_bytes()),
                    });
                    let ghost pre = vertex_views(out@);
                    proof {
                        let c = m.vertices.subrange(0, i + 1);
                        assert(c.drop_last() =~= m.vertices.subrange(0, i as int));
                        assert(c.last() == m.vertices[i as int]);
                        assert(keep == (m.vertices[i as int].id >= *start_id && type_matches(
                            tf,
                            m.vertices[i as int].t,
                        )));
                    }
                    if keep {
                        out.push(v.clone());
                        proof {
                            assert(vertex_views(out@) =~= pre.push(m.vertices[i as int]));
                        }
                    }
                    i = i + 1;
                }
                proof {
                    assert(m.vertices.subrange(0, m.vertices.len() as int) =~= m.vertices);
                }
                if (out.len() as u64) > *limit {
                    let ghost full = vertex_views(out@);
                    out.truncate(*limit as usize);
                    proof {
                        assert(vertex_views(out@) =~= full.subrange(0, *limit as int));
                    }
                }
                out
            }
            VertexQuery::Specific { ids } => {
                let mut out: Vec<Vertex> = Vec::new();
                let mut i: usize = 0;
                proof {
                    assert(ids@.subrange(0, 0) =~= Seq::<u64>::empty());
                    assert(vertex_views(out@) =~= Seq::<VertexView>::empty());
                }
                while i < ids.len()
                    invariant
                        0 <= i <= ids@.len(),
                        vertex_views(out@) == specific_sel(m, ids@.subrange(0, i as int)),
                    decreases ids@.len() - i,
                {
                    let id = ids[i];
                    let ghost pre = vertex_views(out@);
                    proof {
                        let c = ids@.subrange(0, i + 1);
                        assert(c.drop_last() =~= ids@.subrange(0, i as int));
                        assert(c.last() == ids@[i as int]);
                    }
                    match self.find_vertex(id) {
                        Some(k) => {
                            proof {
                                lemma_vertex_type_at(m, k as int);
                            }
                            let v = &self.vertices[k];
                            out.push(Vertex { id, t: v.t.clone() });
                            proof {
                                assert(vertex_views(out@) =~= pre.push(
                                    VertexView { id: id, t: vertex_type(m, id) },
                                ));
                            }
                        }
                        None => {}
                    }
                    i = i + 1;
                }
                proof {
                    assert(ids@.subrange(0, ids@.len() as int) =~= ids@);
                }
                out
            }
            VertexQuery::Pipe { inner, direction, t, limit } => {
                let inner_edges = self.run_eq(inner);
                let ghost evs = eval_eq(m, **inner);
                let ghost tf = opt_view(*t);
                let mut ids: Vec<u64> = Vec::new();
                let mut i: usize = 0;
                proof {
                    assert(evs.subrange(0, 0) =~= Seq::<EdgeView>::empty());
                    assert(ids@ =~= endpoints(evs.subrange(0, 0), *direction));
                }
                while i < inner_edges.len()
                    invariant
                        0 <= i <= inner_edges@.len(),
                        edge_views(inner_edges@) == evs,
                        evs.len() == inner_edges@.len(),
                        ids@ == endpoints(evs.subrange(0, i as int), *direction),
                    decreases inner_edges@.len() - i,
                {
                    let e = &inner_edges[i];
                    let ep = match direction {
                        EdgeDirection::Outbound => e.outbound_id,
                        EdgeDirection::Inbound => e.inbound_id,
                    };
                    proof {
                        let c = evs.subrange(0, i + 1);
                        assert(c.drop_last() =~= evs.subrange(0, i as int));
                        assert(c.last() == evs[i as int]);
                        assert(ep == endpoint(evs[i as int], *direction));
                    }
                    ids.push(ep);
                    i = i + 1;
                }
                proof {
                    assert(evs.subrange(0, evs.len() as int) =~= evs);
                }
                let mut dd: Vec<u64> = Vec::new();
                let mut j: usize = 0;
                proof {
                    assert(ids@.subrange(0, 0) =~= Seq::<u64>::empty());
                    assert(dd@ =~= dedup_first(ids@.subrange(0, 0)));
                }
                while j < ids.len()
                    invariant
                        0 <= j <= ids@.len(),
                        dd@ == dedup_first(ids@.subrange(0, j as int)),
                    decreases ids@.len() - j,
                {
                    proof {
                        let c = ids@.subrange(0, j + 1);
                        assert(c.drop_last() =~= ids@.subrange(0, j as int));
                        assert(c.last() == ids@[j as int]);
                    }
                    let known = u64_in(&dd, ids[j]);
                    if !known {
                        let x = ids[j];
                        dd.push(x);
                    }
                    j = j + 1;
                }
                proof {
                    assert(ids@.subrange(0, ids@.len() as int) =~= ids@);
                }
                let mut out: Vec<Vertex> = Vec::new();
                let mut k: usize = 0;
                proof {
                    assert(dd@.subrange(0, 0) =~= Seq::<u64>::empty());
                    assert(vertex_views(out@) =~= pipe_vertex_sel(m, dd@.subrange(0, 0), tf));
                }
                while k < dd.len()
                    invariant
                        0 <= k <= dd@.len(),
                        vertex_views(out@) == pipe_vertex_sel(m, dd@.subrange(0, k as int), tf),
                    decreases dd@.len() - k,
                {
                    let id = dd[k];
                    let ghost pre = vertex_views(out@);
                    proof {
                        let c = dd@.subrange(0, k + 1);
                        assert(c.drop_last() =~= dd@.subrange(0, k as int));
                        assert(c.last() == dd@[k as int]);
                    }
                    match self.find_vertex(id) {
                        Some(vi) => {
                            proof {
                                lemma_vertex_type_at(m, vi as int);
                            }
                            let v = &self.vertices[vi];
                            let tmatch = match t {
                                None => true,
                                Some(x) => bytes_eq(v.t.as_bytes(), x.as_bytes()),
                            };
                            proof {
                                assert(tmatch == type_matches(tf, vertex_type(m, id)));
                            }
                            if tmatch {
                                out.push(Vertex { id, t: v.t.clone() });
                                proof {
                                    assert(vertex_views(out@) =~= pre.push(
                                        VertexView { id: id, t: vertex_type(m, id) },
                                    ));
                                }
                            }
                        }
                        None => {}
                    }
                    k = k + 1;
                }
                proof {
                    assert(dd@.subrange(0, dd@.len() as int) =~= dd@);
                }
                if (out.len() as u64) > *limit {
                    let ghost full = vertex_views(out@);
                    out.truncate(*limit as usize);
                    proof {
                        assert(vertex_views(out@) =~= full.subrange(0, *limit as int));
                    }
                }
                out
            }
        }
    }

    /// Resolves an edge query to its result edges, in result order.
    #[verifier::loop_isolation(false)]
    fn run_eq(&self, q: &EdgeQuery) -> (r: Vec<Edge>)
        requires
            wf(self@),
        ensures
            edge_views(r@) == eval_eq(self@, *q),
        decreases *q,
    {
        let ghost m = self@;
        match q {
            EdgeQuery::Specific { edges } => {
                let ghost evs = edge_views(edges@);
                let mut out: Vec<Edge> = Vec::new();
                let mut i: usize = 0;
                proof {
                    assert(evs.subrange(0, 0) =~= Seq::<EdgeView>::empty());
                    assert(edge_views(out@) =~= specific_edge_sel(m, evs.subrange(0, 0)));
                }
                while i < edges.len()
                    invariant
                        0 <= i <= edges@.len(),
                        edge_views(out@) == specific_edge_sel(m, evs.subrange(0, i as int)),
                    decreases edges@.len() - i,
                {
                    let e = &edges[i];
                    let ghost pre = edge_views(out@);
                    proof {
                        let c = evs.subrange(0, i + 1);
                        assert(c.drop_last() =~= evs.subrange(0, i as int));
                        assert(c.last() == evs[i as int]);
                    }
                    match self.find_edge(e) {
                        Some(_k) => {
                            out.push(e.clone());
                            proof {
                                assert(edge_views(out@) =~= pre.push(evs[i as int]));
                            }
                        }
                        None => {}
                    }
                    i = i + 1;
                }
                proof {
                    assert(evs.subrange(0, evs.len() as int) =~= evs);
                }
                out
            }
            EdgeQuery::Pipe { inner, direction, t, limit, high, low } => {
                let srcs = self.run_vq(inner);
                let ghost svs = eval_vq(m, **inner);
                let ghost tf = opt_view(*t);
                let mut out: Vec<Edge> = Vec::new();
                let mut s: usize = 0;
                proof {
                    assert(svs.subrange(0, 0) =~= Seq::<VertexView>::empty());
                    assert(edge_views(out@) =~= epipe(
                        m,
                        svs.subrange(0, 0),
                        *direction,
                        tf,
                        *high,
                        *low,
                        *limit,
                    ));
                }
                while s < srcs.len()
                    invariant
                        0 <= s <= srcs@.len(),
                        vertex_views(srcs@) == svs,
                        svs.len() == srcs@.len(),
                        edge_views(out@) == epipe(
                            m,
                            svs.subrange(0, s as int),
                            *direction,
                            tf,
                            *high,
                            *low,
                            *limit,
                        ),
                    decreases srcs@.len() - s,
                {
                    let src_id = srcs[s].id;
                    proof {
                        assert(src_id == svs[s as int].id);
                    }
                    let ghost baselen = out@.len() as int;
                    let ghost base = edge_views(out@);
                    let mut taken: u64 = 0;
                    let mut j: usize = self.edges.len();
                    proof {
                        assert(m.edges.subrange(0, m.edges.len() as int) =~= m.edges);
                        assert(edge_views(out@).subrange(baselen, out@.len() as int) =~= Seq::<
                            EdgeView,
                        >::empty());
                        assert(base + Seq::<EdgeView>::empty() =~= base);
                    }
                    while j > 0 && taken < *limit
                        invariant
                            0 <= j <= self.edges@.len(),
                            taken <= *limit,
                            out@.len() == baselen + taken,
                            edge_views(out@).subrange(0, baselen) == base,
                            scan_desc(m.edges, src_id, *direction, tf, *high, *low, *limit)
                                == edge_views(out@).subrange(baselen, out@.len() as int)
                                + scan_desc(
                                m.edges.subrange(0, j as int),
                                src_id,
                                *direction,
                                tf,
                                *high,
                                *low,
                                (*limit - taken) as u64,
                            ),
                        decreases j,
                    {
                        j = j - 1;
                        let rec = &self.edges[j];
                        let side = match direction {
                            EdgeDirection::Outbound => rec.edge.outbound_id,
                            EdgeDirection::Inbound => rec.edge.inbound_id,
                        };
                        let tmatch = match t {
                            None => true,
                            Some(x) => bytes_eq(rec.edge.t.as_bytes(), x.as_bytes()),
                        };
                        let hmatch = match high {
                            None => true,
                            Some(h) => rec.ts <= *h,
                        };
                        let lmatch = match low {
                            None => true,
                            Some(l) => rec.ts > *l,
                        };
                        let ghost pre = edge_views(out@);
                        proof {
                            let c = m.edges.subrange(0, j + 1);
                            assert(c.drop_last() =~= m.edges.subrange(0, j as int));
                            assert(c.last() == m.edges[j as int]);
                            assert((side == src_id && tmatch && hmatch && lmatch)
                                == edge_matches(
                                m.edges[j as int],
                                src_id,
                                *direction,
                                tf,
                                *high,
                                *low,
                            ));
                        }
                        if side == src_id && tmatch && hmatch && lmatch {
                            out.push(rec.edge.clone());
                            taken = taken + 1;
                            proof {
                                assert(edge_views(out@) =~= pre.push(m.edges[j as int].edge));
                                assert(edge_views(out@).subrange(0, baselen) =~= base);
                                assert(edge_views(out@).subrange(baselen, out@.len() as int)
                                    =~= pre.subrange(baselen, pre.len() as int).push(
                                    m.edges[j as int].edge,
                                ));
                                assert(pre.subrange(baselen, pre.len() as int).push(
                                    m.edges[j as int].edge,
                                ) + scan_desc(
                                    m.edges.subrange(0, j as int),
                                    src_id,
                                    *direction,
                                    tf,
                                    *high,
                                    *low,
                                    (*limit - taken) as u64,
                                ) =~= pre.subrange(baselen, pre.len() as int) + (seq![
                                    m.edges[j as int].edge,
                                ] + scan_desc(
                                    m.edges.subrange(0, j as int),
                                    src_id,
                                    *direction,
                                    tf,
                                    *high,
                                    *low,
                                    (*limit - taken) as u64,
                                )));
                            }
                        }
                    }
                    proof {
                        if j == 0 {
                            assert(m.edges.subrange(0, 0) =~= Seq::<EdgeRecView>::empty());
                        }
                        assert(scan_desc(
                            m.edges.subrange(0, j as int),
                            src_id,
                            *direction,
                            tf,
                            *high,
                            *low,
                            (*limit - taken) as u64,
                        ) =~= Seq::<EdgeView>::empty());
                        assert(edge_views(out@).subrange(baselen, out@.len() as int)
                            + Seq::<EdgeView>::empty() =~= edge_views(out@).subrange(
                            baselen,
                            out@.len() as int,
                        ));
                        let c2 = svs.subrange(0, s + 1);
                        assert(c2.drop_last() =~= svs.subrange(0, s as int));
                        assert(c2.last() == svs[s as int]);
                        assert(edge_views(out@) =~= base + edge_views(out@).subrange(
                            baselen,
                            out@.len() as int,
                        ));
                    }
                    s = s + 1;
                }
                proof {
                    assert(svs.subrange(0, svs.len() as int) =~= svs);
                }
                out
            }
        }
    }

    /// Resolves a vertex query. The memory engine always succeeds; the
    /// result lists exactly the selected vertices, in result order.
    pub fn get_vertices(&self, q: &VertexQuery) -> (r: Result<Vec<Vertex>, Error>)
        requires
            wf(self@),
        ensures
            (r matches Ok(vs) && vertex_views(vs@) == eval_vq(self@, *q)),
    {
        Ok(self.run_vq(q))
    }

    /// Resolves an edge query. The memory engine always succeeds; the
    /// result lists exactly the selected edges, in result order.
    pub fn get_edges(&self, q: &EdgeQuery) -> (r: Result<Vec<Edge>, Error>)
        requires
            wf(self@),
        ensures
            (r matches Ok(es) && edge_views(es@) == eval_eq(self@, *q)),
    {
        Ok(self.run_eq(q))
    }
}


/// True when the list holds an edge with the given triple.
fn edge_in(sel: &Vec<Edge>, e: &Edge) -> (r: bool)
    ensures
        r == edge_views(sel@).contains(e@),
{
    let ghost evs = edge_views(sel@);
    let mut i: usize = 0;
    while i < sel.len()
        invariant
            0 <= i <= sel@.len(),
            evs == edge_views(sel@),
            evs.len() == sel@.len(),
            forall|j: int| 0 <= j < i ==> evs[j] != e@,
        decreases sel@.len() - i,
    {
        let c = &sel[i];
        if c.outbound_id == e.outbound_id && c.inbound_id == e.inbound_id && bytes_eq(
            c.t.as_bytes(),
            e.t.as_bytes(),
        ) {
            assert(evs[i as int] == e@);
            assert(evs.contains(e@));
            return true;
        }
        assert(evs[i as int] != e@);
        i = i + 1;
    }
    assert(!evs.contains(e@));
    false
}

impl MemoryDatastore {
    /// Deletes the vertices a query selects, cascading to their incident
    /// edges and to every property of either. Always succeeds.
    #[verifier::loop_isolation(false)]
    pub fn delete_vertices(&mut self, q: &VertexQuery) -> (r: Result<(), Error>)
        requires
            wf(old(self)@),
        ensures
            wf(final(self)@),
            (r matches Ok(u) && final(self)@ == delete_vertices_model(
                old(self)@,
                ids_of(eval_vq(old(self)@, *q)),
            )),
    {
        let ghost m = self@;
        let sel = self.run_vq(q);
        let ghost svs = eval_vq(m, *q);
        let mut ids: Vec<u64> = Vec::new();
        let mut i: usize = 0;
        while i < sel.len()
            invariant
                0 <= i <= sel@.len(),
                vertex_views(sel@) == svs,
                svs.len() == sel@.len(),
                ids@.len() == i,
                forall|j: int| 0 <= j < i ==> ids@[j] == svs[j].id,
            decreases sel@.len() - i,
        {
            ids.push(sel[i].id);
            i = i + 1;
        }
        proof {
            assert(ids@ =~= ids_of(svs));
        }
        let nv = filter_vertices(&self.vertices, &ids);
        self.vertices = nv;
        let ne = filter_edges_clear(&self.edges, &ids);
        self.edges = ne;
        let np = filter_vprops_clear(&self.vertex_props, &ids);
        self.vertex_props = np;
        let nq = filter_eprops_clear(&self.edge_props, &ids);
        self.edge_props = nq;
        proof {
            assert(self@ == delete_vertices_model(m, ids@));
            crate::model::lemma_delete_vertices_wf(m, ids@);
        }
        Ok(())
    }

    /// Deletes the edges a query selects, cascading to their properties.
    /// Always succeeds.
    pub fn delete_edges(&mut self, q: &EdgeQuery) -> (r: Result<(), Error>)
        requires
            wf(old(self)@),
        ensures
            wf(final(self)@),
            (r matches Ok(u) && final(self)@ == delete_edges_model(
                old(self)@,
                eval_eq(old(self)@, *q),
            )),
    {
        let ghost m = self@;
        let sel = self.run_eq(q);
        let ne = filter_edges_not_in(&self.edges, &sel);
        self.edges = ne;
        let nq = filter_eprops_not_in(&self.edge_props, &sel);
        self.edge_props = nq;
        proof {
            assert(self@ == delete_edges_model(m, edge_views(sel@)));
            crate::model::lemma_delete_edges_wf(m, edge_views(sel@));
        }
        Ok(())
    }
}

/// The vertex rows whose id is not listed.
#[verifier::loop_isolation(false)]
fn filter_vertices(vs: &Vec<Vertex>, ids: &Vec<u64>) -> (r: Vec<Vertex>)
    ensures
        vertex_views(r@) == keep_vertices(vertex_views(vs@), ids@),
{
    let ghost s = vertex_views(vs@);
    let mut out: Vec<Vertex> = Vec::new();
    let mut i: usize = 0;
    proof {
        assert(s.subrange(0, 0) =~= Seq::<VertexView>::empty());
        assert(vertex_views(out@) =~= keep_vertices(s.subrange(0, 0), ids@));
    }
    while i < vs.len()
        invariant
            0 <= i <= vs@.len(),
            vertex_views(out@) == keep_vertices(s.subrange(0, i as int), ids@),
        decreases vs@.len() - i,
    {
        let v = &vs[i];
        let ghost pre = vertex_views(out@);
        let dropit = u64_in(ids, v.id);
        proof {
            let c = s.subrange(0, i + 1);
            assert(c.drop_last() =~= s.subrange(0, i as int));
            assert(c.last() == s[i as int]);
            assert(dropit == ids@.contains(s[i as int].id));
        }
        if !dropit {
            out.push(v.clone());
            proof {
                assert(vertex_views(out@) =~= pre.push(s[i as int]));
            }
        }
        i = i + 1;
    }
    proof {
        assert(s.subrange(0, s.len() as int) =~= s);
    }
    out
}

/// The edge rows that touch none of the listed ids.
#[verifier::loop_isolation(false)]
fn filter_edges_clear(es: &Vec<EdgeRec>, ids: &Vec<u64>) -> (r: Vec<EdgeRec>)
    ensures
        edge_rec_views(r@) == keep_edges_clear(edge_rec_views(es@), ids@),
{
    let ghost s = edge_rec_views(es@);
    let mut out: Vec<EdgeRec> = Vec::new();
    let mut i: usize = 0;
    proof {
        assert(s.subrange(0, 0) =~= Seq::<EdgeRecView>::empty());
        assert(edge_rec_views(out@) =~= keep_edges_clear(s.subrange(0, 0), ids@));
    }
    while i < es.len()
        invariant
            0 <= i <= es@.len(),
            edge_rec_views(out@) == keep_edges_clear(s.subrange(0, i as int), ids@),
        decreases es@.len() - i,
    {
        let rec = &es[i];
        let ghost pre = edge_rec_views(out@);
        let touch_out = u64_in(ids, rec.edge.outbound_id);
        let touch_in = u64_in(ids, rec.edge.inbound_id);
        proof {
            let c = s.subrange(0, i + 1);
            assert(c.drop_last() =~= s.subrange(0, i as int));
            assert(c.last() == s[i as int]);
            assert((touch_out || touch_in) == edge_touches(s[i as int].edge, ids@));
        }
        if !(touch_out || touch_in) {
            out.push(EdgeRec { edge: rec.edge.clone(), ts: rec.ts });
            proof {
                assert(edge_rec_views(out@) =~= pre.push(s[i as int]));
            }
        }
        i = i + 1;
    }
    proof {
        assert(s.subrange(0, s.len() as int) =~= s);
    }
    out
}

/// The vertex property rows owned by none of the listed ids.
#[verifier::loop_isolation(false)]
fn filter_vprops_clear(ps: &Vec<VertexProperty>, ids: &Vec<u64>) -> (r: Vec<VertexProperty>)
    ensures
        vprop_views(r@) == keep_vprops_clear(vprop_views(ps@), ids@),
{
    let ghost s = vprop_views(ps@);
    let mut out: Vec<VertexProperty> = Vec::new();
    let mut i: usize = 0;
    proof {
        assert(s.subrange(0, 0) =~= Seq::<VertexPropView>::empty());
        assert(vprop_views(out@) =~= keep_vprops_clear(s.subrange(0, 0), ids@));
    }
    while i < ps.len()
        invariant
            0 <= i <= ps@.len(),
            vprop_views(out@) == keep_vprops_clear(s.subrange(0, i as int), ids@),
        decreases ps@.len() - i,
    {
        let p = &ps[i];
        let ghost pre = vprop_views(out@);
        let dropit = u64_in(ids, p.id);
        proof {
            let c = s.subrange(0, i + 1);
            assert(c.drop_last() =~= s.subrange(0, i as int));
            assert(c.last() == s[i as int]);
            assert(dropit == ids@.contains(s[i as int].id));
        }
        if !dropit {
            out.push(VertexProperty { id: p.id, name: p.name.clone(), value: p.value.clone() });
            proof {
                assert(vprop_views(out@) =~= pre.push(s[i as int]));
            }
        }
        i = i + 1;
    }
    proof {
        assert(s.subrange(0, s.len() as int) =~= s);
    }
    out
}

/// The edge property rows whose edge touches none of the listed ids.
#[verifier::loop_isolation(false)]
fn filter_eprops_clear(ps: &Vec<EdgeProperty>, ids: &Vec<u64>) -> (r: Vec<EdgeProperty>)
    ensures
        eprop_views(r@) == keep_eprops_clear(eprop_views(ps@), ids@),
{
    let ghost s = eprop_views(ps@);
    let mut out: Vec<EdgeProperty> = Vec::new();
    let mut i: usize = 0;
    proof {
        assert(s.subrange(0, 0) =~= Seq::<EdgePropView>::empty());
        assert(eprop_views(out@) =~= keep_eprops_clear(s.subrange(0, 0), ids@));
    }
    while i < ps.len()
        invariant
            0 <= i <= ps@.len(),
            eprop_views(out@) == keep_eprops_clear(s.subrange(0, i as int), ids@),
        decreases ps@.len() - i,
    {
        let p = &ps[i];
        let ghost pre = eprop_views(out@);
        let touch_out = u64_in(ids, p.edge.outbound_id);
        let touch_in = u64_in(ids, p.edge.inbound_id);
        proof {
            let c = s.subrange(0, i + 1);
            assert(c.drop_last() =~= s.subrange(0, i as int));
            assert(c.last() == s[i as int]);
            assert((touch_out || touch_in) == edge_touches(s[i as int].edge, ids@));
        }
        if !(touch_out || touch_in) {
            out.push(EdgeProperty { edge: p.edge.clone(), name: p.name.clone(), value: p.value.clone() });
            proof {
                assert(eprop_views(out@) =~= pre.push(s[i as int]));
            }
        }
        i = i + 1;
    }
    proof {
        assert(s.subrange(0, s.len() as int) =~= s);
    }
    out
}

/// The edge rows whose triple is not among the deleted ones.
#[verifier::loop_isolation(false)]
fn filter_edges_not_in(es: &Vec<EdgeRec>, sel: &Vec<Edge>) -> (r: Vec<EdgeRec>)
    ensures
        edge_rec_views(r@) == keep_edges_not_in(edge_rec_views(es@), edge_views(sel@)),
{
    let ghost s = edge_rec_views(es@);
    let ghost sv = edge_views(sel@);
    let mut out: Vec<EdgeRec> = Vec::new();
    let mut i: usize = 0;
    proof {
        assert(s.subrange(0, 0) =~= Seq::<EdgeRecView>::empty());
        assert(edge_rec_views(out@) =~= keep_edges_not_in(s.subrange(0, 0), sv));
    }
    while i < es.len()
        invariant
            0 <= i <= es@.len(),
            edge_rec_views(out@) == keep_edges_not_in(s.subrange(0, i as int), sv),
        decreases es@.len() - i,
    {
        let rec = &es[i];
        let ghost pre = edge_rec_views(out@);
        let dropit = edge_in(sel, &rec.edge);
        proof {
            let c = s.subrange(0, i + 1);
            assert(c.drop_last() =~= s.subrange(0, i as int));
            assert(c.last() == s[i as int]);
            assert(dropit == sv.contains(s[i as int].edge));
        }
        if !dropit {
            out.push(EdgeRec { edge: rec.edge.clone(), ts: rec.ts });
            proof {
                assert(edge_rec_views(out@) =~= pre.push(s[i as int]));
            }
        }
        i = i + 1;
    }
    proof {
        assert(s.subrange(0, s.len() as int) =~= s);
    }
    out
}

/// The edge property rows whose edge is not among the deleted triples.
#[verifier::loop_isolation(false)]
fn filter_eprops_not_in(ps: &Vec<EdgeProperty>, sel: &Vec<Edge>) -> (r: Vec<EdgeProperty>)
    ensures
        eprop_views(r@) == keep_eprops_not_in(eprop_views(ps@), edge_views(sel@)),
{
    let ghost s = eprop_views(ps@);
    let ghost sv = edge_views(sel@);
    let mut out: Vec<EdgeProperty> = Vec::new();
    let mut i: usize = 0;
    proof {
        assert(s.subrange(0, 0) =~= Seq::<EdgePropView>::empty());
        assert(eprop_views(out@) =~= keep_eprops_not_in(s.subrange(0, 0), sv));
    }
    while i < ps.len()
        invariant
            0 <= i <= ps@.len(),
            eprop_views(out@) == keep_eprops_not_in(s.subrange(0, i as int), sv),
        decreases ps@.len() - i,
    {
        let p = &ps[i];
        let ghost pre = eprop_views(out@);
        let dropit = edge_in(sel, &p.edge);
        proof {
            let c = s.subrange(0, i + 1);
            assert(c.drop_last() =~= s.subrange(0, i as int));
            assert(c.last() == s[i as int]);
            assert(dropit == sv.contains(s[i as int].edge));
        }
        if !dropit {
            out.push(EdgeProperty { edge: p.edge.clone(), name: p.name.clone(), value: p.value.clone() });
            proof {
                assert(eprop_views(out@) =~= pre.push(s[i as int]));
            }
        }
        i = i + 1;
    }
    proof {
        assert(s.subrange(0, s.len() as int) =~= s);
    }
    out
}


/// The shapes of a list of named properties.
pub open spec fn named_views(s: Seq<crate::models::NamedProperty>) -> Seq<
    crate::models::NamedPropView,
> {
    Seq::new(s.len(), |i: int| s[i]@)
}

impl MemoryDatastore {
    /// The index of the vertex property row for the id and name, if any.
    fn find_vprop(&self, id: u64, name: &Identifier) -> (r: Option<usize>)
        ensures
            match r {
                Some(k) => k < self@.vertex_props.len() && self@.vertex_props[k as int].id == id
                    && self@.vertex_props[k as int].name == name@,
                None => !has_vprop(self@, id, name@),
            },
    {
        let mut i: usize = 0;
        while i < self.vertex_props.len()
            invariant
                0 <= i <= self.vertex_props@.len(),
                self@.vertex_props.len() == self.vertex_props@.len(),
                forall|j: int|
                    0 <= j < i ==> !(self@.vertex_props[j].id == id && self@.vertex_props[j].name
                        == name@),
            decreases self.vertex_props@.len() - i,
        {
            let p = &self.vertex_props[i];
            if p.id == id && bytes_eq(p.name.as_bytes(), name.as_bytes()) {
                return Some(i);
            }
            i = i + 1;
        }
        None
    }

    /// Upserts one vertex property row: replaces the value in place when
    /// the key is present, else appends the row.
    fn upsert_vprop(&mut self, id: u64, name: &Identifier, value: &Json)
        requires
            wf(old(self)@),
            has_vertex(old(self)@, id),
        ensures
            wf(final(self)@),
            final(self)@ == (GraphModel {
                vertex_props: set_vprop(old(self)@.vertex_props, id, name@, value@),
                ..old(self)@
            }),
    {
        let ghost m = self@;
        let ghost row = VertexPropView { id: id, name: name@, value: value@ };
        match self.find_vprop(id, name) {
            Some(k) => {
                self.vertex_props.set(
                    k,
                    VertexProperty { id, name: name.clone(), value: value.clone() },
                );
                proof {
                    assert(has_vprop(m, id, name@));
                    let j = choose|j: int|
                        0 <= j < m.vertex_props.len() && m.vertex_props[j].id == id
                            && m.vertex_props[j].name == name@;
                    assert(j == k);
                    assert(vprop_views(self.vertex_props@) =~= m.vertex_props.update(
                        k as int,
                        row,
                    ));
                    let ps2 = set_vprop(m.vertex_props, id, name@, value@);
                    assert(self@.vertex_props == ps2);
                    assert forall|i1: int, i2: int|
                        0 <= i1 < ps2.len() && 0 <= i2 < ps2.len() && i1 != i2 implies !(
                        ps2[i1].id == ps2[i2].id && ps2[i1].name == ps2[i2].name) by {
                        assert(ps2[i1].id == m.vertex_props[i1].id && ps2[i1].name
                            == m.vertex_props[i1].name);
                        assert(ps2[i2].id == m.vertex_props[i2].id && ps2[i2].name
                            == m.vertex_props[i2].name);
                    }
                    assert forall|i: int| 0 <= i < ps2.len() implies has_vertex(
                        m,
                        #[trigger] ps2[i].id,
                    ) by {
                        assert(ps2[i].id == m.vertex_props[i].id);
                    }
                    crate::model::lemma_vprops_replaced_wf(m, ps2);
                }
            }
            None => {
                self.vertex_props.push(
                    VertexProperty { id, name: name.clone(), value: value.clone() },
                );
                proof {
                    assert(vprop_views(self.vertex_props@) =~= m.vertex_props.push(row));
                    let ps2 = set_vprop(m.vertex_props, id, name@, value@);
                    assert(self@.vertex_props == ps2);
                    assert forall|i1: int, i2: int|
                        0 <= i1 < ps2.len() && 0 <= i2 < ps2.len() && i1 != i2 implies !(
                        ps2[i1].id == ps2[i2].id && ps2[i1].name == ps2[i2].name) by {
                        if i1 == ps2.len() - 1 {
                            if ps2[i2].id == id && ps2[i2].name == name@ {
                                assert(has_vprop(m, id, name@));
                            }
                        } else if i2 == ps2.len() - 1 {
                            if ps2[i1].id == id && ps2[i1].name == name@ {
                                assert(has_vprop(m, id, name@));
                            }
                        }
                    }
                    assert forall|i: int| 0 <= i < ps2.len() implies has_vertex(
                        m,
                        #[trigger] ps2[i].id,
                    ) by {
                        if i < ps2.len() - 1 {
                            assert(has_vertex(m, m.vertex_props[i].id));
                        }
                    }
                    crate::model::lemma_vprops_replaced_wf(m, ps2);
                }
            }
        }
    }

    /// Upserts `value` under the query's property name on every vertex the
    /// query selects (broadcast). Always succeeds; a selected vertex that
    /// no longer exists is never produced by the evaluator.
    #[verifier::loop_isolation(false)]
    pub fn set_vertex_properties(&mut self, q: &VertexPropertyQuery, value: &Json) -> (r: Result<
        (),
        Error,
    >)
        requires
            wf(old(self)@),
        ensures
            wf(final(self)@),
            (r matches Ok(u) && final(self)@ == (GraphModel {
                vertex_props: set_vprops(
                    old(self)@.vertex_props,
                    ids_of(eval_vq(old(self)@, q.inner)),
                    q.name@,
                    value@,
                ),
                ..old(self)@
            })),
    {
        let ghost m = self@;
        let sel = self.run_vq(&q.inner);
        let ghost svs = eval_vq(m, q.inner);
        let ghost allids = ids_of(svs);
        proof {
            crate::model::lemma_eval_vq_live(m, q.inner);
            assert(allids.subrange(0, 0) =~= Seq::<u64>::empty());
        }
        let mut i: usize = 0;
        while i < sel.len()
            invariant
                0 <= i <= sel@.len(),
                vertex_views(sel@) == svs,
                svs.len() == sel@.len(),
                wf(self@),
                self@ == (GraphModel {
                    vertex_props: set_vprops(
                        m.vertex_props,
                        allids.subrange(0, i as int),
                        q.name@,
                        value@,
                    ),
                    ..m
                }),
            decreases sel@.len() - i,
        {
            let id = sel[i].id;
            proof {
                assert(id == svs[i as int].id);
                assert(has_vertex(m, svs[i as int].id));
                let w = choose|w: int| 0 <= w < m.vertices.len() && m.vertices[w].id == id;
                assert(self@.vertices[w].id == id);
                assert(has_vertex(self@, id));
            }
            self.upsert_vprop(id, &q.name, value);
            proof {
                let c = allids.subrange(0, i + 1);
                assert(c.drop_last() =~= allids.subrange(0, i as int));
                assert(c.last() == allids[i as int]);
                assert(allids[i as int] == svs[i as int].id);
            }
            i = i + 1;
        }
        proof {
            assert(allids.subrange(0, allids.len() as int) =~= allids);
        }
        Ok(())
    }

    /// Deletes the rows under the query's property name for every selected
    /// vertex; silent where the property is absent. Always succeeds.
    #[verifier::loop_isolation(false)]
    pub fn delete_vertex_properties(&mut self, q: &VertexPropertyQuery) -> (r: Result<(), Error>)
        requires
            wf(old(self)@),
        ensures
            wf(final(self)@),
            (r matches Ok(u) && final(self)@ == (GraphModel {
                vertex_props: del_vprops(
                    old(self)@.vertex_props,
                    ids_of(eval_vq(old(self)@, q.inner)),
                    q.name@,
                ),
                ..old(self)@
            })),
    {
        let ghost m = self@;
        let sel = self.run_vq(&q.inner);
        let ghost svs = eval_vq(m, q.inner);
        let mut ids: Vec<u64> = Vec::new();
        let mut i: usize = 0;
        while i < sel.len()
            invariant
                0 <= i <= sel@.len(),
                vertex_views(sel@) == svs,
                svs.len() == sel@.len(),
                ids@.len() == i,
                forall|j: int| 0 <= j < i ==> ids@[j] == svs[j].id,
            decreases sel@.len() - i,
        {
            ids.push(sel[i].id);
            i = i + 1;
        }
        proof {
            assert(ids@ =~= ids_of(svs));
        }
        let np = filter_vprops_del(&self.vertex_props, &ids, &q.name);
        self.vertex_props = np;
        proof {
            let ps2 = del_vprops(m.vertex_props, ids@, q.name@);
            assert(self@.vertex_props == ps2);
            crate::model::lemma_filter_keep(
                m.vertex_props,
                |p: VertexPropView| ids@.contains(p.id) && p.name == q.name@,
            );
            assert forall|i1: int, i2: int|
                0 <= i1 < ps2.len() && 0 <= i2 < ps2.len() && i1 != i2 implies !(ps2[i1].id
                    == ps2[i2].id && ps2[i1].name == ps2[i2].name) by {
                if i1 < i2 {
                    let (w1, w2) = choose|w1: int, w2: int|
                        0 <= w1 < w2 < m.vertex_props.len() && m.vertex_props[w1] == ps2[i1]
                            && m.vertex_props[w2] == ps2[i2];
                } else {
                    let (w1, w2) = choose|w1: int, w2: int|
                        0 <= w1 < w2 < m.vertex_props.len() && m.vertex_props[w1] == ps2[i2]
                            && m.vertex_props[w2] == ps2[i1];
                }
            }
            assert forall|i: int| 0 <= i < ps2.len() implies has_vertex(
                m,
                #[trigger] ps2[i].id,
            ) by {
                let w = choose|w: int|
                    0 <= w < m.vertex_props.len() && m.vertex_props[w] == ps2[i];
                assert(has_vertex(m, m.vertex_props[w].id));
            }
            crate::model::lemma_vprops_replaced_wf(m, ps2);
        }
        Ok(())
    }

    /// The property rows under the query's name for the selected vertices,
    /// in selection order, omitting vertices where the property is absent.
    /// Always succeeds.
    #[verifier::loop_isolation(false)]
    pub fn get_vertex_properties(&self, q: &VertexPropertyQuery) -> (r: Result<
        Vec<VertexProperty>,
        Error,
    >)
        requires
            wf(self@),
        ensures
            (r matches Ok(ps) && vprop_views(ps@) == vprop_rows(
                self@,
                eval_vq(self@, q.inner),
                q.name@,
            )),
    {
        let ghost m = self@;
        let sel = self.run_vq(&q.inner);
        let ghost svs = eval_vq(m, q.inner);
        let mut out: Vec<VertexProperty> = Vec::new();
        let mut i: usize = 0;
        proof {
            assert(svs.subrange(0, 0) =~= Seq::<VertexView>::empty());
            assert(vprop_views(out@) =~= vprop_rows(m, svs.subrange(0, 0), q.name@));
        }
        while i < sel.len()
            invariant
                0 <= i <= sel@.len(),
                vertex_views(sel@) == svs,
                svs.len() == sel@.len(),
                vprop_views(out@) == vprop_rows(m, svs.subrange(0, i as int), q.name@),
            decreases sel@.len() - i,
        {
            let id = sel[i].id;
            let ghost pre = vprop_views(out@);
            proof {
                assert(id == svs[i as int].id);
                let c = svs.subrange(0, i + 1);
                assert(c.drop_last() =~= svs.subrange(0, i as int));
                assert(c.last() == svs[i as int]);
            }
            match self.find_vprop(id, &q.name) {
                Some(k) => {
                    proof {
                        assert(has_vprop(m, id, q.name@));
                        let j = choose|j: int|
                            0 <= j < m.vertex_props.len() && m.vertex_props[j].id == id
                                && m.vertex_props[j].name == q.name@;
                        assert(j == k);
                        assert(vprop_value(m, id, q.name@) == m.vertex_props[k as int].value);
                    }
                    let p = &self.vertex_props[k];
                    out.push(VertexProperty { id, name: q.name.clone(), value: p.value.clone() });
                    proof {
                        assert(vprop_views(out@) =~= pre.push(
                            VertexPropView {
                                id: id,
                                name: q.name@,
                                value: vprop_value(m, id, q.name@),
                            },
                        ));
                    }
                }
                None => {}
            }
            i = i + 1;
        }
        proof {
            assert(svs.subrange(0, svs.len() as int) =~= svs);
        }
        Ok(out)
    }

    /// All properties of one live vertex, in table order.
    fn collect_vertex_props(&self, id: u64) -> (r: Vec<crate::models::NamedProperty>)
        ensures
            named_views(r@) == props_of_vertex(self@.vertex_props, id),
    {
        let ghost m = self@;
        let mut props: Vec<crate::models::NamedProperty> = Vec::new();
        let mut j: usize = 0;
        proof {
            assert(m.vertex_props.subrange(0, 0) =~= Seq::<VertexPropView>::empty());
            assert(named_views(props@) =~= props_of_vertex(m.vertex_props.subrange(0, 0), id));
        }
        while j < self.vertex_props.len()
            invariant
                0 <= j <= self.vertex_props@.len(),
                m == self@,
                m.vertex_props.len() == self.vertex_props@.len(),
                named_views(props@) == props_of_vertex(m.vertex_props.subrange(0, j as int), id),
            decreases self.vertex_props@.len() - j,
        {
            let p = &self.vertex_props[j];
            let ghost pre = named_views(props@);
            proof {
                let c = m.vertex_props.subrange(0, j + 1);
                assert(c.drop_last() =~= m.vertex_props.subrange(0, j as int));
                assert(c.last() == m.vertex_props[j as int]);
            }
            if p.id == id {
                props.push(
                    crate::models::NamedProperty { name: p.name.clone(), value: p.value.clone() },
                );
                proof {
                    assert(named_views(props@) =~= pre.push(
                        crate::models::NamedPropView {
                            name: m.vertex_props[j as int].name,
                            value: m.vertex_props[j as int].value,
                        },
                    ));
                }
            }
            j = j + 1;
        }
        proof {
            assert(m.vertex_props.subrange(0, m.vertex_props.len() as int) =~= m.vertex_props);
        }
        props
    }

    /// One row per selected vertex holding all its properties in table
    /// order, present even when the vertex has none. Always succeeds.
    #[verifier::loop_isolation(false)]
    pub fn get_all_vertex_properties(&self, q: &VertexQuery) -> (r: Result<
        Vec<crate::models::VertexProperties>,
        Error,
    >)
        requires
            wf(self@),
        ensures
            (r matches Ok(rows) && rows@.len() == eval_vq(self@, *q).len() && (forall|i: int|
                0 <= i < rows@.len() ==> (#[trigger] rows@[i].vertex)@ == eval_vq(self@, *q)[i]
                    && named_views(rows@[i].props@) == props_of_vertex(
                    self@.vertex_props,
                    eval_vq(self@, *q)[i].id,
                ))),
    {
        let ghost m = self@;
        let sel = self.run_vq(q);
        let ghost svs = eval_vq(m, *q);
        let mut rows: Vec<crate::models::VertexProperties> = Vec::new();
        let mut i: usize = 0;
        while i < sel.len()
            invariant
                0 <= i <= sel@.len(),
                vertex_views(sel@) == svs,
                svs.len() == sel@.len(),
                rows@.len() == i,
                forall|k: int|
                    0 <= k < i ==> (#[trigger] rows@[k].vertex)@ == svs[k] && named_views(
                        rows@[k].props@,
                    ) == props_of_vertex(m.vertex_props, svs[k].id),
            decreases sel@.len() - i,
        {
            let vertex = sel[i].clone();
            proof {
                assert(vertex@ == svs[i as int]);
            }
            let props = self.collect_vertex_props(vertex.id);
            let ghost pre_rows = rows@;
            let ghost gvert = vertex@;
            let ghost gprops = props@;
            rows.push(crate::models::VertexProperties { vertex, props });
            proof {
                assert(rows@[i as int].vertex@ == gvert);
                assert(rows@[i as int].props@ == gprops);
                assert(named_views(gprops) == props_of_vertex(
                    m.vertex_props,
                    svs[i as int].id,
                ));
                assert forall|k: int|
                    0 <= k < i + 1 implies (#[trigger] rows@[k].vertex)@ == svs[k] && named_views(
                    rows@[k].props@,
                ) == props_of_vertex(m.vertex_props, svs[k].id) by {
                    if k < i {
                        assert(rows@[k] == pre_rows[k]);
                        assert((pre_rows[k].vertex)@ == svs[k] && named_views(pre_rows[k].props@)
                            == props_of_vertex(m.vertex_props, svs[k].id));
                    } else {
                        assert(rows@[k].vertex@ == gvert);
                        assert(rows@[k].props@ == gprops);
                    }
                }
            }
            i = i + 1;
        }
        Ok(rows)
    }

    /// All properties of one committed edge, in table order.
    fn collect_edge_props(&self, edge: &Edge) -> (r: Vec<crate::models::NamedProperty>)
        ensures
            named_views(r@) == props_of_edge(self@.edge_props, edge@),
    {
        let ghost m = self@;
        let mut props: Vec<crate::models::NamedProperty> = Vec::new();
        let mut j: usize = 0;
        proof {
            assert(m.edge_props.subrange(0, 0) =~= Seq::<EdgePropView>::empty());
            assert(named_views(props@) =~= props_of_edge(m.edge_props.subrange(0, 0), edge@));
        }
        while j < self.edge_props.len()
            invariant
                0 <= j <= self.edge_props@.len(),
                m == self@,
                m.edge_props.len() == self.edge_props@.len(),
                named_views(props@) == props_of_edge(m.edge_props.subrange(0, j as int), edge@),
            decreases self.edge_props@.len() - j,
        {
            let p = &self.edge_props[j];
            let ghost pre = named_views(props@);
            proof {
                let c = m.edge_props.subrange(0, j + 1);
                assert(c.drop_last() =~= m.edge_props.subrange(0, j as int));
                assert(c.last() == m.edge_props[j as int]);
            }
            let same = p.edge.outbound_id == edge.outbound_id && p.edge.inbound_id
                == edge.inbound_id && bytes_eq(p.edge.t.as_bytes(), edge.t.as_bytes());
            proof {
                assert(same == (m.edge_props[j as int].edge == edge@));
            }
            if same {
                props.push(
                    crate::models::NamedProperty { name: p.name.clone(), value: p.value.clone() },
                );
                proof {
                    assert(named_views(props@) =~= pre.push(
                        crate::models::NamedPropView {
                            name: m.edge_props[j as int].name,
                            value: m.edge_props[j as int].value,
                        },
                    ));
                }
            }
            j = j + 1;
        }
        proof {
            assert(m.edge_props.subrange(0, m.edge_props.len() as int) =~= m.edge_props);
        }
        props
    }

    /// One row per selected edge holding all its properties in table
    /// order, present even when the edge has none. Always succeeds.
    #[verifier::loop_isolation(false)]
    pub fn get_all_edge_properties(&self, q: &EdgeQuery) -> (r: Result<
        Vec<crate::models::EdgeProperties>,
        Error,
    >)
        requires
            wf(self@),
        ensures
            (r matches Ok(rows) && rows@.len() == eval_eq(self@, *q).len() && (forall|i: int|
                0 <= i < rows@.len() ==> (#[trigger] rows@[i].edge)@ == eval_eq(self@, *q)[i]
                    && named_views(rows@[i].props@) == props_of_edge(
                    self@.edge_props,
                    eval_eq(self@, *q)[i],
                ))),
    {
        let ghost m = self@;
        let sel = self.run_eq(q);
        let ghost evs = eval_eq(m, *q);
        let mut rows: Vec<crate::models::EdgeProperties> = Vec::new();
        let mut i: usize = 0;
        while i < sel.len()
            invariant
                0 <= i <= sel@.len(),
                edge_views(sel@) == evs,
                evs.len() == sel@.len(),
                rows@.len() == i,
                forall|k: int|
                    0 <= k < i ==> (#[trigger] rows@[k].edge)@ == evs[k] && named_views(
                        rows@[k].props@,
                    ) == props_of_edge(m.edge_props, evs[k]),
            decreases sel@.len() - i,
        {
            let edge = sel[i].clone();
            proof {
                assert(edge@ == evs[i as int]);
            }
            let props = self.collect_edge_props(&edge);
            let ghost pre_rows = rows@;
            let ghost gedge = edge@;
            let ghost gprops = props@;
            rows.push(crate::models::EdgeProperties { edge, props });
            proof {
                assert(rows@[i as int].edge@ == gedge);
                assert(rows@[i as int].props@ == gprops);
                assert(named_views(gprops) == props_of_edge(m.edge_props, evs[i as int]));
                assert forall|k: int|
                    0 <= k < i + 1 implies (#[trigger] rows@[k].edge)@ == evs[k] && named_views(
                    rows@[k].props@,
                ) == props_of_edge(m.edge_props, evs[k]) by {
                    if k < i {
                        assert(rows@[k] == pre_rows[k]);
                        assert((pre_rows[k].edge)@ == evs[k] && named_views(pre_rows[k].props@)
                            == props_of_edge(m.edge_props, evs[k]));
                    } else {
                        assert(rows@[k].edge@ == gedge);
                        assert(rows@[k].props@ == gprops);
                    }
                }
            }
            i = i + 1;
        }
        Ok(rows)
    }
}

/// The vertex property rows that survive deleting `name` for the listed
/// ids.
#[verifier::loop_isolation(false)]
fn filter_vprops_del(ps: &Vec<VertexProperty>, ids: &Vec<u64>, name: &Identifier) -> (r: Vec<
    VertexProperty,
>)
    ensures
        vprop_views(r@) == del_vprops(vprop_views(ps@), ids@, name@),
{
    let ghost s = vprop_views(ps@);
    let mut out: Vec<VertexProperty> = Vec::new();
    let mut i: usize = 0;
    proof {
        assert(s.subrange(0, 0) =~= Seq::<VertexPropView>::empty());
        assert(vprop_views(out@) =~= del_vprops(s.subrange(0, 0), ids@, name@));
    }
    while i < ps.len()
        invariant
            0 <= i <= ps@.len(),
            vprop_views(out@) == del_vprops(s.subrange(0, i as int), ids@, name@),
        decreases ps@.len() - i,
    {
        let p = &ps[i];
        let ghost pre = vprop_views(out@);
        let listed = u64_in(ids, p.id);
        let named = bytes_eq(p.name.as_bytes(), name.as_bytes());
        proof {
            let c = s.subrange(0, i + 1);
            assert(c.drop_last() =~= s.subrange(0, i as int));
            assert(c.last() == s[i as int]);
            assert((listed && named) == (ids@.contains(s[i as int].id) && s[i as int].name
                == name@));
        }
        if !(listed && named) {
            out.push(VertexProperty { id: p.id, name: p.name.clone(), value: p.value.clone() });
            proof {
                assert(vprop_views(out@) =~= pre.push(s[i as int]));
            }
        }
        i = i + 1;
    }
    proof {
        assert(s.subrange(0, s.len() as int) =~= s);
    }
    out
}

impl MemoryDatastore {
    /// The index of the edge property row for the triple and name, if any.
    fn find_eprop(&self, e: &Edge, name: &Identifier) -> (r: Option<usize>)
        ensures
            match r {
                Some(k) => k < self@.edge_props.len() && self@.edge_props[k as int].edge == e@
                    && self@.edge_props[k as int].name == name@,
                None => !has_eprop(self@, e@, name@),
            },
    {
        let mut i: usize = 0;
        while i < self.edge_props.len()
            invariant
                0 <= i <= self.edge_props@.len(),
                self@.edge_props.len() == self.edge_props@.len(),
                forall|j: int|
                    0 <= j < i ==> !(self@.edge_props[j].edge == e@ && self@.edge_props[j].name
                        == name@),
            decreases self.edge_props@.len() - i,
        {
            let p = &self.edge_props[i];
            if p.edge.outbound_id == e.outbound_id && p.edge.inbound_id == e.inbound_id
                && bytes_eq(p.edge.t.as_bytes(), e.t.as_bytes()) && bytes_eq(
                p.name.as_bytes(),
                name.as_bytes(),
            ) {
                assert(self@.edge_props[i as int].edge == e@);
                return Some(i);
            }
            assert(!(self@.edge_props[i as int].edge == e@ && self@.edge_props[i as int].name
                == name@));
            i = i + 1;
        }
        None
    }

    /// Upserts one edge property row: replaces the value in place when the
    /// key is present, else appends the row.
    fn upsert_eprop(&mut self, e: &Edge, name: &Identifier, value: &Json)
        requires
            wf(old(self)@),
            has_edge(old(self)@, e@),
        ensures
            wf(final(self)@),
            final(self)@ == (GraphModel {
                edge_props: set_eprop(old(self)@.edge_props, e@, name@, value@),
                ..old(self)@
            }),
    {
        let ghost m = self@;
        let ghost row = EdgePropView { edge: e@, name: name@, value: value@ };
        match self.find_eprop(e, name) {
            Some(k) => {
                self.edge_props.set(
                    k,
                    EdgeProperty { edge: e.clone(), name: name.clone(), value: value.clone() },
                );
                proof {
                    assert(has_eprop(m, e@, name@));
                    let j = choose|j: int|
                        0 <= j < m.edge_props.len() && m.edge_props[j].edge == e@
                            && m.edge_props[j].name == name@;
                    assert(j == k);
                    assert(eprop_views(self.edge_props@) =~= m.edge_props.update(k as int, row));
                    let ps2 = set_eprop(m.edge_props, e@, name@, value@);
                    assert(self@.edge_props == ps2);
                    assert forall|i1: int, i2: int|
                        0 <= i1 < ps2.len() && 0 <= i2 < ps2.len() && i1 != i2 implies !(
                        ps2[i1].edge == ps2[i2].edge && ps2[i1].name == ps2[i2].name) by {
                        assert(ps2[i1].edge == m.edge_props[i1].edge && ps2[i1].name
                            == m.edge_props[i1].name);
                        assert(ps2[i2].edge == m.edge_props[i2].edge && ps2[i2].name
                            == m.edge_props[i2].name);
                    }
                    assert forall|i: int| 0 <= i < ps2.len() implies has_edge(
                        m,
                        #[trigger] ps2[i].edge,
                    ) by {
                        assert(ps2[i].edge == m.edge_props[i].edge);
                    }
                    crate::model::lemma_eprops_replaced_wf(m, ps2);
                }
            }
            None => {
                self.edge_props.push(
                    EdgeProperty { edge: e.clone(), name: name.clone(), value: value.clone() },
                );
                proof {
                    assert(eprop_views(self.edge_props@) =~= m.edge_props.push(row));
                    let ps2 = set_eprop(m.edge_props, e@, name@, value@);
                    assert(self@.edge_props == ps2);
                    assert forall|i1: int, i2: int|
                        0 <= i1 < ps2.len() && 0 <= i2 < ps2.len() && i1 != i2 implies !(
                        ps2[i1].edge == ps2[i2].edge && ps2[i1].name == ps2[i2].name) by {
                        if i1 == ps2.len() - 1 {
                            if ps2[i2].edge == e@ && ps2[i2].name == name@ {
                                assert(has_eprop(m, e@, name@));
                            }
                        } else if i2 == ps2.len() - 1 {
                            if ps2[i1].edge == e@ && ps2[i1].name == name@ {
                                assert(has_eprop(m, e@, name@));
                            }
                        }
                    }
                    assert forall|i: int| 0 <= i < ps2.len() implies has_edge(
                        m,
                        #[trigger] ps2[i].edge,
                    ) by {
                        if i < ps2.len() - 1 {
                            assert(has_edge(m, m.edge_props[i].edge));
                        }
                    }
                    crate::model::lemma_eprops_replaced_wf(m, ps2);
                }
            }
        }
    }

    /// Upserts `value` under the query's property name on every edge the
    /// query selects (broadcast). Always succeeds.
    #[verifier::loop_isolation(false)]
    pub fn set_edge_properties(&mut self, q: &EdgePropertyQuery, value: &Json) -> (r: Result<
        (),
        Error,
    >)
        requires
            wf(old(self)@),
        ensures
            wf(final(self)@),
            (r matches Ok(u) && final(self)@ == (GraphModel {
                edge_props: set_eprops(
                    old(self)@.edge_props,
                    eval_eq(old(self)@, q.inner),
                    q.name@,
                    value@,
                ),
                ..old(self)@
            })),
    {
        let ghost m = self@;
        let sel = self.run_eq(&q.inner);
        let ghost evs = eval_eq(m, q.inner);
        proof {
            crate::model::lemma_eval_eq_live(m, q.inner);
            assert(evs.subrange(0, 0) =~= Seq::<EdgeView>::empty());
        }
        let mut i: usize = 0;
        while i < sel.len()
            invariant
                0 <= i <= sel@.len(),
                edge_views(sel@) == evs,
                evs.len() == sel@.len(),
                wf(self@),
                self@ == (GraphModel {
                    edge_props: set_eprops(
                        m.edge_props,
                        evs.subrange(0, i as int),
                        q.name@,
                        value@,
                    ),
                    ..m
                }),
            decreases sel@.len() - i,
        {
            let e = &sel[i];
            proof {
                assert(e@ == evs[i as int]);
                assert(has_edge(m, evs[i as int]));
                let w = choose|w: int| 0 <= w < m.edges.len() && m.edges[w].edge == e@;
                assert(self@.edges[w].edge == e@);
                assert(has_edge(self@, e@));
            }
            self.upsert_eprop(e, &q.name, value);
            proof {
                let c = evs.subrange(0, i + 1);
                assert(c.drop_last() =~= evs.subrange(0, i as int));
                assert(c.last() == evs[i as int]);
            }
            i = i + 1;
        }
        proof {
            assert(evs.subrange(0, evs.len() as int) =~= evs);
        }
        Ok(())
    }

    /// Deletes the rows under the query's property name for every selected
    /// edge; silent where the property is absent. Always succeeds.
    #[verifier::loop_isolation(false)]
    pub fn delete_edge_properties(&mut self, q: &EdgePropertyQuery) -> (r: Result<(), Error>)
        requires
            wf(old(self)@),
        ensures
            wf(final(self)@),
            (r matches Ok(u) && final(self)@ == (GraphModel {
                edge_props: del_eprops(
                    old(self)@.edge_props,
                    eval_eq(old(self)@, q.inner),
                    q.name@,
                ),
                ..old(self)@
            })),
    {
        let ghost m = self@;
        let sel = self.run_eq(&q.inner);
        let ghost evs = eval_eq(m, q.inner);
        let np = filter_eprops_del(&self.edge_props, &sel, &q.name);
        self.edge_props = np;
        proof {
            let ps2 = del_eprops(m.edge_props, evs, q.name@);
            assert(self@.edge_props == ps2);
            crate::model::lemma_filter_keep(
                m.edge_props,
                |p: EdgePropView| evs.contains(p.edge) && p.name == q.name@,
            );
            assert forall|i1: int, i2: int|
                0 <= i1 < ps2.len() && 0 <= i2 < ps2.len() && i1 != i2 implies !(ps2[i1].edge
                    == ps2[i2].edge && ps2[i1].name == ps2[i2].name) by {
                if i1 < i2 {
                    let (w1, w2) = choose|w1: int, w2: int|
                        0 <= w1 < w2 < m.edge_props.len() && m.edge_props[w1] == ps2[i1]
                            && m.edge_props[w2] == ps2[i2];
                } else {
                    let (w1, w2) = choose|w1: int, w2: int|
                        0 <= w1 < w2 < m.edge_props.len() && m.edge_props[w1] == ps2[i2]
                            && m.edge_props[w2] == ps2[i1];
                }
            }
            assert forall|i: int| 0 <= i < ps2.len() implies has_edge(
                m,
                #[trigger] ps2[i].edge,
            ) by {
                let w = choose|w: int| 0 <= w < m.edge_props.len() && m.edge_props[w] == ps2[i];
                assert(has_edge(m, m.edge_props[w].edge));
            }
            crate::model::lemma_eprops_replaced_wf(m, ps2);
        }
        Ok(())
    }

    /// The property rows under the query's name for the selected edges, in
    /// selection order, omitting edges where the property is absent.
    /// Always succeeds.
    #[verifier::loop_isolation(false)]
    pub fn get_edge_properties(&self, q: &EdgePropertyQuery) -> (r: Result<
        Vec<EdgeProperty>,
        Error,
    >)
        requires
            wf(self@),
        ensures
            (r matches Ok(ps) && eprop_views(ps@) == eprop_rows(
                self@,
                eval_eq(self@, q.inner),
                q.name@,
            )),
    {
        let ghost m = self@;
        let sel = self.run_eq(&q.inner);
        let ghost evs = eval_eq(m, q.inner);
        let mut out: Vec<EdgeProperty> = Vec::new();
        let mut i: usize = 0;
        proof {
            assert(evs.subrange(0, 0) =~= Seq::<EdgeView>::empty());
            assert(eprop_views(out@) =~= eprop_rows(m, evs.subrange(0, 0), q.name@));
        }
        while i < sel.len()
            invariant
                0 <= i <= sel@.len(),
                edge_views(sel@) == evs,
                evs.len() == sel@.len(),
                eprop_views(out@) == eprop_rows(m, evs.subrange(0, i as int), q.name@),
            decreases sel@.len() - i,
        {
            let e = &sel[i];
            let ghost pre = eprop_views(out@);
            proof {
                assert(e@ == evs[i as int]);
                let c = evs.subrange(0, i + 1);
                assert(c.drop_last() =~= evs.subrange(0, i as int));
                assert(c.last() == evs[i as int]);
            }
            match self.find_eprop(e, &q.name) {
                Some(k) => {
                    proof {
                        assert(has_eprop(m, e@, q.name@));
                        let j = choose|j: int|
                            0 <= j < m.edge_props.len() && m.edge_props[j].edge == e@
                                && m.edge_props[j].name == q.name@;
                        assert(j == k);
                        assert(eprop_value(m, e@, q.name@) == m.edge_props[k as int].value);
                    }
                    let p = &self.edge_props[k];
                    out.push(
                        EdgeProperty {
                            edge: e.clone(),
                            name: q.name.clone(),
                            value: p.value.clone(),
                        },
                    );
                    proof {
                        assert(eprop_views(out@) =~= pre.push(
                            EdgePropView {
                                edge: e@,
                                name: q.name@,
                                value: eprop_value(m, e@, q.name@),
                            },
                        ));
                    }
                }
                None => {}
            }
            i = i + 1;
        }
        proof {
            assert(evs.subrange(0, evs.len() as int) =~= evs);
        }
        Ok(out)
    }
}

/// The edge property rows that survive deleting `name` for the listed
/// edges.
#[verifier::loop_isolation(false)]
fn filter_eprops_del(ps: &Vec<EdgeProperty>, sel: &Vec<Edge>, name: &Identifier) -> (r: Vec<
    EdgeProperty,
>)
    ensures
        eprop_views(r@) == del_eprops(eprop_views(ps@), edge_views(sel@), name@),
{
    let ghost s = eprop_views(ps@);
    let ghost sv = edge_views(sel@);
    let mut out: Vec<EdgeProperty> = Vec::new();
    let mut i: usize = 0;
    proof {
        assert(s.subrange(0, 0) =~= Seq::<EdgePropView>::empty());
        assert(eprop_views(out@) =~= del_eprops(s.subrange(0, 0), sv, name@));
    }
    while i < ps.len()
        invariant
            0 <= i <= ps@.len(),
            eprop_views(out@) == del_eprops(s.subrange(0, i as int), sv, name@),
        decreases ps@.len() - i,
    {
        let p = &ps[i];
        let ghost pre = eprop_views(out@);
        let listed = edge_in(sel, &p.edge);
        let named = bytes_eq(p.name.as_bytes(), name.as_bytes());
        proof {
            let c = s.subrange(0, i + 1);
            assert(c.drop_last() =~= s.subrange(0, i as int));
            assert(c.last() == s[i as int]);
            assert((listed && named) == (sv.contains(s[i as int].edge) && s[i as int].name
                == name@));
        }
        if !(listed && named) {
            out.push(
                EdgeProperty { edge: p.edge.clone(), name: p.name.clone(), value: p.value.clone() },
            );
            proof {
                assert(eprop_views(out@) =~= pre.push(s[i as int]));
            }
        }
        i = i + 1;
    }
    proof {
        assert(s.subrange(0, s.len() as int) =~= s);
    }
    out
}


impl MemoryDatastore {
    /// Executes a batch of mutations in order under one transaction,
    /// returning the first and most recent vertex id the batch produced.
    /// A failing item aborts the batch at that point; the effects of the
    /// preceding items are retained, as the engine does not roll back.
    #[verifier::loop_isolation(false)]
    pub fn bulk_insert(&mut self, items: Vec<BulkInsertItem>) -> (r: Result<
        BulkInsertResult,
        Error,
    >)
        requires
            wf(old(self)@),
        ensures
            wf(final(self)@),
            final(self)@ == bulk_run(old(self)@, items@).model,
            (match r {
                Ok(br) => bulk_run(old(self)@, items@).ok && br.id_range == bulk_run(
                    old(self)@,
                    items@,
                ).range,
                Err(e) => !bulk_run(old(self)@, items@).ok && e == Error::OutOfRange,
            }),
    {
        let ghost m = self@;
        let mut range: Option<(u64, u64)> = None;
        let mut i: usize = 0;
        proof {
            assert(items@.subrange(0, 0) =~= Seq::<BulkInsertItem>::empty());
        }
        while i < items.len()
            invariant
                0 <= i <= items@.len(),
                wf(self@),
                bulk_run(m, items@.subrange(0, i as int)) == (BulkOutcome {
                    model: self@,
                    range: range,
                    ok: true,
                }),
            decreases items@.len() - i,
        {
            proof {
                let c = items@.subrange(0, i + 1);
                assert(c.drop_last() =~= items@.subrange(0, i as int));
                assert(c.last() == items@[i as int]);
            }
            let item = &items[i];
            let ghost pre_model = self@;
            let ghost pre_range = range;
            let ghost pre_out = BulkOutcome { model: pre_model, range: pre_range, ok: true };
            proof {
                assert(*item == items@[i as int]);
            }
            match item {
                BulkInsertItem::Vertex(t) => {
                    match self.create_vertex(t) {
                        Ok(id) => {
                            range = match range {
                                None => Some((id, id)),
                                Some(p) => Some((p.0, id)),
                            };
                            proof {
                                assert(self@ == create_vertex_model(pre_model, t@));
                                assert(bulk_step(pre_out, items@[i as int]) == (BulkOutcome {
                                    model: self@,
                                    range: range,
                                    ok: true,
                                }));
                            }
                        }
                        Err(_) => {
                            proof {
                                assert(bulk_step(pre_out, items@[i as int]) == (BulkOutcome {
                                    model: self@,
                                    range: range,
                                    ok: false,
                                }));
                                assert(bulk_run(m, items@.subrange(0, i + 1)) == (BulkOutcome {
                                    model: self@,
                                    range: range,
                                    ok: false,
                                }));
                                crate::model::lemma_bulk_stuck(m, items@, i + 1);
                            }
                            return Err(Error::OutOfRange);
                        }
                    }
                }
                BulkInsertItem::Edge(e) => {
                    match self.create_edge(e) {
                        Ok(_) => {
                            proof {
                                assert(self@ == create_edge_model(pre_model, e@));
                                assert(bulk_step(pre_out, items@[i as int]) == (BulkOutcome {
                                    model: self@,
                                    range: range,
                                    ok: true,
                                }));
                            }
                        }
                        Err(_) => {
                            proof {
                                assert(bulk_step(pre_out, items@[i as int]) == (BulkOutcome {
                                    model: self@,
                                    range: range,
                                    ok: false,
                                }));
                                assert(bulk_run(m, items@.subrange(0, i + 1)) == (BulkOutcome {
                                    model: self@,
                                    range: range,
                                    ok: false,
                                }));
                                crate::model::lemma_bulk_stuck(m, items@, i + 1);
                            }
                            return Err(Error::OutOfRange);
                        }
                    }
                }
                BulkInsertItem::VertexProperty(id, name, value) => {
                    match self.find_vertex(*id) {
                        Some(_w) => {
                            proof {
                                assert(has_vertex(self@, *id));
                            }
                            self.upsert_vprop(*id, name, value);
                            proof {
                                assert(bulk_step(pre_out, items@[i as int]) == (BulkOutcome {
                                    model: self@,
                                    range: range,
                                    ok: true,
                                }));
                            }
                        }
                        None => {
                            proof {
                                assert(!has_vertex(pre_model, *id));
                                assert(bulk_step(pre_out, items@[i as int]) == pre_out);
                            }
                        }
                    }
                }
                BulkInsertItem::EdgeProperty(e, name, value) => {
                    match self.find_edge(e) {
                        Some(_w) => {
                            proof {
                                assert(has_edge(self@, e@));
                            }
                            self.upsert_eprop(e, name, value);
                            proof {
                                assert(bulk_step(pre_out, items@[i as int]) == (BulkOutcome {
                                    model: self@,
                                    range: range,
                                    ok: true,
                                }));
                            }
                        }
                        None => {
                            proof {
                                assert(!has_edge(pre_model, e@));
                                assert(bulk_step(pre_out, items@[i as int]) == pre_out);
                            }
                        }
                    }
                }
            }
            proof {
                assert(bulk_run(m, items@.subrange(0, i + 1)) == (BulkOutcome {
                    model: self@,
                    range: range,
                    ok: true,
                }));
            }
            i = i + 1;
        }
        proof {
            assert(items@.subrange(0, items@.len() as int) =~= items@);
        }
        Ok(BulkInsertResult { id_range: range })
    }
}


} // verus!
