use vstd::prelude::*;

verus! {

use crate::json::JsonV;
use crate::models::{
    BulkInsertItem, EdgeDirection, EdgePropView, EdgeView, NamedPropView, VertexPropView,
    VertexView,
};

// The mathematical model of a datastore, and the evaluator of queries
// against it. Every engine operation's contract is stated over this model;
// the laws of the store are proved about it.

/// One committed edge together with its creation stamp.
pub struct EdgeRecView {
    pub edge: EdgeView,
    pub ts: u64,
}

/// The mathematical state of a datastore: the live vertices in ascending
/// id order, the committed edges in ascending creation order, the two
/// property tables, and the id and stamp allocators.
pub struct GraphModel {
    pub vertices: Seq<VertexView>,
    pub edges: Seq<EdgeRecView>,
    pub vertex_props: Seq<VertexPropView>,
    pub edge_props: Seq<EdgePropView>,
    pub next_id: u64,
    pub next_ts: u64,
}

/// True when a vertex with the given id is live.
pub open spec fn has_vertex(m: GraphModel, id: u64) -> bool {
    exists|i: int| 0 <= i < m.vertices.len() && m.vertices[i].id == id
}

/// The type of the live vertex with the given id.
pub open spec fn vertex_type(m: GraphModel, id: u64) -> Seq<u8> {
    let i = choose|i: int| 0 <= i < m.vertices.len() && m.vertices[i].id == id;
    m.vertices[i].t
}

/// True when the edge triple is committed.
pub open spec fn has_edge(m: GraphModel, e: EdgeView) -> bool {
    exists|i: int| 0 <= i < m.edges.len() && m.edges[i].edge == e
}

/// True when the vertex has a property under `name`.
pub open spec fn has_vprop(m: GraphModel, id: u64, name: Seq<u8>) -> bool {
    exists|i: int|
        0 <= i < m.vertex_props.len() && m.vertex_props[i].id == id && m.vertex_props[i].name
            == name
}

/// The value of the vertex property under `name`.
pub open spec fn vprop_value(m: GraphModel, id: u64, name: Seq<u8>) -> JsonV {
    let i = choose|i: int|
        0 <= i < m.vertex_props.len() && m.vertex_props[i].id == id && m.vertex_props[i].name
            == name;
    m.vertex_props[i].value
}

/// True when the edge has a property under `name`.
pub open spec fn has_eprop(m: GraphModel, e: EdgeView, name: Seq<u8>) -> bool {
    exists|i: int|
        0 <= i < m.edge_props.len() && m.edge_props[i].edge == e && m.edge_props[i].name == name
}

/// The value of the edge property under `name`.
pub open spec fn eprop_value(m: GraphModel, e: EdgeView, name: Seq<u8>) -> JsonV {
    let i = choose|i: int|
        0 <= i < m.edge_props.len() && m.edge_props[i].edge == e && m.edge_props[i].name == name;
    m.edge_props[i].value
}

/// The invariants of a committed state: vertex ids ascending, non-zero and
/// below the allocator; creation stamps ascending and below the allocator;
/// edge triples unique with live endpoints; property rows unique per owner
/// and name, each owner live.
pub open spec fn wf(m: GraphModel) -> bool {
    &&& 1 <= m.next_id
    &&& 1 <= m.next_ts
    &&& forall|i: int, j: int|
        0 <= i < j < m.vertices.len() ==> m.vertices[i].id < m.vertices[j].id
    &&& forall|i: int|
        0 <= i < m.vertices.len() ==> 0 < #[trigger] m.vertices[i].id < m.next_id
    &&& forall|i: int, j: int| 0 <= i < j < m.edges.len() ==> m.edges[i].ts < m.edges[j].ts
    &&& forall|i: int| 0 <= i < m.edges.len() ==> #[trigger] m.edges[i].ts < m.next_ts
    &&& forall|i: int, j: int|
        0 <= i < m.edges.len() && 0 <= j < m.edges.len() && i != j ==> m.edges[i].edge
            != m.edges[j].edge
    &&& forall|i: int|
        0 <= i < m.edges.len() ==> has_vertex(m, #[trigger] m.edges[i].edge.outbound_id)
            && has_vertex(m, m.edges[i].edge.inbound_id)
    &&& forall|i: int, j: int|
        0 <= i < m.vertex_props.len() && 0 <= j < m.vertex_props.len() && i != j ==> !(
        m.vertex_props[i].id == m.vertex_props[j].id && m.vertex_props[i].name
            == m.vertex_props[j].name)
    &&& forall|i: int|
        0 <= i < m.vertex_props.len() ==> has_vertex(m, #[trigger] m.vertex_props[i].id)
    &&& forall|i: int, j: int|
        0 <= i < m.edge_props.len() && 0 <= j < m.edge_props.len() && i != j ==> !(
        m.edge_props[i].edge == m.edge_props[j].edge && m.edge_props[i].name
            == m.edge_props[j].name)
    &&& forall|i: int|
        0 <= i < m.edge_props.len() ==> has_edge(m, #[trigger] m.edge_props[i].edge)
}

/// In a well-formed model each live id names one row, so looking the id
/// up yields that row's type.
pub proof fn lemma_vertex_type_at(m: GraphModel, i: int)
    requires
        wf(m),
        0 <= i < m.vertices.len(),
    ensures
        has_vertex(m, m.vertices[i].id),
        vertex_type(m, m.vertices[i].id) == m.vertices[i].t,
{
    assert(has_vertex(m, m.vertices[i].id));
    let j = choose|j: int| 0 <= j < m.vertices.len() && m.vertices[j].id == m.vertices[i].id;
    if j < i {
        assert(m.vertices[j].id < m.vertices[i].id);
    }
    if i < j {
        assert(m.vertices[i].id < m.vertices[j].id);
    }
}

/// True when the filter accepts the type.
pub open spec fn type_matches(t: Option<Seq<u8>>, ty: Seq<u8>) -> bool {
    match t {
        None => true,
        Some(x) => x == ty,
    }
}

/// The first `limit` entries of a result.
pub open spec fn capped<A>(s: Seq<A>, limit: u64) -> Seq<A> {
    if s.len() <= limit {
        s
    } else {
        s.subrange(0, limit as int)
    }
}

/// The vertices with id at least `start_id` that pass the type filter, in
/// stored (ascending id) order.
pub open spec fn range_sel(vs: Seq<VertexView>, start_id: u64, t: Option<Seq<u8>>) -> Seq<
    VertexView,
>
    decreases vs,
{
    if vs.len() == 0 {
        Seq::empty()
    } else {
        let rest = range_sel(vs.drop_last(), start_id, t);
        if vs.last().id >= start_id && type_matches(t, vs.last().t) {
            rest.push(vs.last())
        } else {
            rest
        }
    }
}

/// The listed ids that are live, each with its type, in input order.
pub open spec fn specific_sel(m: GraphModel, ids: Seq<u64>) -> Seq<VertexView>
    decreases ids,
{
    if ids.len() == 0 {
        Seq::empty()
    } else {
        let rest = specific_sel(m, ids.drop_last());
        let id = ids.last();
        if has_vertex(m, id) {
            rest.push(VertexView { id: id, t: vertex_type(m, id) })
        } else {
            rest
        }
    }
}

/// The endpoint of an edge on the chosen side.
pub open spec fn endpoint(e: EdgeView, direction: EdgeDirection) -> u64 {
    match direction {
        EdgeDirection::Outbound => e.outbound_id,
        EdgeDirection::Inbound => e.inbound_id,
    }
}

/// The endpoints of a list of edges on the chosen side, in order.
pub open spec fn endpoints(es: Seq<EdgeView>, direction: EdgeDirection) -> Seq<u64>
    decreases es,
{
    if es.len() == 0 {
        Seq::empty()
    } else {
        endpoints(es.drop_last(), direction).push(endpoint(es.last(), direction))
    }
}

/// The ids with duplicates removed, keeping each id at its first
/// occurrence.
pub open spec fn dedup_first(s: Seq<u64>) -> Seq<u64>
    decreases s,
{
    if s.len() == 0 {
        Seq::empty()
    } else {
        let rest = dedup_first(s.drop_last());
        if rest.contains(s.last()) {
            rest
        } else {
            rest.push(s.last())
        }
    }
}

/// The listed ids that are live and pass the type filter, each with its
/// type, in input order.
pub open spec fn pipe_vertex_sel(m: GraphModel, ids: Seq<u64>, t: Option<Seq<u8>>) -> Seq<
    VertexView,
>
    decreases ids,
{
    if ids.len() == 0 {
        Seq::empty()
    } else {
        let rest = pipe_vertex_sel(m, ids.drop_last(), t);
        let id = ids.last();
        if has_vertex(m, id) && type_matches(t, vertex_type(m, id)) {
            rest.push(VertexView { id: id, t: vertex_type(m, id) })
        } else {
            rest
        }
    }
}

/// A vertex pipe: the deduplicated endpoints of the edge set on the chosen
/// side that are live and pass the filter, capped at `limit`.
pub open spec fn eval_vpipe(
    m: GraphModel,
    es: Seq<EdgeView>,
    direction: EdgeDirection,
    t: Option<Seq<u8>>,
    limit: u64,
) -> Seq<VertexView> {
    capped(pipe_vertex_sel(m, dedup_first(endpoints(es, direction)), t), limit)
}

/// The listed edge triples that are committed, in input order.
pub open spec fn specific_edge_sel(m: GraphModel, es: Seq<EdgeView>) -> Seq<EdgeView>
    decreases es,
{
    if es.len() == 0 {
        Seq::empty()
    } else {
        let rest = specific_edge_sel(m, es.drop_last());
        if has_edge(m, es.last()) {
            rest.push(es.last())
        } else {
            rest
        }
    }
}

/// True when a committed edge matches one source vertex of an edge pipe:
/// it is incident on the chosen side, passes the type filter, and its
/// creation stamp lies in `(low, high]`.
pub open spec fn edge_matches(
    rec: EdgeRecView,
    id: u64,
    direction: EdgeDirection,
    t: Option<Seq<u8>>,
    high: Option<u64>,
    low: Option<u64>,
) -> bool {
    &&& endpoint(rec.edge, direction) == id
    &&& type_matches(t, rec.edge.t)
    &&& (match high {
        None => true,
        Some(h) => rec.ts <= h,
    })
    &&& (match low {
        None => true,
        Some(l) => rec.ts > l,
    })
}

/// The matching edges at one source vertex, in descending creation order,
/// up to `limit` of them.
pub open spec fn scan_desc(
    edges: Seq<EdgeRecView>,
    id: u64,
    direction: EdgeDirection,
    t: Option<Seq<u8>>,
    high: Option<u64>,
    low: Option<u64>,
    limit: u64,
) -> Seq<EdgeView>
    decreases edges,
{
    if edges.len() == 0 || limit == 0 {
        Seq::empty()
    } else {
        let rec = edges.last();
        if edge_matches(rec, id, direction, t, high, low) {
            seq![rec.edge] + scan_desc(
                edges.drop_last(),
                id,
                direction,
                t,
                high,
                low,
                (limit - 1) as u64,
            )
        } else {
            scan_desc(edges.drop_last(), id, direction, t, high, low, limit)
        }
    }
}

/// An edge pipe: the per-source scans concatenated in source order.
pub open spec fn epipe(
    m: GraphModel,
    srcs: Seq<VertexView>,
    direction: EdgeDirection,
    t: Option<Seq<u8>>,
    high: Option<u64>,
    low: Option<u64>,
    limit: u64,
) -> Seq<EdgeView>
    decreases srcs,
{
    if srcs.len() == 0 {
        Seq::empty()
    } else {
        epipe(m, srcs.drop_last(), direction, t, high, low, limit) + scan_desc(
            m.edges,
            srcs.last().id,
            direction,
            t,
            high,
            low,
            limit,
        )
    }
}

/// The number of committed edges on the chosen side of `id` that pass the
/// type filter.
pub open spec fn incident_sel(
    edges: Seq<EdgeRecView>,
    id: u64,
    t: Option<Seq<u8>>,
    direction: EdgeDirection,
) -> Seq<EdgeView>
    decreases edges,
{
    if edges.len() == 0 {
        Seq::empty()
    } else {
        let rest = incident_sel(edges.drop_last(), id, t, direction);
        if endpoint(edges.last().edge, direction) == id && type_matches(t, edges.last().edge.t) {
            rest.push(edges.last().edge)
        } else {
            rest
        }
    }
}

/// The count behind `get_edge_count`.
pub open spec fn edge_count(
    m: GraphModel,
    id: u64,
    t: Option<Seq<u8>>,
    direction: EdgeDirection,
) -> nat {
    incident_sel(m.edges, id, t, direction).len()
}

use crate::queries::{EdgeQuery, VertexQuery, opt_view};

/// The shapes of a list of edge triples.
pub open spec fn edge_views(es: Seq<crate::models::Edge>) -> Seq<EdgeView> {
    Seq::new(es.len(), |i: int| es[i]@)
}

/// The ids of a list of vertices.
pub open spec fn ids_of(vs: Seq<VertexView>) -> Seq<u64> {
    Seq::new(vs.len(), |i: int| vs[i].id)
}

/// The vertices a vertex query selects, in result order.
pub open spec fn eval_vq(m: GraphModel, q: VertexQuery) -> Seq<VertexView>
    decreases q,
{
    match q {
        VertexQuery::Range { start_id, t, limit } => capped(
            range_sel(m.vertices, start_id, opt_view(t)),
            limit,
        ),
        VertexQuery::Specific { ids } => specific_sel(m, ids@),
        VertexQuery::Pipe { inner, direction, t, limit } => eval_vpipe(
            m,
            eval_eq(m, *inner),
            direction,
            opt_view(t),
            limit,
        ),
    }
}

/// The edges an edge query selects, in result order.
pub open spec fn eval_eq(m: GraphModel, q: EdgeQuery) -> Seq<EdgeView>
    decreases q,
{
    match q {
        EdgeQuery::Specific { edges } => specific_edge_sel(m, edge_views(edges@)),
        EdgeQuery::Pipe { inner, direction, t, limit, high, low } => epipe(
            m,
            eval_vq(m, *inner),
            direction,
            opt_view(t),
            high,
            low,
            limit,
        ),
    }
}

// ---- the transforms of the mutating operations ----

/// The model after creating a vertex of type `t`: the fresh id is the
/// allocator value, appended in id order.
pub open spec fn create_vertex_model(m: GraphModel, t: Seq<u8>) -> GraphModel {
    GraphModel {
        vertices: m.vertices.push(VertexView { id: m.next_id, t: t }),
        next_id: (m.next_id + 1) as u64,
        ..m
    }
}

/// True when `create_edge` reports success: both endpoints are live.
pub open spec fn create_edge_ok(m: GraphModel, e: EdgeView) -> bool {
    has_vertex(m, e.outbound_id) && has_vertex(m, e.inbound_id)
}

/// The model after `create_edge`: unchanged when an endpoint is missing or
/// the triple is already committed (idempotence keeps the original stamp);
/// otherwise the triple is appended with a fresh stamp.
pub open spec fn create_edge_model(m: GraphModel, e: EdgeView) -> GraphModel {
    if !create_edge_ok(m, e) || has_edge(m, e) {
        m
    } else {
        GraphModel {
            edges: m.edges.push(EdgeRecView { edge: e, ts: m.next_ts }),
            next_ts: (m.next_ts + 1) as u64,
            ..m
        }
    }
}

/// The rows of `s` that fail the drop test, in order.
pub open spec fn filter_keep<T>(s: Seq<T>, drop: spec_fn(T) -> bool) -> Seq<T>
    decreases s,
{
    if s.len() == 0 {
        Seq::empty()
    } else {
        let rest = filter_keep(s.drop_last(), drop);
        if drop(s.last()) {
            rest
        } else {
            rest.push(s.last())
        }
    }
}

/// What filtering keeps: every kept row fails the drop test and comes from
/// the original; any two kept rows come from two original rows in the same
/// order; and every original row that fails the test is kept.
pub proof fn lemma_filter_keep<T>(s: Seq<T>, drop: spec_fn(T) -> bool)
    ensures
        forall|k: int|
            0 <= k < filter_keep(s, drop).len() ==> !drop(#[trigger] filter_keep(s, drop)[k]),
        forall|k: int|
            0 <= k < filter_keep(s, drop).len() ==> exists|i: int|
                0 <= i < s.len() && #[trigger] s[i] == #[trigger] filter_keep(s, drop)[k],
        forall|k1: int, k2: int|
            #![trigger filter_keep(s, drop)[k1], filter_keep(s, drop)[k2]]
            0 <= k1 < k2 < filter_keep(s, drop).len() ==> exists|i1: int, i2: int|
                #![trigger s[i1], s[i2]]
                0 <= i1 < i2 < s.len() && s[i1] == filter_keep(s, drop)[k1] && s[i2]
                    == filter_keep(s, drop)[k2],
        forall|i: int|
            0 <= i < s.len() && !drop(#[trigger] s[i]) ==> filter_keep(s, drop).contains(s[i]),
    decreases s,
{
    let f = filter_keep(s, drop);
    if s.len() > 0 {
        let prev = s.drop_last();
        lemma_filter_keep(prev, drop);
        let fp = filter_keep(prev, drop);
        assert(forall|i: int| 0 <= i < prev.len() ==> prev[i] == s[i]);
        assert forall|k: int| #![trigger f[k]] 0 <= k < f.len() implies exists|i: int|
            #![trigger s[i]]
            0 <= i < s.len() && s[i] == f[k] by {
            if k < fp.len() {
                let i = choose|i: int| 0 <= i < prev.len() && prev[i] == fp[k];
                assert(s[i] == f[k]);
            } else {
                assert(s[s.len() - 1] == f[k]);
            }
        }
        assert forall|k1: int, k2: int|
            #![trigger f[k1], f[k2]]
            0 <= k1 < k2 < f.len() implies exists|i1: int, i2: int|
            #![trigger s[i1], s[i2]]
            0 <= i1 < i2 < s.len() && s[i1] == f[k1] && s[i2] == f[k2] by {
            if k2 < fp.len() {
                let (i1, i2) = choose|i1: int, i2: int|
                    0 <= i1 < i2 < prev.len() && prev[i1] == fp[k1] && prev[i2] == fp[k2];
                assert(s[i1] == f[k1] && s[i2] == f[k2]);
            } else {
                let i1 = choose|i: int| 0 <= i < prev.len() && prev[i] == fp[k1];
                assert(s[i1] == f[k1] && s[s.len() - 1] == f[k2]);
            }
        }
        assert forall|i: int| 0 <= i < s.len() && !drop(s[i]) implies f.contains(s[i]) by {
            if i < s.len() - 1 {
                assert(fp.contains(prev[i]));
                let k = choose|k: int| 0 <= k < fp.len() && fp[k] == prev[i];
                assert(f[k] == s[i]);
            } else {
                assert(f[f.len() - 1] == s[i]);
            }
        }
    }
}

/// The vertices whose id is not listed.
pub open spec fn keep_vertices(vs: Seq<VertexView>, ids: Seq<u64>) -> Seq<VertexView> {
    filter_keep(vs, |v: VertexView| ids.contains(v.id))
}

/// True when the edge touches one of the listed ids on either side.
pub open spec fn edge_touches(e: EdgeView, ids: Seq<u64>) -> bool {
    ids.contains(e.outbound_id) || ids.contains(e.inbound_id)
}

/// The edges that touch none of the listed ids.
pub open spec fn keep_edges_clear(es: Seq<EdgeRecView>, ids: Seq<u64>) -> Seq<EdgeRecView> {
    filter_keep(es, |rec: EdgeRecView| edge_touches(rec.edge, ids))
}

/// The vertex property rows owned by none of the listed ids.
pub open spec fn keep_vprops_clear(ps: Seq<VertexPropView>, ids: Seq<u64>) -> Seq<VertexPropView> {
    filter_keep(ps, |p: VertexPropView| ids.contains(p.id))
}

/// The edge property rows whose edge touches none of the listed ids.
pub open spec fn keep_eprops_clear(ps: Seq<EdgePropView>, ids: Seq<u64>) -> Seq<EdgePropView> {
    filter_keep(ps, |p: EdgePropView| edge_touches(p.edge, ids))
}

/// The model after deleting the vertices with the listed ids: their rows,
/// every incident edge, and every property of either are gone.
pub open spec fn delete_vertices_model(m: GraphModel, ids: Seq<u64>) -> GraphModel {
    GraphModel {
        vertices: keep_vertices(m.vertices, ids),
        edges: keep_edges_clear(m.edges, ids),
        vertex_props: keep_vprops_clear(m.vertex_props, ids),
        edge_props: keep_eprops_clear(m.edge_props, ids),
        ..m
    }
}

/// The edges not listed among the deleted triples.
pub open spec fn keep_edges_not_in(es: Seq<EdgeRecView>, sel: Seq<EdgeView>) -> Seq<EdgeRecView> {
    filter_keep(es, |rec: EdgeRecView| sel.contains(rec.edge))
}

/// The edge property rows whose edge is not among the deleted triples.
pub open spec fn keep_eprops_not_in(ps: Seq<EdgePropView>, sel: Seq<EdgeView>) -> Seq<EdgePropView> {
    filter_keep(ps, |p: EdgePropView| sel.contains(p.edge))
}

/// The model after deleting the listed edge triples: the triples and their
/// properties are gone.
pub open spec fn delete_edges_model(m: GraphModel, sel: Seq<EdgeView>) -> GraphModel {
    GraphModel {
        edges: keep_edges_not_in(m.edges, sel),
        edge_props: keep_eprops_not_in(m.edge_props, sel),
        ..m
    }
}

/// One upsert into the vertex property table: replaces the row in place
/// when the key is present, else appends.
pub open spec fn set_vprop(
    ps: Seq<VertexPropView>,
    id: u64,
    name: Seq<u8>,
    value: JsonV,
) -> Seq<VertexPropView> {
    if exists|i: int| 0 <= i < ps.len() && ps[i].id == id && ps[i].name == name {
        let i = choose|i: int| 0 <= i < ps.len() && ps[i].id == id && ps[i].name == name;
        ps.update(i, VertexPropView { id: id, name: name, value: value })
    } else {
        ps.push(VertexPropView { id: id, name: name, value: value })
    }
}

/// The table after upserting `value` under `name` for every listed id, in
/// order.
pub open spec fn set_vprops(
    ps: Seq<VertexPropView>,
    ids: Seq<u64>,
    name: Seq<u8>,
    value: JsonV,
) -> Seq<VertexPropView>
    decreases ids,
{
    if ids.len() == 0 {
        ps
    } else {
        set_vprop(set_vprops(ps, ids.drop_last(), name, value), ids.last(), name, value)
    }
}

/// The table without the rows under `name` for the listed ids.
pub open spec fn del_vprops(ps: Seq<VertexPropView>, ids: Seq<u64>, name: Seq<u8>) -> Seq<
    VertexPropView,
> {
    filter_keep(ps, |p: VertexPropView| ids.contains(p.id) && p.name == name)
}

/// One upsert into the edge property table.
pub open spec fn set_eprop(
    ps: Seq<EdgePropView>,
    e: EdgeView,
    name: Seq<u8>,
    value: JsonV,
) -> Seq<EdgePropView> {
    if exists|i: int| 0 <= i < ps.len() && ps[i].edge == e && ps[i].name == name {
        let i = choose|i: int| 0 <= i < ps.len() && ps[i].edge == e && ps[i].name == name;
        ps.update(i, EdgePropView { edge: e, name: name, value: value })
    } else {
        ps.push(EdgePropView { edge: e, name: name, value: value })
    }
}

/// The table after upserting `value` under `name` for every listed edge,
/// in order.
pub open spec fn set_eprops(
    ps: Seq<EdgePropView>,
    es: Seq<EdgeView>,
    name: Seq<u8>,
    value: JsonV,
) -> Seq<EdgePropView>
    decreases es,
{
    if es.len() == 0 {
        ps
    } else {
        set_eprop(set_eprops(ps, es.drop_last(), name, value), es.last(), name, value)
    }
}

/// The table without the rows under `name` for the listed edges.
pub open spec fn del_eprops(ps: Seq<EdgePropView>, es: Seq<EdgeView>, name: Seq<u8>) -> Seq<
    EdgePropView,
> {
    filter_keep(ps, |p: EdgePropView| es.contains(p.edge) && p.name == name)
}

/// The property rows for the selected vertices under `name`, in selection
/// order, omitting vertices where the property is absent.
pub open spec fn vprop_rows(m: GraphModel, vs: Seq<VertexView>, name: Seq<u8>) -> Seq<
    VertexPropView,
>
    decreases vs,
{
    if vs.len() == 0 {
        Seq::empty()
    } else {
        let rest = vprop_rows(m, vs.drop_last(), name);
        let id = vs.last().id;
        if has_vprop(m, id, name) {
            rest.push(VertexPropView { id: id, name: name, value: vprop_value(m, id, name) })
        } else {
            rest
        }
    }
}

/// The property rows for the selected edges under `name`, in selection
/// order, omitting edges where the property is absent.
pub open spec fn eprop_rows(m: GraphModel, es: Seq<EdgeView>, name: Seq<u8>) -> Seq<EdgePropView>
    decreases es,
{
    if es.len() == 0 {
        Seq::empty()
    } else {
        let rest = eprop_rows(m, es.drop_last(), name);
        let e = es.last();
        if has_eprop(m, e, name) {
            rest.push(EdgePropView { edge: e, name: name, value: eprop_value(m, e, name) })
        } else {
            rest
        }
    }
}

/// All properties of one vertex, in table order.
pub open spec fn props_of_vertex(ps: Seq<VertexPropView>, id: u64) -> Seq<NamedPropView>
    decreases ps,
{
    if ps.len() == 0 {
        Seq::empty()
    } else {
        let rest = props_of_vertex(ps.drop_last(), id);
        if ps.last().id == id {
            rest.push(NamedPropView { name: ps.last().name, value: ps.last().value })
        } else {
            rest
        }
    }
}

/// All properties of one edge, in table order.
pub open spec fn props_of_edge(ps: Seq<EdgePropView>, e: EdgeView) -> Seq<NamedPropView>
    decreases ps,
{
    if ps.len() == 0 {
        Seq::empty()
    } else {
        let rest = props_of_edge(ps.drop_last(), e);
        if ps.last().edge == e {
            rest.push(NamedPropView { name: ps.last().name, value: ps.last().value })
        } else {
            rest
        }
    }
}

// ---- bulk insert ----

/// The running state of a bulk insert: the model so far, the id range the
/// request produced, and whether it has failed.
pub struct BulkOutcome {
    pub model: GraphModel,
    pub range: Option<(u64, u64)>,
    pub ok: bool,
}

/// One bulk item applied to a running state. A vertex item allocates and
/// creates; an edge item creates when its endpoints are live and is
/// otherwise a no-op; property items upsert when their target is live and
/// are otherwise no-ops. Only allocator exhaustion fails.
pub open spec fn bulk_step(o: BulkOutcome, item: BulkInsertItem) -> BulkOutcome {
    if !o.ok {
        o
    } else {
        match item {
            BulkInsertItem::Vertex(t) => {
                if o.model.next_id == u64::MAX {
                    BulkOutcome { ok: false, ..o }
                } else {
                    let id = o.model.next_id;
                    BulkOutcome {
                        model: create_vertex_model(o.model, t@),
                        range: match o.range {
                            None => Some((id, id)),
                            Some(p) => Some((p.0, id)),
                        },
                        ok: true,
                    }
                }
            }
            BulkInsertItem::Edge(e) => {
                if create_edge_ok(o.model, e@) && !has_edge(o.model, e@) && o.model.next_ts
                    == u64::MAX {
                    BulkOutcome { ok: false, ..o }
                } else {
                    BulkOutcome { model: create_edge_model(o.model, e@), ..o }
                }
            }
            BulkInsertItem::VertexProperty(id, name, value) => {
                if has_vertex(o.model, id) {
                    BulkOutcome {
                        model: GraphModel {
                            vertex_props: set_vprop(o.model.vertex_props, id, name@, value@),
                            ..o.model
                        },
                        ..o
                    }
                } else {
                    o
                }
            }
            BulkInsertItem::EdgeProperty(e, name, value) => {
                if has_edge(o.model, e@) {
                    BulkOutcome {
                        model: GraphModel {
                            edge_props: set_eprop(o.model.edge_props, e@, name@, value@),
                            ..o.model
                        },
                        ..o
                    }
                } else {
                    o
                }
            }
        }
    }
}

/// The outcome of running a bulk insert from a starting model.
pub open spec fn bulk_run(m: GraphModel, items: Seq<BulkInsertItem>) -> BulkOutcome
    decreases items,
{
    if items.len() == 0 {
        BulkOutcome { model: m, range: None, ok: true }
    } else {
        bulk_step(bulk_run(m, items.drop_last()), items.last())
    }
}

/// Once a bulk insert has failed, the remaining items leave it unchanged.
pub proof fn lemma_bulk_stuck(m: GraphModel, items: Seq<BulkInsertItem>, k: int)
    requires
        0 <= k <= items.len(),
        !bulk_run(m, items.subrange(0, k)).ok,
    ensures
        bulk_run(m, items) == bulk_run(m, items.subrange(0, k)),
    decreases items.len(),
{
    if items.len() == k {
        assert(items.subrange(0, k) =~= items);
    } else {
        assert(items.drop_last() =~= items.subrange(0, items.len() - 1));
        assert(items.subrange(0, items.len() - 1).subrange(0, k) =~= items.subrange(0, k));
        lemma_bulk_stuck(m, items.subrange(0, items.len() - 1), k);
    }
}


/// Deleting vertices preserves well-formedness: the cascade removes every
/// row that could dangle.
pub proof fn lemma_delete_vertices_wf(m: GraphModel, ids: Seq<u64>)
    requires
        wf(m),
    ensures
        wf(delete_vertices_model(m, ids)),
{
    let m2 = delete_vertices_model(m, ids);
    lemma_filter_keep(m.vertices, |v: VertexView| ids.contains(v.id));
    lemma_filter_keep(m.edges, |rec: EdgeRecView| edge_touches(rec.edge, ids));
    lemma_filter_keep(m.vertex_props, |p: VertexPropView| ids.contains(p.id));
    lemma_filter_keep(m.edge_props, |p: EdgePropView| edge_touches(p.edge, ids));
    assert forall|i: int, j: int| 0 <= i < j < m2.vertices.len() implies m2.vertices[i].id
        < m2.vertices[j].id by {
        let (i1, i2) = choose|i1: int, i2: int|
            0 <= i1 < i2 < m.vertices.len() && m.vertices[i1] == m2.vertices[i] && m.vertices[i2]
                == m2.vertices[j];
        assert(m.vertices[i1].id < m.vertices[i2].id);
    }
    assert forall|i: int| 0 <= i < m2.vertices.len() implies 0 < #[trigger] m2.vertices[i].id
        < m2.next_id by {
        let i1 = choose|i1: int| 0 <= i1 < m.vertices.len() && m.vertices[i1] == m2.vertices[i];
        assert(0 < m.vertices[i1].id < m.next_id);
    }
    assert forall|i: int, j: int| 0 <= i < j < m2.edges.len() implies m2.edges[i].ts
        < m2.edges[j].ts by {
        let (i1, i2) = choose|i1: int, i2: int|
            0 <= i1 < i2 < m.edges.len() && m.edges[i1] == m2.edges[i] && m.edges[i2]
                == m2.edges[j];
        assert(m.edges[i1].ts < m.edges[i2].ts);
    }
    assert forall|i: int| 0 <= i < m2.edges.len() implies #[trigger] m2.edges[i].ts
        < m2.next_ts by {
        let i1 = choose|i1: int| 0 <= i1 < m.edges.len() && m.edges[i1] == m2.edges[i];
        assert(m.edges[i1].ts < m.next_ts);
    }
    assert forall|i: int, j: int|
        0 <= i < m2.edges.len() && 0 <= j < m2.edges.len() && i != j implies m2.edges[i].edge
            != m2.edges[j].edge by {
        if i < j {
            let (i1, i2) = choose|i1: int, i2: int|
                0 <= i1 < i2 < m.edges.len() && m.edges[i1] == m2.edges[i] && m.edges[i2]
                    == m2.edges[j];
            assert(m.edges[i1].edge != m.edges[i2].edge);
        } else {
            let (i1, i2) = choose|i1: int, i2: int|
                0 <= i1 < i2 < m.edges.len() && m.edges[i1] == m2.edges[j] && m.edges[i2]
                    == m2.edges[i];
            assert(m.edges[i1].edge != m.edges[i2].edge);
        }
    }
    assert forall|id: u64| has_vertex(m, id) && !ids.contains(id) implies has_vertex(
        m2,
        id,
    ) by {
        let w = choose|w: int| 0 <= w < m.vertices.len() && m.vertices[w].id == id;
        assert(m2.vertices.contains(m.vertices[w]));
        let k = choose|k: int| 0 <= k < m2.vertices.len() && m2.vertices[k] == m.vertices[w];
        assert(m2.vertices[k].id == id);
    }
    assert forall|i: int| 0 <= i < m2.edges.len() implies has_vertex(
        m2,
        #[trigger] m2.edges[i].edge.outbound_id,
    ) && has_vertex(m2, m2.edges[i].edge.inbound_id) by {
        let i1 = choose|i1: int| 0 <= i1 < m.edges.len() && m.edges[i1] == m2.edges[i];
        assert(has_vertex(m, m.edges[i1].edge.outbound_id));
        assert(has_vertex(m, m.edges[i1].edge.inbound_id));
        assert(!edge_touches(m2.edges[i].edge, ids));
    }
    assert forall|i: int, j: int|
        0 <= i < m2.vertex_props.len() && 0 <= j < m2.vertex_props.len() && i != j implies !(
        m2.vertex_props[i].id == m2.vertex_props[j].id && m2.vertex_props[i].name
            == m2.vertex_props[j].name) by {
        if i < j {
            let (i1, i2) = choose|i1: int, i2: int|
                0 <= i1 < i2 < m.vertex_props.len() && m.vertex_props[i1] == m2.vertex_props[i]
                    && m.vertex_props[i2] == m2.vertex_props[j];
        } else {
            let (i1, i2) = choose|i1: int, i2: int|
                0 <= i1 < i2 < m.vertex_props.len() && m.vertex_props[i1] == m2.vertex_props[j]
                    && m.vertex_props[i2] == m2.vertex_props[i];
        }
    }
    assert forall|i: int| 0 <= i < m2.vertex_props.len() implies has_vertex(
        m2,
        #[trigger] m2.vertex_props[i].id,
    ) by {
        let i1 = choose|i1: int|
            0 <= i1 < m.vertex_props.len() && m.vertex_props[i1] == m2.vertex_props[i];
        assert(has_vertex(m, m.vertex_props[i1].id));
        assert(!ids.contains(m2.vertex_props[i].id));
    }
    assert forall|i: int, j: int|
        0 <= i < m2.edge_props.len() && 0 <= j < m2.edge_props.len() && i != j implies !(
        m2.edge_props[i].edge == m2.edge_props[j].edge && m2.edge_props[i].name
            == m2.edge_props[j].name) by {
        if i < j {
            let (i1, i2) = choose|i1: int, i2: int|
                0 <= i1 < i2 < m.edge_props.len() && m.edge_props[i1] == m2.edge_props[i]
                    && m.edge_props[i2] == m2.edge_props[j];
        } else {
            let (i1, i2) = choose|i1: int, i2: int|
                0 <= i1 < i2 < m.edge_props.len() && m.edge_props[i1] == m2.edge_props[j]
                    && m.edge_props[i2] == m2.edge_props[i];
        }
    }
    assert forall|i: int| 0 <= i < m2.edge_props.len() implies has_edge(
        m2,
        #[trigger] m2.edge_props[i].edge,
    ) by {
        let i1 = choose|i1: int|
            0 <= i1 < m.edge_props.len() && m.edge_props[i1] == m2.edge_props[i];
        assert(has_edge(m, m.edge_props[i1].edge));
        let w = choose|w: int|
            0 <= w < m.edges.len() && m.edges[w].edge == m.edge_props[i1].edge;
        assert(!edge_touches(m.edges[w].edge, ids));
        assert(m2.edges.contains(m.edges[w]));
        let k = choose|k: int| 0 <= k < m2.edges.len() && m2.edges[k] == m.edges[w];
        assert(m2.edges[k].edge == m2.edge_props[i].edge);
    }
}

/// Deleting edges preserves well-formedness: the triples and their
/// property rows go together.
pub proof fn lemma_delete_edges_wf(m: GraphModel, sel: Seq<EdgeView>)
    requires
        wf(m),
    ensures
        wf(delete_edges_model(m, sel)),
{
    let m2 = delete_edges_model(m, sel);
    lemma_filter_keep(m.edges, |rec: EdgeRecView| sel.contains(rec.edge));
    lemma_filter_keep(m.edge_props, |p: EdgePropView| sel.contains(p.edge));
    assert forall|i: int, j: int| 0 <= i < j < m2.edges.len() implies m2.edges[i].ts
        < m2.edges[j].ts by {
        let (i1, i2) = choose|i1: int, i2: int|
            0 <= i1 < i2 < m.edges.len() && m.edges[i1] == m2.edges[i] && m.edges[i2]
                == m2.edges[j];
        assert(m.edges[i1].ts < m.edges[i2].ts);
    }
    assert forall|i: int| 0 <= i < m2.edges.len() implies #[trigger] m2.edges[i].ts
        < m2.next_ts by {
        let i1 = choose|i1: int| 0 <= i1 < m.edges.len() && m.edges[i1] == m2.edges[i];
        assert(m.edges[i1].ts < m.next_ts);
    }
    assert forall|i: int, j: int|
        0 <= i < m2.edges.len() && 0 <= j < m2.edges.len() && i != j implies m2.edges[i].edge
            != m2.edges[j].edge by {
        if i < j {
            let (i1, i2) = choose|i1: int, i2: int|
                0 <= i1 < i2 < m.edges.len() && m.edges[i1] == m2.edges[i] && m.edges[i2]
                    == m2.edges[j];
            assert(m.edges[i1].edge != m.edges[i2].edge);
        } else {
            let (i1, i2) = choose|i1: int, i2: int|
                0 <= i1 < i2 < m.edges.len() && m.edges[i1] == m2.edges[j] && m.edges[i2]
                    == m2.edges[i];
            assert(m.edges[i1].edge != m.edges[i2].edge);
        }
    }
    assert forall|id: u64| has_vertex(m, id) implies has_vertex(m2, id) by {
        let w = choose|w: int| 0 <= w < m.vertices.len() && m.vertices[w].id == id;
        assert(m2.vertices[w].id == id);
    }
    assert forall|i: int| 0 <= i < m2.edges.len() implies has_vertex(
        m2,
        #[trigger] m2.edges[i].edge.outbound_id,
    ) && has_vertex(m2, m2.edges[i].edge.inbound_id) by {
        let i1 = choose|i1: int| 0 <= i1 < m.edges.len() && m.edges[i1] == m2.edges[i];
        assert(has_vertex(m, m.edges[i1].edge.outbound_id));
        assert(has_vertex(m, m.edges[i1].edge.inbound_id));
    }
    assert forall|i: int| 0 <= i < m2.vertex_props.len() implies has_vertex(
        m2,
        #[trigger] m2.vertex_props[i].id,
    ) by {
        assert(has_vertex(m, m.vertex_props[i].id));
    }
    assert forall|i: int, j: int|
        0 <= i < m2.edge_props.len() && 0 <= j < m2.edge_props.len() && i != j implies !(
        m2.edge_props[i].edge == m2.edge_props[j].edge && m2.edge_props[i].name
            == m2.edge_props[j].name) by {
        if i < j {
            let (i1, i2) = choose|i1: int, i2: int|
                0 <= i1 < i2 < m.edge_props.len() && m.edge_props[i1] == m2.edge_props[i]
                    && m.edge_props[i2] == m2.edge_props[j];
        } else {
            let (i1, i2) = choose|i1: int, i2: int|
                0 <= i1 < i2 < m.edge_props.len() && m.edge_props[i1] == m2.edge_props[j]
                    && m.edge_props[i2] == m2.edge_props[i];
        }
    }
    assert forall|i: int| 0 <= i < m2.edge_props.len() implies has_edge(
        m2,
        #[trigger] m2.edge_props[i].edge,
    ) by {
        let i1 = choose|i1: int|
            0 <= i1 < m.edge_props.len() && m.edge_props[i1] == m2.edge_props[i];
        assert(has_edge(m, m.edge_props[i1].edge));
        assert(!sel.contains(m2.edge_props[i].edge));
        let w = choose|w: int|
            0 <= w < m.edges.len() && m.edges[w].edge == m.edge_props[i1].edge;
        assert(!sel.contains(m.edges[w].edge));
        assert(m2.edges.contains(m.edges[w]));
        let k = choose|k: int| 0 <= k < m2.edges.len() && m2.edges[k] == m.edges[w];
        assert(m2.edges[k].edge == m2.edge_props[i].edge);
    }
}


/// Every row a range selection returns sits in the table it scanned.
pub proof fn lemma_range_sel_member(vs: Seq<VertexView>, start_id: u64, t: Option<Seq<u8>>)
    ensures
        forall|k: int|
            0 <= k < range_sel(vs, start_id, t).len() ==> vs.contains(
                #[trigger] range_sel(vs, start_id, t)[k],
            ),
    decreases vs,
{
    let f = range_sel(vs, start_id, t);
    if vs.len() > 0 {
        let prev = vs.drop_last();
        lemma_range_sel_member(prev, start_id, t);
        let fp = range_sel(prev, start_id, t);
        assert forall|k: int| 0 <= k < f.len() implies vs.contains(#[trigger] f[k]) by {
            if k < fp.len() {
                let i = choose|i: int| 0 <= i < prev.len() && prev[i] == fp[k];
                assert(vs[i] == f[k]);
            } else {
                assert(vs[vs.len() - 1] == f[k]);
            }
        }
    }
}

/// Every vertex a specific selection returns is live.
pub proof fn lemma_specific_sel_live(m: GraphModel, ids: Seq<u64>)
    ensures
        forall|k: int|
            0 <= k < specific_sel(m, ids).len() ==> has_vertex(
                m,
                #[trigger] specific_sel(m, ids)[k].id,
            ),
    decreases ids,
{
    if ids.len() > 0 {
        lemma_specific_sel_live(m, ids.drop_last());
        let f = specific_sel(m, ids);
        let fp = specific_sel(m, ids.drop_last());
        assert forall|k: int| 0 <= k < f.len() implies has_vertex(m, #[trigger] f[k].id) by {
            if k < fp.len() {
                assert(f[k] == fp[k]);
                assert(has_vertex(m, fp[k].id));
            }
        }
    }
}

/// Every vertex a pipe selection returns is live.
pub proof fn lemma_pipe_vertex_sel_live(m: GraphModel, ids: Seq<u64>, t: Option<Seq<u8>>)
    ensures
        forall|k: int|
            0 <= k < pipe_vertex_sel(m, ids, t).len() ==> has_vertex(
                m,
                #[trigger] pipe_vertex_sel(m, ids, t)[k].id,
            ),
    decreases ids,
{
    if ids.len() > 0 {
        lemma_pipe_vertex_sel_live(m, ids.drop_last(), t);
        let f = pipe_vertex_sel(m, ids, t);
        let fp = pipe_vertex_sel(m, ids.drop_last(), t);
        assert forall|k: int| 0 <= k < f.len() implies has_vertex(m, #[trigger] f[k].id) by {
            if k < fp.len() {
                assert(f[k] == fp[k]);
                assert(has_vertex(m, fp[k].id));
            }
        }
    }
}

/// Every vertex a vertex query returns is live.
pub proof fn lemma_eval_vq_live(m: GraphModel, q: VertexQuery)
    ensures
        forall|k: int|
            0 <= k < eval_vq(m, q).len() ==> has_vertex(m, #[trigger] eval_vq(m, q)[k].id),
{
    match q {
        VertexQuery::Range { start_id, t, limit } => {
            lemma_range_sel_member(m.vertices, start_id, opt_view(t));
            let f = range_sel(m.vertices, start_id, opt_view(t));
            assert forall|k: int| 0 <= k < eval_vq(m, q).len() implies has_vertex(
                m,
                #[trigger] eval_vq(m, q)[k].id,
            ) by {
                assert(eval_vq(m, q)[k] == f[k]);
                let i = choose|i: int| 0 <= i < m.vertices.len() && m.vertices[i] == f[k];
                assert(m.vertices[i].id == f[k].id);
            }
        }
        VertexQuery::Specific { ids } => {
            lemma_specific_sel_live(m, ids@);
        }
        VertexQuery::Pipe { inner, direction, t, limit } => {
            let dd = dedup_first(endpoints(eval_eq(m, *inner), direction));
            lemma_pipe_vertex_sel_live(m, dd, opt_view(t));
            let f = pipe_vertex_sel(m, dd, opt_view(t));
            assert forall|k: int| 0 <= k < eval_vq(m, q).len() implies has_vertex(
                m,
                #[trigger] eval_vq(m, q)[k].id,
            ) by {
                assert(eval_vq(m, q)[k] == f[k]);
            }
        }
    }
}

/// Every edge a per-source scan returns is committed.
pub proof fn lemma_scan_desc_live(
    m: GraphModel,
    edges: Seq<EdgeRecView>,
    id: u64,
    direction: EdgeDirection,
    t: Option<Seq<u8>>,
    high: Option<u64>,
    low: Option<u64>,
    limit: u64,
)
    requires
        forall|i: int| 0 <= i < edges.len() ==> has_edge(m, #[trigger] edges[i].edge),
    ensures
        forall|k: int|
            0 <= k < scan_desc(edges, id, direction, t, high, low, limit).len() ==> has_edge(
                m,
                #[trigger] scan_desc(edges, id, direction, t, high, low, limit)[k],
            ),
    decreases edges,
{
    if edges.len() > 0 && limit > 0 {
        let f = scan_desc(edges, id, direction, t, high, low, limit);
        assert forall|i: int| 0 <= i < edges.drop_last().len() implies has_edge(
            m,
            #[trigger] edges.drop_last()[i].edge,
        ) by {
            assert(edges.drop_last()[i] == edges[i]);
            assert(has_edge(m, edges[i].edge));
        }
        if edge_matches(edges.last(), id, direction, t, high, low) {
            lemma_scan_desc_live(
                m,
                edges.drop_last(),
                id,
                direction,
                t,
                high,
                low,
                (limit - 1) as u64,
            );
            let fp = scan_desc(edges.drop_last(), id, direction, t, high, low, (limit - 1) as u64);
            assert forall|k: int| 0 <= k < f.len() implies has_edge(m, #[trigger] f[k]) by {
                if k == 0 {
                    assert(f[k] == edges.last().edge);
                    assert(has_edge(m, edges[edges.len() - 1].edge));
                } else {
                    assert(f[k] == fp[k - 1]);
                    assert(has_edge(m, fp[k - 1]));
                }
            }
        } else {
            lemma_scan_desc_live(m, edges.drop_last(), id, direction, t, high, low, limit);
            let fp = scan_desc(edges.drop_last(), id, direction, t, high, low, limit);
            assert forall|k: int| 0 <= k < f.len() implies has_edge(m, #[trigger] f[k]) by {
                assert(f[k] == fp[k]);
                assert(has_edge(m, fp[k]));
            }
        }
    }
}

/// Every edge an edge pipe returns is committed.
pub proof fn lemma_epipe_live(
    m: GraphModel,
    srcs: Seq<VertexView>,
    direction: EdgeDirection,
    t: Option<Seq<u8>>,
    high: Option<u64>,
    low: Option<u64>,
    limit: u64,
)
    ensures
        forall|k: int|
            0 <= k < epipe(m, srcs, direction, t, high, low, limit).len() ==> has_edge(
                m,
                #[trigger] epipe(m, srcs, direction, t, high, low, limit)[k],
            ),
    decreases srcs,
{
    if srcs.len() > 0 {
        lemma_epipe_live(m, srcs.drop_last(), direction, t, high, low, limit);
        assert forall|i: int| 0 <= i < m.edges.len() implies has_edge(
            m,
            #[trigger] m.edges[i].edge,
        ) by {
        }
        lemma_scan_desc_live(m, m.edges, srcs.last().id, direction, t, high, low, limit);
        let f = epipe(m, srcs, direction, t, high, low, limit);
        let fp = epipe(m, srcs.drop_last(), direction, t, high, low, limit);
        let sc = scan_desc(m.edges, srcs.last().id, direction, t, high, low, limit);
        assert forall|k: int| 0 <= k < f.len() implies has_edge(m, #[trigger] f[k]) by {
            if k < fp.len() {
                assert(f[k] == fp[k]);
                assert(has_edge(m, fp[k]));
            } else {
                assert(f[k] == sc[k - fp.len()]);
                assert(has_edge(m, sc[k - fp.len()]));
            }
        }
    }
}

/// Every edge a specific selection returns is committed.
pub proof fn lemma_specific_edge_sel_live(m: GraphModel, es: Seq<EdgeView>)
    ensures
        forall|k: int|
            0 <= k < specific_edge_sel(m, es).len() ==> has_edge(
                m,
                #[trigger] specific_edge_sel(m, es)[k],
            ),
    decreases es,
{
    if es.len() > 0 {
        lemma_specific_edge_sel_live(m, es.drop_last());
        let f = specific_edge_sel(m, es);
        let fp = specific_edge_sel(m, es.drop_last());
        assert forall|k: int| 0 <= k < f.len() implies has_edge(m, #[trigger] f[k]) by {
            if k < fp.len() {
                assert(f[k] == fp[k]);
                assert(has_edge(m, fp[k]));
            }
        }
    }
}

/// Every edge an edge query returns is committed.
pub proof fn lemma_eval_eq_live(m: GraphModel, q: EdgeQuery)
    ensures
        forall|k: int|
            0 <= k < eval_eq(m, q).len() ==> has_edge(m, #[trigger] eval_eq(m, q)[k]),
{
    match q {
        EdgeQuery::Specific { edges } => {
            lemma_specific_edge_sel_live(m, edge_views(edges@));
        }
        EdgeQuery::Pipe { inner, direction, t, limit, high, low } => {
            lemma_epipe_live(m, eval_vq(m, *inner), direction, opt_view(t), high, low, limit);
        }
    }
}

/// Replacing the vertex property table preserves well-formedness when the
/// new table is unique per key and every row's owner is live.
pub proof fn lemma_vprops_replaced_wf(m: GraphModel, ps2: Seq<VertexPropView>)
    requires
        wf(m),
        forall|i: int, j: int|
            0 <= i < ps2.len() && 0 <= j < ps2.len() && i != j ==> !(ps2[i].id == ps2[j].id
                && ps2[i].name == ps2[j].name),
        forall|i: int| 0 <= i < ps2.len() ==> has_vertex(m, #[trigger] ps2[i].id),
    ensures
        wf(GraphModel { vertex_props: ps2, ..m }),
{
    let m2 = GraphModel { vertex_props: ps2, ..m };
    assert forall|id: u64| has_vertex(m, id) implies has_vertex(m2, id) by {
        let w = choose|w: int| 0 <= w < m.vertices.len() && m.vertices[w].id == id;
        assert(m2.vertices[w].id == id);
    }
    assert forall|e: EdgeView| has_edge(m, e) implies has_edge(m2, e) by {
        let w = choose|w: int| 0 <= w < m.edges.len() && m.edges[w].edge == e;
        assert(m2.edges[w].edge == e);
    }
    assert forall|i: int| 0 <= i < m2.edges.len() implies has_vertex(
        m2,
        #[trigger] m2.edges[i].edge.outbound_id,
    ) && has_vertex(m2, m2.edges[i].edge.inbound_id) by {
        assert(has_vertex(m, m.edges[i].edge.outbound_id));
        assert(has_vertex(m, m.edges[i].edge.inbound_id));
    }
    assert forall|i: int| 0 <= i < m2.vertex_props.len() implies has_vertex(
        m2,
        #[trigger] m2.vertex_props[i].id,
    ) by {
        assert(has_vertex(m, ps2[i].id));
    }
    assert forall|i: int| 0 <= i < m2.edge_props.len() implies has_edge(
        m2,
        #[trigger] m2.edge_props[i].edge,
    ) by {
        assert(has_edge(m, m.edge_props[i].edge));
    }
}

/// Replacing the edge property table preserves well-formedness when the
/// new table is unique per key and every row's edge is committed.
pub proof fn lemma_eprops_replaced_wf(m: GraphModel, ps2: Seq<EdgePropView>)
    requires
        wf(m),
        forall|i: int, j: int|
            0 <= i < ps2.len() && 0 <= j < ps2.len() && i != j ==> !(ps2[i].edge == ps2[j].edge
                && ps2[i].name == ps2[j].name),
        forall|i: int| 0 <= i < ps2.len() ==> has_edge(m, #[trigger] ps2[i].edge),
    ensures
        wf(GraphModel { edge_props: ps2, ..m }),
{
    let m2 = GraphModel { edge_props: ps2, ..m };
    assert forall|id: u64| has_vertex(m, id) implies has_vertex(m2, id) by {
        let w = choose|w: int| 0 <= w < m.vertices.len() && m.vertices[w].id == id;
        assert(m2.vertices[w].id == id);
    }
    assert forall|e: EdgeView| has_edge(m, e) implies has_edge(m2, e) by {
        let w = choose|w: int| 0 <= w < m.edges.len() && m.edges[w].edge == e;
        assert(m2.edges[w].edge == e);
    }
    assert forall|i: int| 0 <= i < m2.edges.len() implies has_vertex(
        m2,
        #[trigger] m2.edges[i].edge.outbound_id,
    ) && has_vertex(m2, m2.edges[i].edge.inbound_id) by {
        assert(has_vertex(m, m.edges[i].edge.outbound_id));
        assert(has_vertex(m, m.edges[i].edge.inbound_id));
    }
    assert forall|i: int| 0 <= i < m2.vertex_props.len() implies has_vertex(
        m2,
        #[trigger] m2.vertex_props[i].id,
    ) by {
        assert(has_vertex(m, m.vertex_props[i].id));
    }
    assert forall|i: int| 0 <= i < m2.edge_props.len() implies has_edge(
        m2,
        #[trigger] m2.edge_props[i].edge,
    ) by {
        assert(has_edge(m, ps2[i].edge));
    }
}

} // verus!
