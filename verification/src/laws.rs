use vstd::prelude::*;

verus! {

use crate::model::{
    GraphModel, EdgeRecView, has_vertex, has_edge, wf, specific_sel, scan_desc, epipe,
    incident_sel, edge_count, create_edge_ok, create_edge_model, delete_vertices_model,
    lemma_filter_keep, edge_touches, edge_matches,
};
use crate::models::{EdgeDirection, EdgePropView, EdgeView, VertexPropView, VertexView};

// The laws of the store, stated over the mathematical model that every
// engine operation's contract speaks of.

/// The number of committed copies of a triple.
pub open spec fn triple_count(es: Seq<EdgeRecView>, e: EdgeView) -> nat
    decreases es,
{
    if es.len() == 0 {
        0
    } else {
        triple_count(es.drop_last(), e) + if es.last().edge == e {
            1nat
        } else {
            0nat
        }
    }
}

proof fn lemma_triple_count_absent(es: Seq<EdgeRecView>, e: EdgeView)
    requires
        forall|i: int| 0 <= i < es.len() ==> (#[trigger] es[i].edge) != e,
    ensures
        triple_count(es, e) == 0,
    decreases es,
{
    if es.len() > 0 {
        assert(forall|i: int|
            0 <= i < es.drop_last().len() ==> (#[trigger] es.drop_last()[i]) == es[i]);
        lemma_triple_count_absent(es.drop_last(), e);
    }
}

proof fn lemma_triple_count_unique(es: Seq<EdgeRecView>, e: EdgeView)
    requires
        forall|i: int, j: int|
            0 <= i < es.len() && 0 <= j < es.len() && i != j ==> es[i].edge != es[j].edge,
        exists|i: int| 0 <= i < es.len() && (#[trigger] es[i].edge) == e,
    ensures
        triple_count(es, e) == 1,
    decreases es,
{
    let w = choose|i: int| 0 <= i < es.len() && (#[trigger] es[i].edge) == e;
    assert(forall|i: int|
        0 <= i < es.drop_last().len() ==> (#[trigger] es.drop_last()[i]) == es[i]);
    if w == es.len() - 1 {
        assert(forall|i: int|
            0 <= i < es.drop_last().len() ==> (#[trigger] es.drop_last()[i].edge) != e);
        lemma_triple_count_absent(es.drop_last(), e);
    } else {
        assert(es.last().edge != e);
        assert(es.drop_last()[w].edge == e);
        lemma_triple_count_unique(es.drop_last(), e);
    }
}

/// Law: both endpoints of every committed edge are live, so a specific
/// vertex query for either endpoint returns exactly that vertex.
pub proof fn lemma_edge_endpoints_resolvable(m: GraphModel, k: int)
    requires
        wf(m),
        0 <= k < m.edges.len(),
    ensures
        specific_sel(m, seq![m.edges[k].edge.outbound_id]).len() == 1,
        specific_sel(m, seq![m.edges[k].edge.inbound_id]).len() == 1,
{
    let s1 = seq![m.edges[k].edge.outbound_id];
    let s2 = seq![m.edges[k].edge.inbound_id];
    assert(s1.len() == 1 && s1.last() == m.edges[k].edge.outbound_id);
    assert(s2.len() == 1 && s2.last() == m.edges[k].edge.inbound_id);
    assert(s1.drop_last() =~= Seq::<u64>::empty());
    assert(s2.drop_last() =~= Seq::<u64>::empty());
    assert(has_vertex(m, m.edges[k].edge.outbound_id));
    assert(has_vertex(m, m.edges[k].edge.inbound_id));
    assert(specific_sel(m, s1.drop_last()).len() == 0);
    assert(specific_sel(m, s2.drop_last()).len() == 0);
}

proof fn lemma_scan_len_unbounded(
    edges: Seq<EdgeRecView>,
    id: u64,
    direction: EdgeDirection,
    t: Option<Seq<u8>>,
    limit: u64,
)
    requires
        limit >= edges.len(),
    ensures
        scan_desc(edges, id, direction, t, None, None, limit).len() == incident_sel(
            edges,
            id,
            t,
            direction,
        ).len(),
    decreases edges,
{
    if edges.len() > 0 {
        if edge_matches(edges.last(), id, direction, t, None, None) {
            lemma_scan_len_unbounded(edges.drop_last(), id, direction, t, (limit - 1) as u64);
        } else {
            lemma_scan_len_unbounded(edges.drop_last(), id, direction, t, limit);
        }
    }
}

/// Law: the edge count at a vertex equals the length of an unbounded,
/// unfiltered edge pipe from that single vertex, in either direction. The
/// pipe's cap cannot bind, as a table never holds more rows than the
/// largest length.
pub proof fn lemma_count_matches_pipe(
    m: GraphModel,
    v: VertexView,
    t: Option<Seq<u8>>,
    direction: EdgeDirection,
)
    requires
        m.edges.len() <= u64::MAX,
    ensures
        edge_count(m, v.id, t, direction) == epipe(
            m,
            seq![v],
            direction,
            t,
            None,
            None,
            u64::MAX,
        ).len(),
{
    let s = seq![v];
    assert(s.len() == 1 && s.last() == v);
    assert(s.drop_last() =~= Seq::<VertexView>::empty());
    assert(epipe(m, s.drop_last(), direction, t, None, None, u64::MAX) =~= Seq::<
        EdgeView,
    >::empty());
    assert(epipe(m, s, direction, t, None, None, u64::MAX) =~= scan_desc(
        m.edges,
        v.id,
        direction,
        t,
        None,
        None,
        u64::MAX,
    ));
    lemma_scan_len_unbounded(m.edges, v.id, direction, t, u64::MAX);
}

/// Law: creating the same edge twice reports success both times and
/// leaves exactly one committed copy of the triple; the second creation
/// changes nothing at all.
pub proof fn lemma_create_edge_idempotent(m: GraphModel, e: EdgeView)
    requires
        wf(m),
        create_edge_ok(m, e),
    ensures
        ({
            let m1 = create_edge_model(m, e);
            let m2 = create_edge_model(m1, e);
            &&& create_edge_ok(m1, e)
            &&& m2 == m1
            &&& triple_count(m1.edges, e) == 1
        }),
{
    let m1 = create_edge_model(m, e);
    assert forall|id: u64| has_vertex(m, id) implies has_vertex(m1, id) by {
        let w = choose|w: int| 0 <= w < m.vertices.len() && m.vertices[w].id == id;
        assert(m1.vertices[w].id == id);
    }
    if has_edge(m, e) {
        assert(m1 == m);
        lemma_triple_count_unique(m1.edges, e);
    } else {
        assert(m1.edges.last().edge == e);
        assert(has_edge(m1, e));
        assert forall|i: int, j: int|
            0 <= i < m1.edges.len() && 0 <= j < m1.edges.len() && i != j implies m1.edges[i].edge
                != m1.edges[j].edge by {
            if i < m1.edges.len() - 1 && j < m1.edges.len() - 1 {
                assert(m1.edges[i] == m.edges[i] && m1.edges[j] == m.edges[j]);
            } else {
                assert(!has_edge(m, e));
            }
        }
        lemma_triple_count_unique(m1.edges, e);
    }
    assert(has_edge(m1, e));
    assert(create_edge_model(m1, e) == m1);
}

/// Law: after deleting a set of vertices, no vertex with a listed id is
/// live, no committed edge touches a listed id on either side, and no
/// property row of a vertex or of an edge is keyed by a listed id.
pub proof fn lemma_delete_cascade(m: GraphModel, ids: Seq<u64>)
    ensures
        ({
            let m2 = delete_vertices_model(m, ids);
            &&& forall|i: int|
                0 <= i < m2.vertices.len() ==> !ids.contains(#[trigger] m2.vertices[i].id)
            &&& forall|i: int|
                0 <= i < m2.edges.len() ==> !ids.contains(
                    #[trigger] m2.edges[i].edge.outbound_id,
                ) && !ids.contains(m2.edges[i].edge.inbound_id)
            &&& forall|i: int|
                0 <= i < m2.vertex_props.len() ==> !ids.contains(
                    #[trigger] m2.vertex_props[i].id,
                )
            &&& forall|i: int|
                0 <= i < m2.edge_props.len() ==> !ids.contains(
                    #[trigger] m2.edge_props[i].edge.outbound_id,
                ) && !ids.contains(m2.edge_props[i].edge.inbound_id)
        }),
{
    lemma_filter_keep(m.vertices, |v: VertexView| ids.contains(v.id));
    lemma_filter_keep(m.edges, |rec: EdgeRecView| edge_touches(rec.edge, ids));
    lemma_filter_keep(m.vertex_props, |p: VertexPropView| ids.contains(p.id));
    lemma_filter_keep(m.edge_props, |p: EdgePropView| edge_touches(p.edge, ids));
}

proof fn lemma_scan_bounded(
    edges: Seq<EdgeRecView>,
    id: u64,
    direction: EdgeDirection,
    t: Option<Seq<u8>>,
    high: Option<u64>,
    low: Option<u64>,
    limit: u64,
)
    ensures
        scan_desc(edges, id, direction, t, high, low, limit).len() <= limit,
    decreases edges,
{
    if edges.len() > 0 && limit > 0 {
        if edge_matches(edges.last(), id, direction, t, high, low) {
            lemma_scan_bounded(edges.drop_last(), id, direction, t, high, low, (limit - 1) as u64);
        } else {
            lemma_scan_bounded(edges.drop_last(), id, direction, t, high, low, limit);
        }
    }
}

/// Law: an edge pipe returns at most `limit` edges per source vertex, so
/// its whole result holds at most `limit` times the number of source
/// vertices.
pub proof fn lemma_pipe_limit(
    m: GraphModel,
    srcs: Seq<VertexView>,
    direction: EdgeDirection,
    t: Option<Seq<u8>>,
    high: Option<u64>,
    low: Option<u64>,
    limit: u64,
)
    ensures
        epipe(m, srcs, direction, t, high, low, limit).len() <= limit * srcs.len(),
    decreases srcs,
{
    if srcs.len() == 0 {
    } else {
        lemma_pipe_limit(m, srcs.drop_last(), direction, t, high, low, limit);
        lemma_scan_bounded(m.edges, srcs.last().id, direction, t, high, low, limit);
        assert(limit * (srcs.len() - 1) + limit == limit * srcs.len()) by (nonlinear_arith);
    }
}

} // verus!
