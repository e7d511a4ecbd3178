use indradb::{
    BulkInsertItem, Edge, EdgeDirection, EdgeQuery, Error, Identifier, Json, JsonNum, JsonValue,
    MemoryDatastore, VertexQuery,
};
use std::collections::HashSet;

fn vertex_t() -> Identifier {
    Identifier::new("test_vertex_type").unwrap()
}

fn edge_t() -> Identifier {
    Identifier::new("test_edge_type").unwrap()
}

fn jbool(b: bool) -> Json {
    Json::new(JsonValue::Bool(b))
}

fn ji(v: i64) -> Json {
    Json::new(JsonValue::Num(JsonNum::I64(v)))
}

/// One vertex with five outbound edges of one type; the fixture behind the
/// edge-count and range scenarios.
fn create_edges(ds: &mut MemoryDatastore) -> (u64, Vec<u64>) {
    let outbound_id = ds.create_vertex(&vertex_t()).unwrap();
    let mut inbound_ids = Vec::new();
    for _ in 0..5 {
        let inbound_id = ds.create_vertex(&vertex_t()).unwrap();
        inbound_ids.push(inbound_id);
        let created = ds
            .create_edge(&Edge::new(outbound_id, edge_t(), inbound_id))
            .unwrap();
        assert!(created);
    }
    (outbound_id, inbound_ids)
}

fn check_edge_range(range: &[Edge], expected_outbound_id: u64, expected_length: usize) {
    assert_eq!(range.len(), expected_length);
    let mut covered_ids: HashSet<u64> = HashSet::new();
    for edge in range {
        assert_eq!(edge.outbound_id, expected_outbound_id);
        assert_eq!(edge.t, edge_t());
        assert!(!covered_ids.contains(&edge.inbound_id));
        covered_ids.insert(edge.inbound_id);
    }
}

#[test]
fn identifier_validation() {
    assert!(Identifier::new("abc_DEF-123").is_ok());
    assert_eq!(Identifier::new(""), Err(Error::InvalidValue));
    assert_eq!(Identifier::new("has space"), Err(Error::InvalidValue));
    assert_eq!(Identifier::new("ümlaut"), Err(Error::InvalidValue));
    let long = "a".repeat(255);
    assert!(Identifier::new(&long).is_ok());
    let too_long = "a".repeat(256);
    assert_eq!(Identifier::new(&too_long), Err(Error::InvalidValue));
}

#[test]
fn vertex_ids_ascend_from_one() {
    let mut ds = MemoryDatastore::new();
    let a = ds.create_vertex(&vertex_t()).unwrap();
    let b = ds.create_vertex(&vertex_t()).unwrap();
    assert_eq!(a, 1);
    assert_eq!(b, 2);
    assert_eq!(ds.get_vertex_count().unwrap(), 2);
    // Deleting does not make an id available again.
    ds.delete_vertices(&VertexQuery::specific_single(b)).unwrap();
    assert_eq!(ds.get_vertex_count().unwrap(), 1);
    let c = ds.create_vertex(&vertex_t()).unwrap();
    assert_eq!(c, 3);
}

#[test]
fn should_get_a_valid_edge() {
    let mut ds = MemoryDatastore::new();
    let outbound_id = ds.create_vertex(&vertex_t()).unwrap();
    let inbound_id = ds.create_vertex(&vertex_t()).unwrap();
    let edge = Edge::new(outbound_id, edge_t(), inbound_id);
    assert!(ds.create_edge(&edge).unwrap());

    let e = ds
        .get_edges(&EdgeQuery::specific_single(edge))
        .unwrap();
    assert_eq!(e.len(), 1);
    assert_eq!(e[0].outbound_id, outbound_id);
    assert_eq!(e[0].t, edge_t());
    assert_eq!(e[0].inbound_id, inbound_id);
}

#[test]
fn should_not_get_an_invalid_edge() {
    let mut ds = MemoryDatastore::new();
    let outbound_id = ds.create_vertex(&vertex_t()).unwrap();
    let inbound_id = ds.create_vertex(&vertex_t()).unwrap();
    let e = ds
        .get_edges(&EdgeQuery::specific_single(Edge::new(outbound_id, edge_t(), 0)))
        .unwrap();
    assert_eq!(e.len(), 0);
    let e = ds
        .get_edges(&EdgeQuery::specific_single(Edge::new(0, edge_t(), inbound_id)))
        .unwrap();
    assert_eq!(e.len(), 0);
}

#[test]
fn should_create_a_valid_edge() {
    let mut ds = MemoryDatastore::new();
    let outbound_id = ds.create_vertex(&vertex_t()).unwrap();
    let inbound_id = ds.create_vertex(&vertex_t()).unwrap();
    let edge = Edge::new(outbound_id, edge_t(), inbound_id);

    assert!(ds.create_edge(&edge).unwrap());
    let e = ds
        .get_edges(&EdgeQuery::specific_single(edge.clone()))
        .unwrap();
    assert_eq!(e.len(), 1);
    assert_eq!(edge, e[0]);

    // Creating the triple again must not duplicate it.
    assert!(ds.create_edge(&edge).unwrap());
    let e = ds
        .get_edges(&EdgeQuery::specific_single(edge.clone()))
        .unwrap();
    assert_eq!(e.len(), 1);
    assert_eq!(edge, e[0]);

    let e = ds
        .get_edges(&VertexQuery::specific_single(outbound_id).outbound(10))
        .unwrap();
    assert_eq!(e.len(), 1);
    assert_eq!(edge, e[0]);
}

#[test]
fn should_not_create_an_invalid_edge() {
    let mut ds = MemoryDatastore::new();
    let outbound_id = ds.create_vertex(&vertex_t()).unwrap();
    let key = Edge::new(outbound_id, edge_t(), 0);
    assert_eq!(ds.create_edge(&key).unwrap(), false);
    let e = ds
        .get_edges(&EdgeQuery::specific_single(key))
        .unwrap();
    assert_eq!(e.len(), 0);
}

#[test]
fn should_delete_a_valid_edge() {
    let mut ds = MemoryDatastore::new();
    let outbound_id = ds.create_vertex(&vertex_t()).unwrap();
    let inbound_id = ds.create_vertex(&vertex_t()).unwrap();
    let edge = Edge::new(outbound_id, edge_t(), inbound_id);
    assert!(ds.create_edge(&edge).unwrap());

    let q = EdgeQuery::specific_single(edge.clone());
    let pq = EdgeQuery::specific_single(edge.clone())
        .property(Identifier::new("foo").unwrap());
    ds.set_edge_properties(&pq, &jbool(true)).unwrap();

    ds.delete_edges(&q).unwrap();
    let e = ds.get_edges(&q).unwrap();
    assert_eq!(e.len(), 0);
    let props = ds.get_edge_properties(&pq).unwrap();
    assert_eq!(props.len(), 0);
}

#[test]
fn should_not_delete_an_invalid_edge() {
    let mut ds = MemoryDatastore::new();
    let outbound_id = ds.create_vertex(&vertex_t()).unwrap();
    ds.delete_edges(&EdgeQuery::specific_single(Edge::new(outbound_id, edge_t(), 0)))
        .unwrap();
    assert_eq!(ds.get_vertex_count().unwrap(), 1);
}

#[test]
fn should_get_an_edge_count() {
    let mut ds = MemoryDatastore::new();
    let (outbound_id, _) = create_edges(&mut ds);
    let t = edge_t();
    let count = ds
        .get_edge_count(outbound_id, Some(&t), EdgeDirection::Outbound)
        .unwrap();
    assert_eq!(count, 5);
}

#[test]
fn should_get_an_edge_count_with_no_type() {
    let mut ds = MemoryDatastore::new();
    let (outbound_id, _) = create_edges(&mut ds);
    let count = ds
        .get_edge_count(outbound_id, None, EdgeDirection::Outbound)
        .unwrap();
    assert_eq!(count, 5);
}

#[test]
fn should_get_an_edge_count_for_an_invalid_edge() {
    let ds = MemoryDatastore::new();
    let t = edge_t();
    let count = ds
        .get_edge_count(0, Some(&t), EdgeDirection::Outbound)
        .unwrap();
    assert_eq!(count, 0);
}

#[test]
fn should_get_an_inbound_edge_count() {
    let mut ds = MemoryDatastore::new();
    let (_, inbound_ids) = create_edges(&mut ds);
    let count = ds
        .get_edge_count(inbound_ids[0], None, EdgeDirection::Inbound)
        .unwrap();
    assert_eq!(count, 1);
}

#[test]
fn should_get_an_edge_range() {
    let mut ds = MemoryDatastore::new();
    let (outbound_id, _) = create_edges(&mut ds);
    let range = ds
        .get_edges(&VertexQuery::specific_single(outbound_id).outbound(10).t(edge_t()))
        .unwrap();
    check_edge_range(&range, outbound_id, 5);
}

#[test]
fn should_get_edges_with_no_type() {
    let mut ds = MemoryDatastore::new();
    let (outbound_id, _) = create_edges(&mut ds);
    let range = ds
        .get_edges(&VertexQuery::specific_single(outbound_id).outbound(10))
        .unwrap();
    check_edge_range(&range, outbound_id, 5);
}

#[test]
fn should_get_edges() {
    let mut ds = MemoryDatastore::new();
    let (outbound_id, inbound_ids) = create_edges(&mut ds);
    let q = EdgeQuery::specific(vec![
        Edge::new(outbound_id, edge_t(), inbound_ids[0]),
        Edge::new(outbound_id, edge_t(), inbound_ids[1]),
        Edge::new(outbound_id, edge_t(), inbound_ids[2]),
        Edge::new(outbound_id, edge_t(), inbound_ids[3]),
        Edge::new(outbound_id, edge_t(), inbound_ids[4]),
    ]);
    let range = ds.get_edges(&q).unwrap();
    check_edge_range(&range, outbound_id, 5);
}

#[test]
fn should_get_edges_piped() {
    let mut ds = MemoryDatastore::new();
    let outbound_id = ds.create_vertex(&vertex_t()).unwrap();
    let inbound_id = ds.create_vertex(&vertex_t()).unwrap();
    assert!(ds
        .create_edge(&Edge::new(outbound_id, edge_t(), inbound_id))
        .unwrap());

    let query_1 = VertexQuery::specific_single(outbound_id)
        .outbound(1)
        .t(edge_t());
    let range = ds.get_edges(&query_1).unwrap();
    assert_eq!(range.len(), 1);
    assert_eq!(range[0], Edge::new(outbound_id, edge_t(), inbound_id));

    let query_2 = VertexQuery::specific_single(outbound_id)
        .outbound(1)
        .t(edge_t())
        .inbound(1)
        .inbound(1)
        .t(edge_t());
    let range = ds.get_edges(&query_2).unwrap();
    assert_eq!(range.len(), 1);
    assert_eq!(range[0], Edge::new(outbound_id, edge_t(), inbound_id));
}

#[test]
fn delete_vertices_cascades() {
    let mut ds = MemoryDatastore::new();
    let (outbound_id, inbound_ids) = create_edges(&mut ds);
    let pq = VertexQuery::specific_single(outbound_id)
        .property(Identifier::new("p").unwrap());
    ds.set_vertex_properties(&pq, &jbool(true)).unwrap();

    ds.delete_vertices(&VertexQuery::specific_single(outbound_id))
        .unwrap();

    // No edge with the deleted vertex on either side remains.
    for inbound_id in &inbound_ids {
        let count = ds
            .get_edge_count(*inbound_id, None, EdgeDirection::Inbound)
            .unwrap();
        assert_eq!(count, 0);
    }
    assert_eq!(
        ds.get_edge_count(outbound_id, None, EdgeDirection::Outbound)
            .unwrap(),
        0
    );
    // No property keyed by the deleted vertex remains.
    assert_eq!(ds.get_vertex_properties(&pq).unwrap().len(), 0);
    // The other vertices are still live.
    assert_eq!(ds.get_vertex_count().unwrap(), 5);
}

#[test]
fn range_queries_ascend_and_respect_limits() {
    let mut ds = MemoryDatastore::new();
    let other_t = Identifier::new("other").unwrap();
    let a = ds.create_vertex(&vertex_t()).unwrap();
    let b = ds.create_vertex(&other_t).unwrap();
    let c = ds.create_vertex(&vertex_t()).unwrap();

    let all = ds.get_vertices(&VertexQuery::range(0, 10)).unwrap();
    assert_eq!(all.iter().map(|v| v.id).collect::<Vec<_>>(), vec![a, b, c]);

    let from_b = ds.get_vertices(&VertexQuery::range(b, 10)).unwrap();
    assert_eq!(from_b.iter().map(|v| v.id).collect::<Vec<_>>(), vec![b, c]);

    let capped = ds.get_vertices(&VertexQuery::range(0, 2)).unwrap();
    assert_eq!(capped.len(), 2);

    let typed = ds
        .get_vertices(&VertexQuery::range(0, 10).t(vertex_t()))
        .unwrap();
    assert_eq!(typed.iter().map(|v| v.id).collect::<Vec<_>>(), vec![a, c]);
    assert_eq!(typed[0].t, vertex_t());
}

#[test]
fn zero_id_lookups_never_succeed() {
    let mut ds = MemoryDatastore::new();
    ds.create_vertex(&vertex_t()).unwrap();
    let vs = ds
        .get_vertices(&VertexQuery::specific_single(0))
        .unwrap();
    assert_eq!(vs.len(), 0);
}

#[test]
fn piped_edges_come_newest_first_per_source() {
    let mut ds = MemoryDatastore::new();
    let a = ds.create_vertex(&vertex_t()).unwrap();
    let b = ds.create_vertex(&vertex_t()).unwrap();
    let c = ds.create_vertex(&vertex_t()).unwrap();
    assert!(ds.create_edge(&Edge::new(a, edge_t(), b)).unwrap());
    assert!(ds.create_edge(&Edge::new(a, edge_t(), c)).unwrap());

    let es = ds
        .get_edges(&VertexQuery::specific_single(a).outbound(10))
        .unwrap();
    assert_eq!(es.len(), 2);
    assert_eq!(es[0].inbound_id, c);
    assert_eq!(es[1].inbound_id, b);

    let capped = ds
        .get_edges(&VertexQuery::specific_single(a).outbound(1))
        .unwrap();
    assert_eq!(capped.len(), 1);
    assert_eq!(capped[0].inbound_id, c);
}

#[test]
fn bulk_insert_creates_and_reports_id_range() {
    let mut ds = MemoryDatastore::new();
    let a = ds.create_vertex(&vertex_t()).unwrap();
    let b = ds.create_vertex(&vertex_t()).unwrap();
    let edge = Edge::new(a, edge_t(), b);

    let items = vec![
        BulkInsertItem::Vertex(vertex_t()),
        BulkInsertItem::Vertex(vertex_t()),
        BulkInsertItem::Edge(edge.clone()),
        BulkInsertItem::VertexProperty(a, Identifier::new("p").unwrap(), ji(7)),
        BulkInsertItem::EdgeProperty(edge.clone(), Identifier::new("q").unwrap(), jbool(true)),
    ];
    let result = ds.bulk_insert(items).unwrap();
    assert_eq!(result.id_range, Some((3, 4)));
    assert_eq!(ds.get_vertex_count().unwrap(), 4);

    let es = ds
        .get_edges(&EdgeQuery::specific_single(edge.clone()))
        .unwrap();
    assert_eq!(es.len(), 1);

    let vp = ds
        .get_vertex_properties(
            &VertexQuery::specific_single(a).property(Identifier::new("p").unwrap()),
        )
        .unwrap();
    assert_eq!(vp.len(), 1);
    assert_eq!(vp[0].value, ji(7));

    let ep = ds
        .get_edge_properties(
            &EdgeQuery::specific_single(edge).property(Identifier::new("q").unwrap()),
        )
        .unwrap();
    assert_eq!(ep.len(), 1);
    assert_eq!(ep[0].value, jbool(true));
}

#[test]
fn bulk_insert_with_no_vertices_reports_no_range() {
    let mut ds = MemoryDatastore::new();
    let a = ds.create_vertex(&vertex_t()).unwrap();
    let b = ds.create_vertex(&vertex_t()).unwrap();
    let items = vec![BulkInsertItem::Edge(Edge::new(a, edge_t(), b))];
    let result = ds.bulk_insert(items).unwrap();
    assert_eq!(result.id_range, None);
}

#[test]
fn hello_world_plugin_greets() {
    let plugin = indradb::HelloWorldPlugin {};
    assert_eq!(plugin.call("\"world\""), "hello, \"world\"");
}

#[test]
fn vertex_pipe_dedups_shared_endpoints() {
    let mut ds = MemoryDatastore::new();
    let a = ds.create_vertex(&vertex_t()).unwrap();
    let b = ds.create_vertex(&vertex_t()).unwrap();
    let c = ds.create_vertex(&vertex_t()).unwrap();
    assert!(ds.create_edge(&Edge::new(a, edge_t(), b)).unwrap());
    assert!(ds.create_edge(&Edge::new(c, edge_t(), b)).unwrap());

    // Both edges end at the same vertex; the pipe reports it once.
    let q = EdgeQuery::specific(vec![
        Edge::new(a, edge_t(), b),
        Edge::new(c, edge_t(), b),
    ])
    .inbound(10);
    let vs = ds.get_vertices(&q).unwrap();
    assert_eq!(vs.len(), 1);
    assert_eq!(vs[0].id, b);
    assert_eq!(vs[0].t, vertex_t());
}

#[test]
fn vertex_pipe_filters_by_type() {
    let mut ds = MemoryDatastore::new();
    let other_t = Identifier::new("other").unwrap();
    let a = ds.create_vertex(&vertex_t()).unwrap();
    let b = ds.create_vertex(&other_t).unwrap();
    assert!(ds.create_edge(&Edge::new(a, edge_t(), b)).unwrap());

    let q = EdgeQuery::specific(vec![Edge::new(a, edge_t(), b)]);
    let outs = ds.get_vertices(&q.outbound(10).t(vertex_t())).unwrap();
    assert_eq!(outs.len(), 1);
    assert_eq!(outs[0].id, a);

    let q = EdgeQuery::specific(vec![Edge::new(a, edge_t(), b)]);
    let none = ds.get_vertices(&q.inbound(10).t(vertex_t())).unwrap();
    assert_eq!(none.len(), 0);
}

#[test]
fn error_messages_name_the_case() {
    assert_eq!(Error::InvalidValue.as_msg(), "invalid value");
    assert_eq!(Error::NotFound.as_msg(), "not found");
    assert_eq!(Error::OutOfRange.as_msg(), "out of range");
}

#[test]
fn json_from_wraps_the_document() {
    let j: Json = JsonValue::Bool(true).into();
    assert_eq!(j, Json::new(JsonValue::Bool(true)));
}
