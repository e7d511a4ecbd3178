use indradb::{
    Edge, EdgeQuery, Identifier, Json, JsonNum, JsonValue, MemoryDatastore, VertexQuery,
};

fn vertex_t() -> Identifier {
    Identifier::new("v").unwrap()
}

fn edge_t() -> Identifier {
    Identifier::new("e").unwrap()
}

fn name(s: &str) -> Identifier {
    Identifier::new(s).unwrap()
}

fn ji(v: i64) -> Json {
    Json::new(JsonValue::Num(JsonNum::I64(v)))
}

fn js(s: &str) -> Json {
    Json::new(JsonValue::Str(s.as_bytes().to_vec()))
}

#[test]
fn vertex_properties_upsert_and_delete() {
    let mut ds = MemoryDatastore::new();
    let a = ds.create_vertex(&vertex_t()).unwrap();
    let q = VertexQuery::specific_single(a).property(name("p"));

    // Absent until set: no row, not a null row.
    assert_eq!(ds.get_vertex_properties(&q).unwrap().len(), 0);

    ds.set_vertex_properties(&q, &ji(1)).unwrap();
    let rows = ds.get_vertex_properties(&q).unwrap();
    assert_eq!(rows.len(), 1);
    assert_eq!(rows[0].id, a);
    assert_eq!(rows[0].name, name("p"));
    assert_eq!(rows[0].value, ji(1));

    // Setting again replaces the previous value.
    ds.set_vertex_properties(&q, &js("two")).unwrap();
    let rows = ds.get_vertex_properties(&q).unwrap();
    assert_eq!(rows.len(), 1);
    assert_eq!(rows[0].value, js("two"));

    // Deletion removes it; deleting again is silent.
    ds.delete_vertex_properties(&q).unwrap();
    assert_eq!(ds.get_vertex_properties(&q).unwrap().len(), 0);
    ds.delete_vertex_properties(&q).unwrap();
}

#[test]
fn set_vertex_properties_broadcasts() {
    let mut ds = MemoryDatastore::new();
    let a = ds.create_vertex(&vertex_t()).unwrap();
    let b = ds.create_vertex(&vertex_t()).unwrap();
    let q = VertexQuery::specific(vec![a, b]).property(name("p"));
    ds.set_vertex_properties(&q, &ji(9)).unwrap();
    let rows = ds.get_vertex_properties(&q).unwrap();
    assert_eq!(rows.len(), 2);
    assert_eq!(rows[0].id, a);
    assert_eq!(rows[1].id, b);
    assert_eq!(rows[0].value, ji(9));
    assert_eq!(rows[1].value, ji(9));
}

#[test]
fn get_all_vertex_properties_lists_every_selected_vertex() {
    let mut ds = MemoryDatastore::new();
    let a = ds.create_vertex(&vertex_t()).unwrap();
    let b = ds.create_vertex(&vertex_t()).unwrap();
    ds.set_vertex_properties(&VertexQuery::specific_single(a).property(name("p")), &ji(1))
        .unwrap();
    ds.set_vertex_properties(&VertexQuery::specific_single(a).property(name("q")), &ji(2))
        .unwrap();

    let rows = ds
        .get_all_vertex_properties(&VertexQuery::specific(vec![a, b]))
        .unwrap();
    assert_eq!(rows.len(), 2);
    assert_eq!(rows[0].vertex.id, a);
    assert_eq!(rows[0].props.len(), 2);
    assert_eq!(rows[0].props[0].name, name("p"));
    assert_eq!(rows[0].props[0].value, ji(1));
    assert_eq!(rows[0].props[1].name, name("q"));
    assert_eq!(rows[0].props[1].value, ji(2));
    // A vertex with no properties still gets its row.
    assert_eq!(rows[1].vertex.id, b);
    assert_eq!(rows[1].props.len(), 0);
}

#[test]
fn edge_properties_upsert_and_delete() {
    let mut ds = MemoryDatastore::new();
    let a = ds.create_vertex(&vertex_t()).unwrap();
    let b = ds.create_vertex(&vertex_t()).unwrap();
    let edge = Edge::new(a, edge_t(), b);
    assert!(ds.create_edge(&edge).unwrap());
    let q = EdgeQuery::specific_single(edge.clone()).property(name("p"));

    assert_eq!(ds.get_edge_properties(&q).unwrap().len(), 0);

    ds.set_edge_properties(&q, &ji(5)).unwrap();
    let rows = ds.get_edge_properties(&q).unwrap();
    assert_eq!(rows.len(), 1);
    assert_eq!(rows[0].edge, edge);
    assert_eq!(rows[0].name, name("p"));
    assert_eq!(rows[0].value, ji(5));

    ds.set_edge_properties(&q, &ji(6)).unwrap();
    let rows = ds.get_edge_properties(&q).unwrap();
    assert_eq!(rows.len(), 1);
    assert_eq!(rows[0].value, ji(6));

    ds.delete_edge_properties(&q).unwrap();
    assert_eq!(ds.get_edge_properties(&q).unwrap().len(), 0);
}

#[test]
fn get_all_edge_properties_lists_every_selected_edge() {
    let mut ds = MemoryDatastore::new();
    let a = ds.create_vertex(&vertex_t()).unwrap();
    let b = ds.create_vertex(&vertex_t()).unwrap();
    let c = ds.create_vertex(&vertex_t()).unwrap();
    let e1 = Edge::new(a, edge_t(), b);
    let e2 = Edge::new(a, edge_t(), c);
    assert!(ds.create_edge(&e1).unwrap());
    assert!(ds.create_edge(&e2).unwrap());
    ds.set_edge_properties(&EdgeQuery::specific_single(e1.clone()).property(name("p")), &ji(1))
        .unwrap();

    let rows = ds
        .get_all_edge_properties(&EdgeQuery::specific(vec![e1.clone(), e2.clone()]))
        .unwrap();
    assert_eq!(rows.len(), 2);
    assert_eq!(rows[0].edge, e1);
    assert_eq!(rows[0].props.len(), 1);
    assert_eq!(rows[0].props[0].name, name("p"));
    assert_eq!(rows[0].props[0].value, ji(1));
    assert_eq!(rows[1].edge, e2);
    assert_eq!(rows[1].props.len(), 0);
}

#[test]
fn property_rows_vanish_with_their_owner() {
    let mut ds = MemoryDatastore::new();
    let a = ds.create_vertex(&vertex_t()).unwrap();
    let b = ds.create_vertex(&vertex_t()).unwrap();
    let edge = Edge::new(a, edge_t(), b);
    assert!(ds.create_edge(&edge).unwrap());
    let vq = VertexQuery::specific_single(b).property(name("p"));
    let eq = EdgeQuery::specific_single(edge.clone()).property(name("q"));
    ds.set_vertex_properties(&vq, &ji(1)).unwrap();
    ds.set_edge_properties(&eq, &ji(2)).unwrap();

    ds.delete_vertices(&VertexQuery::specific_single(b)).unwrap();

    assert_eq!(ds.get_vertex_properties(&vq).unwrap().len(), 0);
    assert_eq!(ds.get_edge_properties(&eq).unwrap().len(), 0);
    assert_eq!(
        ds.get_edges(&EdgeQuery::specific_single(edge)).unwrap().len(),
        0
    );
}

#[test]
fn timestamp_window_restricts_piped_edges() {
    let mut ds = MemoryDatastore::new();
    let a = ds.create_vertex(&vertex_t()).unwrap();
    let b = ds.create_vertex(&vertex_t()).unwrap();
    let c = ds.create_vertex(&vertex_t()).unwrap();
    let d = ds.create_vertex(&vertex_t()).unwrap();
    assert!(ds.create_edge(&Edge::new(a, edge_t(), b)).unwrap());
    assert!(ds.create_edge(&Edge::new(a, edge_t(), c)).unwrap());
    assert!(ds.create_edge(&Edge::new(a, edge_t(), d)).unwrap());

    // Stamps ascend from 1 in creation order: 1, 2, 3.
    let windowed = ds
        .get_edges(&VertexQuery::specific_single(a).outbound(10).high(2).low(1))
        .unwrap();
    assert_eq!(windowed.len(), 1);
    assert_eq!(windowed[0].inbound_id, c);
}
