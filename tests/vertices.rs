use property_graph::graph::{Graph, Vertex};

#[test]
fn vertex_ids_are_random_version_four() {
    let v = Vertex::default();
    assert_eq!((v.id >> 76) & 0xf, 4);
    assert_eq!((v.id >> 62) & 3, 2);
    assert!(v.label.is_none());
    assert!(v.properties.is_empty());
    let w = Vertex::default();
    assert_ne!(v.id, w.id);
}

#[test]
fn built_vertices_get_distinct_ids() {
    let mut g = Graph::new();
    let a = g.add_v().build();
    let b = g.add_v().build();
    assert_eq!(g.vertex_count(), 2);
    assert_ne!(g.vertex(a).id, g.vertex(b).id);
    assert_eq!((g.vertex(a).id >> 76) & 0xf, 4);
}

#[test]
fn later_property_replaces_earlier() {
    let mut g = Graph::new();
    let a = g.add_v().label("person").property("age", "22").property("age", "23").property("name", "T").build();
    let v = g.vertex(a);
    assert_eq!(v.label, Some("person".to_string()));
    assert_eq!(v.property(&"age".to_string()), Some(&"23".to_string()));
    assert_eq!(v.property(&"name".to_string()), Some(&"T".to_string()));
    assert_eq!(v.property(&"job".to_string()), None);
    assert_eq!(v.properties.len(), 2);
    assert_eq!(g.v(None).has("age", "23").execute(), Ok(vec![a]));
    assert_eq!(g.v(None).has("age", "22").execute(), Ok(vec![]));
}
