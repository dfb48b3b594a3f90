use property_graph::graph::{Edge, EdgeError, Graph};
use property_graph::traversal::{apply_step, expand, expand_all, find_one, Step, Traversal, TraversalError};

struct Movies {
    g: Graph,
    a: usize,
    b: usize,
    c: usize,
}

fn movies() -> Movies {
    let mut g = Graph::new();
    let a = g.add_v().property("type", "movie").build();
    let b = g.add_v().property("type", "movie").build();
    let c = g.add_v().property("job", "actor").build();
    g.add_e("acted_in").source(c).destination(a).build().unwrap();
    Movies { g, a, b, c }
}

fn edge(label: &str, source: usize, destination: usize) -> Edge {
    Edge { label: label.to_string(), source, destination }
}

#[test]
fn seed_one_yields_exactly_that_vertex() {
    let mut g = Graph::new();
    let x = g.add_v().property("k", "1").build();
    let y = g.add_v().property("k", "1").build();
    let z = g.add_v().build();
    assert_eq!(g.v(Some(x)).execute(), Ok(vec![x]));
    assert_eq!(g.v(Some(y)).execute(), Ok(vec![y]));
    assert_eq!(g.v(Some(z)).execute(), Ok(vec![z]));
}

#[test]
fn seed_one_on_unknown_vertex_is_empty() {
    let m = movies();
    assert_eq!(m.g.v(Some(9)).execute(), Ok(vec![]));
    assert_eq!(m.g.v(Some(9)).out().execute(), Ok(vec![]));
}

#[test]
fn seed_all_yields_vertices_in_insertion_order() {
    let m = movies();
    assert_eq!(m.g.v(None).execute(), Ok(vec![m.a, m.b, m.c]));
    assert_eq!(m.g.v(None).execute(), Ok(vec![0, 1, 2]));
}

#[test]
fn property_filter_twice_equals_once() {
    let m = movies();
    let once = m.g.v(None).has("type", "movie").execute();
    let twice = m.g.v(None).has("type", "movie").has("type", "movie").execute();
    assert_eq!(once, Ok(vec![m.a, m.b]));
    assert_eq!(twice, once);
}

#[test]
fn property_filter_needs_exact_value() {
    let m = movies();
    assert_eq!(m.g.v(None).has("type", "movi").execute(), Ok(vec![]));
    assert_eq!(m.g.v(None).has("job", "actor").execute(), Ok(vec![m.c]));
    assert_eq!(m.g.v(None).has("missing", "").execute(), Ok(vec![]));
}

#[test]
fn out_then_in_is_not_a_round_trip() {
    let mut g = Graph::new();
    let a = g.add_v().build();
    let b = g.add_v().build();
    let c = g.add_v().build();
    g.add_e("x").source(a).destination(b).build().unwrap();
    g.add_e("y").source(c).destination(b).build().unwrap();
    let back = g.v(Some(a)).out().in_().execute();
    assert_eq!(back, Ok(vec![a, c]));
    assert_ne!(back, Ok(vec![a]));
}

#[test]
fn expansion_keeps_repeats() {
    let mut g = Graph::new();
    let a = g.add_v().build();
    let b = g.add_v().build();
    let c = g.add_v().build();
    g.add_e("p").source(a).destination(b).build().unwrap();
    g.add_e("q").source(a).destination(c).build().unwrap();
    g.add_e("r").source(a).destination(b).build().unwrap();
    assert_eq!(g.v(Some(a)).out().execute(), Ok(vec![b, c, b]));
    assert_eq!(g.v(None).in_().execute(), Ok(vec![a, a, a]));
    assert_eq!(g.v(None).out().out().execute(), Ok(vec![]));
}

#[test]
fn edge_queries_are_edges_of_the_graph() {
    let m = movies();
    let all = m.g.e().clone();
    for t in [m.g.v(None), m.g.v(Some(m.a)), m.g.v(Some(m.c))] {
        for e in t.in_e().unwrap().iter().chain(t.out_e().unwrap().iter()) {
            assert!(all.contains(e));
        }
    }
}

#[test]
fn movies_scenario() {
    let m = movies();
    assert_eq!(m.g.v(None).has("type", "movie").execute(), Ok(vec![m.a, m.b]));
    assert_eq!(m.g.v(None).has("type", "movie").in_e(), Ok(vec![edge("acted_in", m.c, m.a)]));
    assert_eq!(m.g.v(None).has("type", "movie").out_e(), Ok(vec![]));
    assert_eq!(m.g.v(None).has("type", "movie").in_().execute(), Ok(vec![m.c]));
    assert_eq!(m.g.v(None).has("type", "movie").out().execute(), Ok(vec![]));
}

#[test]
fn empty_graph_execution_is_an_error() {
    let g = Graph::new();
    assert_eq!(g.v(None).execute(), Err(TraversalError::EmptyGraph));
    assert_eq!(g.v(Some(0)).execute(), Err(TraversalError::EmptyGraph));
    assert_eq!(g.v(None).in_e(), Err(TraversalError::EmptyGraph));
    assert_eq!(g.v(None).out_e(), Err(TraversalError::EmptyGraph));
}

#[test]
fn unresolved_destination_leaves_edges_unchanged() {
    let mut m = movies();
    let before = m.g.e().len();
    assert_eq!(m.g.add_e("x").source(m.a).build(), Err(EdgeError::UnresolvedDestination));
    assert_eq!(m.g.add_e("x").source(m.a).destination(42).build(), Err(EdgeError::UnresolvedDestination));
    assert_eq!(m.g.e().len(), before);
}

#[test]
fn unresolved_source_leaves_edges_unchanged() {
    let mut m = movies();
    assert_eq!(m.g.add_e("x").destination(m.a).build(), Err(EdgeError::UnresolvedSource));
    assert_eq!(m.g.add_e("x").source(7).destination(42).build(), Err(EdgeError::UnresolvedSource));
    assert_eq!(m.g.e().len(), 1);
}

#[test]
fn added_edge_is_returned_and_stored() {
    let mut m = movies();
    let e = m.g.add_e("likes").source(m.b).destination(m.c).build();
    assert_eq!(e, Ok(edge("likes", m.b, m.c)));
    assert_eq!(m.g.e().len(), 2);
    assert_eq!(m.g.e()[1], edge("likes", m.b, m.c));
}

#[test]
fn pipeline_built_from_steps() {
    let m = movies();
    let t = Traversal::new(&m.g, vec![expand_all(), Step::HasProperty("job".to_string(), "actor".to_string()), expand()]);
    assert_eq!(t.execute(), Ok(vec![m.a]));
    let bare = Traversal::new(&m.g, vec![]);
    assert_eq!(bare.execute(), Ok(vec![0]));
    let seeded = Traversal::new(&m.g, vec![find_one(m.b)]);
    assert_eq!(seeded.execute(), Ok(vec![m.b]));
}

#[test]
fn single_steps() {
    let m = movies();
    assert_eq!(apply_step(&m.g, &Step::In, vec![m.a, m.b, m.a]), vec![m.c, m.c]);
    assert_eq!(apply_step(&m.g, &Step::Out, vec![m.c]), vec![m.a]);
    assert_eq!(apply_step(&m.g, &Step::SeedAll, vec![]), vec![0, 1, 2]);
    assert_eq!(apply_step(&m.g, &Step::SeedOne(1), vec![2, 2]), vec![1]);
    let keep = Step::HasProperty("type".to_string(), "movie".to_string());
    assert_eq!(apply_step(&m.g, &keep, vec![m.c, m.b, 17, m.b]), vec![m.b, m.b]);
}
