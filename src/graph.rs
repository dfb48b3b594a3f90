use vstd::prelude::*;

use crate::traversal::{expand_all, find_one, Step, Traversal};

verus! {

/// What a list of `(key, value)` pairs means as a property map: a later pair
/// for a key overrides an earlier one.
pub open spec fn property_map(ps: Seq<(String, String)>) -> Map<Seq<char>, Seq<char>>
    decreases ps.len(),
{
    if ps.len() == 0 {
        Map::empty()
    } else {
        property_map(ps.drop_last()).insert(ps.last().0@, ps.last().1@)
    }
}

/// No key occurs in two pairs.
pub open spec fn keys_unique(ps: Seq<(String, String)>) -> bool {
    forall|i: int, j: int| 0 <= i < j < ps.len() ==> #[trigger] ps[i].0@ != #[trigger] ps[j].0@
}

/// Pairs past position `i` that do not mention `k` leave its entry as the
/// first `i` pairs have it.
proof fn lemma_property_map_prefix(ps: Seq<(String, String)>, i: int, k: Seq<char>)
    requires
        0 <= i <= ps.len(),
        forall|j: int| i <= j < ps.len() ==> ps[j].0@ != k,
    ensures
        property_map(ps).contains_key(k) == property_map(ps.take(i)).contains_key(k),
        property_map(ps).contains_key(k) ==> property_map(ps)[k] == property_map(ps.take(i))[k],
    decreases ps.len(),
{
    if i == ps.len() {
        assert(ps.take(i) =~= ps);
    } else {
        lemma_property_map_prefix(ps.drop_last(), i, k);
        assert(ps.drop_last().take(i) =~= ps.take(i));
    }
}

/// Overwriting the last pair for `k` changes the map at `k` alone.
proof fn lemma_property_map_update(ps: Seq<(String, String)>, i: int, p: (String, String))
    requires
        0 <= i < ps.len(),
        ps[i].0@ == p.0@,
        forall|j: int| i < j < ps.len() ==> ps[j].0@ != p.0@,
    ensures
        property_map(ps.update(i, p)) == property_map(ps).insert(p.0@, p.1@),
    decreases ps.len(),
{
    let qs = ps.update(i, p);
    if i == ps.len() - 1 {
        assert(qs.drop_last() =~= ps.drop_last());
        assert(property_map(qs) =~= property_map(ps).insert(p.0@, p.1@));
    } else {
        lemma_property_map_update(ps.drop_last(), i, p);
        assert(qs.drop_last() =~= ps.drop_last().update(i, p));
        assert(property_map(qs) =~= property_map(ps).insert(p.0@, p.1@));
    }
}

/// The last position of `key` among the pairs, if any.
fn last_position(ps: &Vec<(String, String)>, key: &String) -> (r: Option<usize>)
    ensures
        r is None ==> forall|j: int| 0 <= j < ps@.len() ==> ps@[j].0@ != key@,
        r matches Some(i) ==> i < ps@.len() && ps@[i as int].0@ == key@ && forall|j: int|
            i < j < ps@.len() ==> ps@[j].0@ != key@,
{
    let mut i: usize = ps.len();
    while i > 0
        invariant
            i <= ps@.len(),
            forall|j: int| i <= j < ps@.len() ==> ps@[j].0@ != key@,
        decreases i,
    {
        i = i - 1;
        if ps[i].0 == *key {
            return Some(i);
        }
    }
    None
}

/// The identifier bits that every random (version 4, RFC 4122 variant)
/// identifier carries.
pub open spec fn is_v4_id(x: u128) -> bool {
    &&& (x >> 76u128) & 0xfu128 == 4u128
    &&& (x >> 62u128) & 3u128 == 2u128
}

/// Relies on `uuid::Uuid::new_v4` and `Uuid::as_u128`: a random identifier
/// whose version nibble is 4 and whose variant bits are `10`.
#[verifier::external_body]
fn new_vertex_id() -> (r: u128)
    ensures
        is_v4_id(r),
{
    uuid::Uuid::new_v4().as_u128()
}

/// A vertex: an identifier, an optional label and string properties.
#[derive(Debug, Clone, PartialEq)]
pub struct Vertex {
    pub id: u128,
    pub label: Option<String>,
    pub properties: Vec<(String, String)>,
}

impl Vertex {
    pub open spec fn property_view(&self) -> Map<Seq<char>, Seq<char>> {
        property_map(self.properties@)
    }

    /// Whether `key` is mapped to exactly `value`.
    pub open spec fn has_property(&self, key: Seq<char>, value: Seq<char>) -> bool {
        self.property_view().contains_key(key) && self.property_view()[key] == value
    }

    /// The value that `key` is mapped to, if any.
    pub fn property(&self, key: &String) -> (r: Option<&String>)
        ensures
            r is None <==> !self.property_view().contains_key(key@),
            r matches Some(v) ==> self.property_view()[key@] == v@,
    {
        match last_position(&self.properties, key) {
            Some(i) => {
                proof {
                    let ps = self.properties@;
                    lemma_property_map_prefix(ps, i + 1, key@);
                    assert(ps.take(i + 1).drop_last() =~= ps.take(i as int));
                }
                Some(&self.properties[i].1)
            },
            None => {
                proof {
                    lemma_property_map_prefix(self.properties@, 0, key@);
                    assert(property_map(self.properties@.take(0)) == Map::<Seq<char>, Seq<char>>::empty());
                }
                None
            },
        }
    }
}

impl Default for Vertex {
    /// A vertex with a fresh random identifier, no label and no properties.
    fn default() -> (r: Vertex)
        ensures
            is_v4_id(r.id),
            r.label is None,
            r.properties@.len() == 0,
    {
        Vertex { id: new_vertex_id(), label: None, properties: Vec::new() }
    }
}

/// Collects the label and properties of a vertex before adding it to a graph.
pub struct VertexBuilder<'a> {
    pub graph: &'a mut Graph,
    pub label: Option<String>,
    pub properties: Vec<(String, String)>,
}

impl<'a> VertexBuilder<'a> {
    /// Sets the display label.
    pub fn label(self, label: &str) -> (r: Self)
        ensures
            *r.graph == *old(self.graph),
            *final(r.graph) == *final(self.graph),
            (r.label matches Some(l) && l@ == label@),
            r.properties == self.properties,
    {
        VertexBuilder { graph: self.graph, label: Some(label.to_owned()), properties: self.properties }
    }

    /// Sets `key` to `value`, replacing an earlier value of `key`.
    pub fn property(self, key: &str, value: &str) -> (r: Self)
        ensures
            *r.graph == *old(self.graph),
            *final(r.graph) == *final(self.graph),
            r.label == self.label,
            property_map(r.properties@) == property_map(self.properties@).insert(key@, value@),
            keys_unique(self.properties@) ==> keys_unique(r.properties@),
    {
        let mut properties = self.properties;
        let key = key.to_owned();
        match last_position(&properties, &key) {
            Some(i) => {
                let pair = (key, value.to_owned());
                proof {
                    lemma_property_map_update(properties@, i as int, pair);
                }
                properties.set(i, pair);
                assert(properties@ == self.properties@.update(i as int, pair));
            },
            None => {
                properties.push((key, value.to_owned()));
                proof {
                    assert(properties@.drop_last() =~= self.properties@);
                }
            },
        }
        VertexBuilder { graph: self.graph, label: self.label, properties }
    }

    /// Appends the vertex to the graph and returns its reference: its
    /// position in the graph's vertex sequence.
    pub fn build(self) -> (r: usize)
        requires
            old(self.graph).wf(),
        ensures
            r == old(self.graph).vertex_seq().len(),
            final(self.graph).wf(),
            final(self.graph).edge_seq() == old(self.graph).edge_seq(),
            final(self.graph).vertex_seq().len() == old(self.graph).vertex_seq().len() + 1,
            final(self.graph).vertex_seq().drop_last() == old(self.graph).vertex_seq(),
            final(self.graph).vertex_seq().last().label == self.label,
            final(self.graph).vertex_seq().last().properties == self.properties,
            is_v4_id(final(self.graph).vertex_seq().last().id),
    {
        let vertex = Vertex { label: self.label, properties: self.properties, ..Vertex::default() };
        let r = self.graph.vertices.len();
        self.graph.vertices.push(vertex);
        proof {
            assert(self.graph.vertices@.drop_last() =~= old(self.graph).vertices@);
            assert(self.graph.edges@ == old(self.graph).edges@);
            assert forall|i: int| 0 <= i < self.graph.edges@.len() implies #[trigger] self.graph.edges@[i].source
                < self.graph.vertices@.len() && self.graph.edges@[i].destination < self.graph.vertices@.len() by {
                assert(old(self.graph).edge_seq()[i] == self.graph.edges@[i]);
            }
        }
        r
    }
}

/// A directed, labelled edge between two vertices of a graph, given by
/// their references.
#[derive(Debug, Clone, PartialEq)]
pub struct Edge {
    pub label: String,
    pub source: usize,
    pub destination: usize,
}

/// Why an edge could not be added.
#[derive(Debug, Clone, Copy, PartialEq, Eq, Structural)]
pub enum EdgeError {
    /// No source was given, or it is not a vertex of the graph.
    UnresolvedSource,
    /// No destination was given, or it is not a vertex of the graph.
    UnresolvedDestination,
}

/// Collects the endpoints of an edge before adding it to a graph.
pub struct EdgeBuilder<'a> {
    pub graph: &'a mut Graph,
    pub label: String,
    pub source: Option<usize>,
    pub destination: Option<usize>,
}

impl<'a> EdgeBuilder<'a> {
    /// Sets the vertex the edge leaves.
    pub fn source(self, from: usize) -> (r: Self)
        ensures
            *r.graph == *old(self.graph),
            *final(r.graph) == *final(self.graph),
            r.label == self.label,
            r.source == Some(from),
            r.destination == self.destination,
    {
        EdgeBuilder { graph: self.graph, label: self.label, source: Some(from), destination: self.destination }
    }

    /// Sets the vertex the edge enters.
    pub fn destination(self, to: usize) -> (r: Self)
        ensures
            *r.graph == *old(self.graph),
            *final(r.graph) == *final(self.graph),
            r.label == self.label,
            r.source == self.source,
            r.destination == Some(to),
    {
        EdgeBuilder { graph: self.graph, label: self.label, source: self.source, destination: Some(to) }
    }

    /// Appends the edge to the graph when both endpoints are vertices of it;
    /// otherwise the graph is left as it was.
    pub fn build(self) -> (r: Result<Edge, EdgeError>)
        requires
            old(self.graph).wf(),
        ensures
            final(self.graph).wf(),
            final(self.graph).vertex_seq() == old(self.graph).vertex_seq(),
            !old(self.graph).resolves(self.source) ==> r == Err::<Edge, EdgeError>(
                EdgeError::UnresolvedSource,
            ) && *final(self.graph) == *old(self.graph),
            old(self.graph).resolves(self.source) && !old(self.graph).resolves(self.destination)
                ==> r == Err::<Edge, EdgeError>(EdgeError::UnresolvedDestination) && *final(self.graph)
                == *old(self.graph),
            old(self.graph).resolves(self.source) && old(self.graph).resolves(self.destination)
                ==> (r matches Ok(e) && e.label == self.label && Some(e.source) == self.source
                && Some(e.destination) == self.destination && final(self.graph).edge_seq()
                == old(self.graph).edge_seq().push(e)),
    {
        let graph = self.graph;
        let n = graph.vertices.len();
        let from = match self.source {
            Some(v) if v < n => v,
            _ => n,
        };
        let to = match self.destination {
            Some(v) if v < n => v,
            _ => n,
        };
        if from == n {
            Err(EdgeError::UnresolvedSource)
        } else if to == n {
            Err(EdgeError::UnresolvedDestination)
        } else {
            let edge = Edge { label: self.label, source: from, destination: to };
            let stored = Edge { label: edge.label.clone(), source: from, destination: to };
            let ghost before = graph.edges@;
            graph.edges.push(stored);
            proof {
                assert forall|i: int| 0 <= i < graph.edges@.len() implies #[trigger] graph.edges@[i].source
                    < graph.vertices@.len() && graph.edges@[i].destination < graph.vertices@.len() by {
                    if i < before.len() {
                        assert(old(self.graph).edge_seq()[i] == graph.edges@[i]);
                    }
                }
            }
            Ok(edge)
        }
    }
}

/// A graph: vertices in insertion order and edges in insertion order.
#[derive(Debug, Clone)]
pub struct Graph {
    vertices: Vec<Vertex>,
    edges: Vec<Edge>,
}

impl Default for Graph {
    fn default() -> (r: Graph)
        ensures
            r.wf(),
            r.vertex_seq().len() == 0,
            r.edge_seq().len() == 0,
    {
        Graph { vertices: Vec::new(), edges: Vec::new() }
    }
}

impl Graph {
    /// The vertices, in insertion order.
    pub closed spec fn vertex_seq(&self) -> Seq<Vertex> {
        self.vertices@
    }

    /// The edges, in insertion order.
    pub closed spec fn edge_seq(&self) -> Seq<Edge> {
        self.edges@
    }

    /// Every edge joins two vertices of the graph.
    pub open spec fn wf(&self) -> bool {
        forall|i: int|
            0 <= i < self.edge_seq().len() ==> #[trigger] self.edge_seq()[i].source
                < self.vertex_seq().len() && self.edge_seq()[i].destination
                < self.vertex_seq().len()
    }

    /// Whether an optional vertex reference names a vertex of the graph.
    pub open spec fn resolves(&self, v: Option<usize>) -> bool {
        v matches Some(i) && i < self.vertex_seq().len()
    }

    pub fn new() -> (r: Graph)
        ensures
            r.wf(),
            r.vertex_seq().len() == 0,
            r.edge_seq().len() == 0,
    {
        Graph::default()
    }

    /// Starts a vertex on this graph; `build` adds it.
    pub fn add_v(&mut self) -> (b: VertexBuilder<'_>)
        ensures
            *b.graph == *old(self),
            *final(self) == *final(b.graph),
            b.label is None,
            b.properties@.len() == 0,
    {
        VertexBuilder { graph: self, label: None, properties: Vec::new() }
    }

    /// Starts an edge on this graph; `build` adds it.
    pub fn add_e(&mut self, label: &str) -> (b: EdgeBuilder<'_>)
        ensures
            *b.graph == *old(self),
            *final(self) == *final(b.graph),
            b.label@ == label@,
            b.source is None,
            b.destination is None,
    {
        EdgeBuilder { graph: self, label: label.to_owned(), source: None, destination: None }
    }

    /// All edges, in insertion order.
    pub fn e(&self) -> (r: &Vec<Edge>)
        ensures
            r@ == self.edge_seq(),
    {
        &self.edges
    }

    /// The number of vertices.
    pub fn vertex_count(&self) -> (r: usize)
        ensures
            r == self.vertex_seq().len(),
    {
        self.vertices.len()
    }

    /// The vertex that `v` refers to.
    pub fn vertex(&self, v: usize) -> (r: &Vertex)
        requires
            v < self.vertex_seq().len(),
        ensures
            *r == self.vertex_seq()[v as int],
    {
        &self.vertices[v]
    }

    /// A traversal that starts from every vertex, or from the one given.
    pub fn v(&self, vertex: Option<usize>) -> (r: Traversal<'_>)
        ensures
            *r.graph_view() == *self,
            vertex is None ==> r.step_seq() == seq![Step::SeedAll],
            vertex matches Some(v) ==> r.step_seq() == seq![Step::SeedOne(v)],
    {
        let mut steps: Vec<Step> = Vec::new();
        match vertex {
            None => steps.push(expand_all()),
            Some(v) => steps.push(find_one(v)),
        }
        Traversal::new(self, steps)
    }
}

} // verus!
