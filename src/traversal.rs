use vstd::prelude::*;

use crate::graph::{Edge, Graph, Vertex};
use crate::laws::{lemma_results_name_vertices, refs_below};

verus! {

/// One step of a traversal pipeline.
#[derive(Debug)]
pub enum Step {
    /// Replaces the working set by every vertex, in insertion order.
    SeedAll,
    /// Replaces the working set by the vertex given, if the graph has it.
    SeedOne(usize),
    /// Keeps the vertices whose property `key` is exactly `value`.
    HasProperty(String, String),
    /// Moves along outgoing edges.
    Out,
    /// Moves along incoming edges, backwards.
    In,
}

/// Why a traversal could not run.
#[derive(Debug, Clone, Copy, PartialEq, Eq, Structural)]
pub enum TraversalError {
    /// The graph has no vertex to start from.
    EmptyGraph,
}

/// Every vertex reference of the graph, in order.
pub open spec fn all_refs(n: nat) -> Seq<usize> {
    Seq::new(n, |i: int| i as usize)
}

/// The working set of a seed on one vertex.
pub open spec fn one_ref(n: nat, v: usize) -> Seq<usize> {
    if v < n {
        seq![v]
    } else {
        seq![]
    }
}

/// The vertices of `ws`, in order, whose property `k` is exactly `val`.
pub open spec fn keep_with_property(vs: Seq<Vertex>, ws: Seq<usize>, k: Seq<char>, val: Seq<char>) -> Seq<usize>
    decreases ws.len(),
{
    if ws.len() == 0 {
        seq![]
    } else {
        let rest = keep_with_property(vs, ws.drop_last(), k, val);
        let w = ws.last();
        if w < vs.len() && vs[w as int].has_property(k, val) {
            rest.push(w)
        } else {
            rest
        }
    }
}

/// The destinations of the edges that leave `v`, in edge order.
pub open spec fn out_targets(es: Seq<Edge>, v: usize) -> Seq<usize>
    decreases es.len(),
{
    if es.len() == 0 {
        seq![]
    } else {
        let rest = out_targets(es.drop_last(), v);
        if es.last().source == v {
            rest.push(es.last().destination)
        } else {
            rest
        }
    }
}

/// The sources of the edges that enter `v`, in edge order.
pub open spec fn in_sources(es: Seq<Edge>, v: usize) -> Seq<usize>
    decreases es.len(),
{
    if es.len() == 0 {
        seq![]
    } else {
        let rest = in_sources(es.drop_last(), v);
        if es.last().destination == v {
            rest.push(es.last().source)
        } else {
            rest
        }
    }
}

/// Each vertex of `ws` in turn replaced by the destinations of its
/// outgoing edges; repeats are kept.
pub open spec fn expand_out(es: Seq<Edge>, ws: Seq<usize>) -> Seq<usize>
    decreases ws.len(),
{
    if ws.len() == 0 {
        seq![]
    } else {
        expand_out(es, ws.drop_last()) + out_targets(es, ws.last())
    }
}

/// Each vertex of `ws` in turn replaced by the sources of its incoming
/// edges; repeats are kept.
pub open spec fn expand_in(es: Seq<Edge>, ws: Seq<usize>) -> Seq<usize>
    decreases ws.len(),
{
    if ws.len() == 0 {
        seq![]
    } else {
        expand_in(es, ws.drop_last()) + in_sources(es, ws.last())
    }
}

/// The working set that a step makes of `ws`.
pub open spec fn step_result(vs: Seq<Vertex>, es: Seq<Edge>, s: Step, ws: Seq<usize>) -> Seq<usize> {
    match s {
        Step::SeedAll => all_refs(vs.len()),
        Step::SeedOne(v) => one_ref(vs.len(), v),
        Step::HasProperty(k, val) => keep_with_property(vs, ws, k@, val@),
        Step::Out => expand_out(es, ws),
        Step::In => expand_in(es, ws),
    }
}

/// The working set after all steps, folded over the first vertex.
pub open spec fn run(vs: Seq<Vertex>, es: Seq<Edge>, steps: Seq<Step>) -> Seq<usize>
    decreases steps.len(),
{
    if steps.len() == 0 {
        seq![0usize]
    } else {
        step_result(vs, es, steps.last(), run(vs, es, steps.drop_last()))
    }
}

/// The edges of `es`, in order, whose destination is in `ws`.
pub open spec fn edges_into(es: Seq<Edge>, ws: Seq<usize>) -> Seq<Edge>
    decreases es.len(),
{
    if es.len() == 0 {
        seq![]
    } else {
        let rest = edges_into(es.drop_last(), ws);
        if ws.contains(es.last().destination) {
            rest.push(es.last())
        } else {
            rest
        }
    }
}

/// The edges of `es`, in order, whose source is in `ws`.
pub open spec fn edges_out_of(es: Seq<Edge>, ws: Seq<usize>) -> Seq<Edge>
    decreases es.len(),
{
    if es.len() == 0 {
        seq![]
    } else {
        let rest = edges_out_of(es.drop_last(), ws);
        if ws.contains(es.last().source) {
            rest.push(es.last())
        } else {
            rest
        }
    }
}

/// Whether `s` keeps the vertices whose property `k` is `val`.
pub open spec fn is_property_step(s: Step, k: Seq<char>, val: Seq<char>) -> bool {
    (s matches Step::HasProperty(a, b) && a@ == k && b@ == val)
}

/// A traversal pipeline: steps to run over a graph.
pub struct Traversal<'a> {
    graph: &'a Graph,
    steps: Vec<Step>,
}

fn copy_edge(e: &Edge) -> (r: Edge)
    ensures
        r == *e,
{
    Edge { label: e.label.clone(), source: e.source, destination: e.destination }
}

fn contains_ref(ws: &Vec<usize>, v: usize) -> (r: bool)
    ensures
        r == ws@.contains(v),
{
    let mut i: usize = 0;
    while i < ws.len()
        invariant
            i <= ws@.len(),
            forall|j: int| 0 <= j < i ==> ws@[j] != v,
        decreases ws@.len() - i,
    {
        if ws[i] == v {
            return true;
        }
        i = i + 1;
    }
    false
}

/// The working set of a seed on every vertex.
fn all_vertices(g: &Graph) -> (r: Vec<usize>)
    ensures
        r@ == all_refs(g.vertex_seq().len()),
{
    let n = g.vertex_count();
    let mut r: Vec<usize> = Vec::new();
    let mut i: usize = 0;
    while i < n
        invariant
            i <= n,
            n == g.vertex_seq().len(),
            r@ == all_refs(i as nat),
        decreases n - i,
    {
        r.push(i);
        i = i + 1;
        assert(r@ =~= all_refs(i as nat));
    }
    r
}

/// The vertices of `ws`, in order, that have `key` mapped to `value`.
fn filter_property(g: &Graph, ws: &Vec<usize>, key: &String, value: &String) -> (r: Vec<usize>)
    ensures
        r@ == keep_with_property(g.vertex_seq(), ws@, key@, value@),
{
    let n = g.vertex_count();
    let mut r: Vec<usize> = Vec::new();
    let mut i: usize = 0;
    while i < ws.len()
        invariant
            i <= ws@.len(),
            n == g.vertex_seq().len(),
            r@ == keep_with_property(g.vertex_seq(), ws@.take(i as int), key@, value@),
        decreases ws@.len() - i,
    {
        let w = ws[i];
        assert(ws@.take(i + 1).drop_last() =~= ws@.take(i as int));
        if w < n {
            let keep = match g.vertex(w).property(key) {
                Some(found) => *found == *value,
                None => false,
            };
            if keep {
                r.push(w);
            }
        }
        i = i + 1;
    }
    assert(ws@.take(ws@.len() as int) =~= ws@);
    r
}

/// Appends to `r` the far ends of the edges that touch `v` on the chosen
/// side: destinations of edges leaving `v`, or sources of edges entering it.
fn push_neighbours(g: &Graph, v: usize, outgoing: bool, r: &mut Vec<usize>)
    ensures
        outgoing ==> final(r)@ == old(r)@ + out_targets(g.edge_seq(), v),
        !outgoing ==> final(r)@ == old(r)@ + in_sources(g.edge_seq(), v),
{
    let es = g.e();
    let ghost start = r@;
    let mut j: usize = 0;
    while j < es.len()
        invariant
            j <= es@.len(),
            es@ == g.edge_seq(),
            outgoing ==> r@ == start + out_targets(es@.take(j as int), v),
            !outgoing ==> r@ == start + in_sources(es@.take(j as int), v),
        decreases es@.len() - j,
    {
        let e = &es[j];
        assert(es@.take(j + 1).drop_last() =~= es@.take(j as int));
        if outgoing && e.source == v {
            r.push(e.destination);
        } else if !outgoing && e.destination == v {
            r.push(e.source);
        }
        proof {
            let t = es@.take(j + 1);
            if outgoing {
                assert(r@ =~= start + out_targets(t, v));
            } else {
                assert(r@ =~= start + in_sources(t, v));
            }
        }
        j = j + 1;
    }
    assert(es@.take(es@.len() as int) =~= es@);
}

/// Each vertex of `ws` in turn replaced by its neighbours on the chosen side.
fn follow_edges(g: &Graph, ws: &Vec<usize>, outgoing: bool) -> (r: Vec<usize>)
    ensures
        outgoing ==> r@ == expand_out(g.edge_seq(), ws@),
        !outgoing ==> r@ == expand_in(g.edge_seq(), ws@),
{
    let mut r: Vec<usize> = Vec::new();
    let mut i: usize = 0;
    while i < ws.len()
        invariant
            i <= ws@.len(),
            outgoing ==> r@ == expand_out(g.edge_seq(), ws@.take(i as int)),
            !outgoing ==> r@ == expand_in(g.edge_seq(), ws@.take(i as int)),
        decreases ws@.len() - i,
    {
        assert(ws@.take(i + 1).drop_last() =~= ws@.take(i as int));
        push_neighbours(g, ws[i], outgoing, &mut r);
        i = i + 1;
    }
    assert(ws@.take(ws@.len() as int) =~= ws@);
    r
}

/// The working set that `step` makes of `ws` on `g`.
pub fn apply_step(g: &Graph, step: &Step, ws: Vec<usize>) -> (r: Vec<usize>)
    ensures
        r@ == step_result(g.vertex_seq(), g.edge_seq(), *step, ws@),
{
    match step {
        Step::SeedAll => all_vertices(g),
        Step::SeedOne(v) => {
            if *v < g.vertex_count() {
                vec![*v]
            } else {
                Vec::new()
            }
        },
        Step::HasProperty(key, value) => filter_property(g, &ws, key, value),
        Step::Out => follow_edges(g, &ws, true),
        Step::In => follow_edges(g, &ws, false),
    }
}

/// A step that starts from the vertex given.
pub fn find_one(vertex: usize) -> (r: Step)
    ensures
        r == Step::SeedOne(vertex),
{
    Step::SeedOne(vertex)
}

/// A step that follows outgoing edges.
pub fn expand() -> (r: Step)
    ensures
        r == Step::Out,
{
    Step::Out
}

/// A step that starts from every vertex.
pub fn expand_all() -> (r: Step)
    ensures
        r == Step::SeedAll,
{
    Step::SeedAll
}

impl<'a> Traversal<'a> {
    /// The graph that the traversal runs over.
    pub closed spec fn graph_view(&self) -> &'a Graph {
        self.graph
    }

    /// The steps, in order.
    pub closed spec fn step_seq(&self) -> Seq<Step> {
        self.steps@
    }

    /// What running the traversal yields on a graph with a vertex.
    pub open spec fn result(&self) -> Seq<usize> {
        run(self.graph_view().vertex_seq(), self.graph_view().edge_seq(), self.step_seq())
    }

    pub fn new(graph: &'a Graph, steps: Vec<Step>) -> (r: Self)
        ensures
            r.graph_view() == graph,
            r.step_seq() == steps@,
    {
        Traversal { graph, steps }
    }

    /// Folds the steps, in order, over the graph's first vertex; fails on a
    /// graph without vertices.
    pub fn execute(&self) -> (r: Result<Vec<usize>, TraversalError>)
        ensures
            match r {
                Ok(ws) => {
                    &&& self.graph_view().vertex_seq().len() > 0
                    &&& ws@ == self.result()
                    &&& self.graph_view().wf() ==> refs_below(ws@, self.graph_view().vertex_seq().len())
                },
                Err(e) => self.graph_view().vertex_seq().len() == 0 && e == TraversalError::EmptyGraph,
            },
    {
        if self.graph.vertex_count() == 0 {
            return Err(TraversalError::EmptyGraph);
        }
        let mut ws: Vec<usize> = vec![0];
        let mut i: usize = 0;
        while i < self.steps.len()
            invariant
                i <= self.steps@.len(),
                ws@ == run(self.graph.vertex_seq(), self.graph.edge_seq(), self.steps@.take(i as int)),
            decreases self.steps@.len() - i,
        {
            assert(self.steps@.take(i + 1).drop_last() =~= self.steps@.take(i as int));
            ws = apply_step(self.graph, &self.steps[i], ws);
            i = i + 1;
        }
        assert(self.steps@.take(self.steps@.len() as int) =~= self.steps@);
        proof {
            if self.graph.wf() {
                lemma_results_name_vertices(self.graph, self.steps@);
            }
        }
        Ok(ws)
    }

    /// Appends a step that keeps the vertices whose property `key` is
    /// exactly `value`.
    pub fn has(self, key: &str, value: &str) -> (r: Self)
        ensures
            r.graph_view() == self.graph_view(),
            r.step_seq().drop_last() == self.step_seq(),
            r.step_seq().len() == self.step_seq().len() + 1,
            is_property_step(r.step_seq().last(), key@, value@),
    {
        let mut steps = self.steps;
        steps.push(has(key, value));
        proof {
            assert(steps@.drop_last() =~= self.steps@);
        }
        Traversal { graph: self.graph, steps }
    }

    /// Appends a step that follows outgoing edges.
    pub fn out(self) -> (r: Self)
        ensures
            r.graph_view() == self.graph_view(),
            r.step_seq() == self.step_seq().push(Step::Out),
    {
        let mut steps = self.steps;
        steps.push(expand());
        Traversal { graph: self.graph, steps }
    }

    /// Appends a step that follows incoming edges backwards.
    pub fn in_(self) -> (r: Self)
        ensures
            r.graph_view() == self.graph_view(),
            r.step_seq() == self.step_seq().push(Step::In),
    {
        let mut steps = self.steps;
        steps.push(in_());
        Traversal { graph: self.graph, steps }
    }

    /// The edges, in order, whose destination the traversal yields.
    pub fn in_e(&self) -> (r: Result<Vec<Edge>, TraversalError>)
        ensures
            match r {
                Ok(es) => self.graph_view().vertex_seq().len() > 0 && es@ == edges_into(self.graph_view().edge_seq(), self.result()),
                Err(e) => self.graph_view().vertex_seq().len() == 0 && e == TraversalError::EmptyGraph,
            },
    {
        let ws = self.execute()?;
        let all = self.graph.e();
        let mut r: Vec<Edge> = Vec::new();
        let mut j: usize = 0;
        while j < all.len()
            invariant
                j <= all@.len(),
                r@ == edges_into(all@.take(j as int), ws@),
            decreases all@.len() - j,
        {
            assert(all@.take(j + 1).drop_last() =~= all@.take(j as int));
            if contains_ref(&ws, all[j].destination) {
                r.push(copy_edge(&all[j]));
            }
            j = j + 1;
        }
        assert(all@.take(all@.len() as int) =~= all@);
        Ok(r)
    }

    /// The edges, in order, whose source the traversal yields.
    pub fn out_e(&self) -> (r: Result<Vec<Edge>, TraversalError>)
        ensures
            match r {
                Ok(es) => self.graph_view().vertex_seq().len() > 0 && es@ == edges_out_of(self.graph_view().edge_seq(), self.result()),
                Err(e) => self.graph_view().vertex_seq().len() == 0 && e == TraversalError::EmptyGraph,
            },
    {
        let ws = self.execute()?;
        let all = self.graph.e();
        let mut r: Vec<Edge> = Vec::new();
        let mut j: usize = 0;
        while j < all.len()
            invariant
                j <= all@.len(),
                r@ == edges_out_of(all@.take(j as int), ws@),
            decreases all@.len() - j,
        {
            assert(all@.take(j + 1).drop_last() =~= all@.take(j as int));
            if contains_ref(&ws, all[j].source) {
                r.push(copy_edge(&all[j]));
            }
            j = j + 1;
        }
        assert(all@.take(all@.len() as int) =~= all@);
        Ok(r)
    }
}

/// A step that keeps the vertices whose property `key` is exactly `value`.
fn has(key: &str, value: &str) -> (r: Step)
    ensures
        is_property_step(r, key@, value@),
{
    Step::HasProperty(key.to_owned(), value.to_owned())
}

/// A step that follows incoming edges backwards.
fn in_() -> (r: Step)
    ensures
        r == Step::In,
{
    Step::In
}

} // verus!
