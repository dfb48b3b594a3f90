use vstd::prelude::*;

use crate::graph::{Edge, Graph, Vertex};
use crate::traversal::{
    all_refs, edges_into, edges_out_of, expand_in, expand_out, in_sources, is_property_step,
    keep_with_property, out_targets, run, step_result, Step,
};

verus! {

/// A traversal seeded on a vertex of the graph yields exactly that vertex.
pub proof fn lemma_seed_one_yields_the_vertex(g: &Graph, v: usize)
    requires
        v < g.vertex_seq().len(),
    ensures
        run(g.vertex_seq(), g.edge_seq(), seq![Step::SeedOne(v)]) == seq![v],
{
    let steps = seq![Step::SeedOne(v)];
    assert(steps.drop_last().len() == 0);
    assert(steps.last() == Step::SeedOne(v));
}

/// A traversal seeded on every vertex yields all vertices in insertion order.
pub proof fn lemma_seed_all_yields_every_vertex(g: &Graph)
    requires
        g.vertex_seq().len() > 0,
    ensures
        run(g.vertex_seq(), g.edge_seq(), seq![Step::SeedAll]) == all_refs(g.vertex_seq().len()),
{
    let steps = seq![Step::SeedAll];
    assert(steps.drop_last().len() == 0);
    assert(steps.last() == Step::SeedAll);
}

/// Every vertex that a property filter keeps has the property.
proof fn lemma_kept_have_property(vs: Seq<Vertex>, ws: Seq<usize>, k: Seq<char>, val: Seq<char>)
    ensures
        forall|i: int|
            0 <= i < keep_with_property(vs, ws, k, val).len() ==> {
                let w = #[trigger] keep_with_property(vs, ws, k, val)[i];
                w < vs.len() && vs[w as int].has_property(k, val)
            },
    decreases ws.len(),
{
    if ws.len() > 0 {
        let front = keep_with_property(vs, ws.drop_last(), k, val);
        lemma_kept_have_property(vs, ws.drop_last(), k, val);
        assert forall|i: int| 0 <= i < keep_with_property(vs, ws, k, val).len() implies {
            let w = #[trigger] keep_with_property(vs, ws, k, val)[i];
            w < vs.len() && vs[w as int].has_property(k, val)
        } by {
            if i < front.len() {
                assert(keep_with_property(vs, ws, k, val)[i] == front[i]);
            }
        }
    }
}

/// A property filter keeps a working set whose vertices all have the property.
proof fn lemma_filter_keeps_matching(vs: Seq<Vertex>, ws: Seq<usize>, k: Seq<char>, val: Seq<char>)
    requires
        forall|i: int| 0 <= i < ws.len() ==> #[trigger] ws[i] < vs.len() && vs[ws[i] as int].has_property(k, val),
    ensures
        keep_with_property(vs, ws, k, val) == ws,
    decreases ws.len(),
{
    if ws.len() > 0 {
        let front = ws.drop_last();
        assert forall|i: int| 0 <= i < front.len() implies #[trigger] front[i] < vs.len()
            && vs[front[i] as int].has_property(k, val) by {
            assert(front[i] == ws[i]);
        }
        lemma_filter_keeps_matching(vs, front, k, val);
        assert(ws.last() == ws[ws.len() - 1]);
        assert(front.push(ws.last()) =~= ws);
    }
}

/// Filtering twice on the same property gives what filtering once gives.
pub proof fn lemma_filter_property_idempotent(
    vs: Seq<Vertex>,
    ws: Seq<usize>,
    k: Seq<char>,
    val: Seq<char>,
)
    ensures
        keep_with_property(vs, keep_with_property(vs, ws, k, val), k, val) == keep_with_property(
            vs,
            ws,
            k,
            val,
        ),
{
    lemma_kept_have_property(vs, ws, k, val);
    lemma_filter_keeps_matching(vs, keep_with_property(vs, ws, k, val), k, val);
}

/// Appending the same property step twice to a pipeline yields what
/// appending it once yields.
pub proof fn lemma_repeated_property_step(
    g: &Graph,
    steps: Seq<Step>,
    first: Step,
    second: Step,
    k: Seq<char>,
    val: Seq<char>,
)
    requires
        is_property_step(first, k, val),
        is_property_step(second, k, val),
    ensures
        run(g.vertex_seq(), g.edge_seq(), steps.push(first).push(second)) == run(
            g.vertex_seq(),
            g.edge_seq(),
            steps.push(first),
        ),
{
    let (vs, es) = (g.vertex_seq(), g.edge_seq());
    let once = steps.push(first);
    let twice = once.push(second);
    assert(twice.drop_last() == once);
    assert(once.drop_last() == steps);
    lemma_filter_property_idempotent(vs, run(vs, es, steps), k, val);
}

/// The edges that `in_e` and `out_e` select are edges of the graph.
pub proof fn lemma_edge_queries_within_all_edges(es: Seq<Edge>, ws: Seq<usize>)
    ensures
        forall|i: int| 0 <= i < edges_into(es, ws).len() ==> es.contains(#[trigger] edges_into(es, ws)[i]),
        forall|i: int|
            0 <= i < edges_out_of(es, ws).len() ==> es.contains(#[trigger] edges_out_of(es, ws)[i]),
    decreases es.len(),
{
    if es.len() > 0 {
        let front = es.drop_last();
        lemma_edge_queries_within_all_edges(front, ws);
        assert forall|i: int| 0 <= i < edges_into(es, ws).len() implies es.contains(
            #[trigger] edges_into(es, ws)[i],
        ) by {
            let e = edges_into(es, ws)[i];
            if i < edges_into(front, ws).len() {
                let j = choose|j: int| 0 <= j < front.len() && front[j] == e;
                assert(es[j] == e);
            } else {
                assert(es[es.len() - 1] == e);
            }
        }
        assert forall|i: int| 0 <= i < edges_out_of(es, ws).len() implies es.contains(
            #[trigger] edges_out_of(es, ws)[i],
        ) by {
            let e = edges_out_of(es, ws)[i];
            if i < edges_out_of(front, ws).len() {
                let j = choose|j: int| 0 <= j < front.len() && front[j] == e;
                assert(es[j] == e);
            } else {
                assert(es[es.len() - 1] == e);
            }
        }
    }
}

/// Every reference of `ws` names one of `n` vertices.
pub open spec fn refs_below(ws: Seq<usize>, n: nat) -> bool {
    forall|i: int| 0 <= i < ws.len() ==> #[trigger] ws[i] < n
}

proof fn lemma_neighbours_below(g: &Graph, es: Seq<Edge>, v: usize)
    requires
        g.wf(),
        forall|i: int| 0 <= i < es.len() ==> g.edge_seq().contains(#[trigger] es[i]),
    ensures
        refs_below(out_targets(es, v), g.vertex_seq().len()),
        refs_below(in_sources(es, v), g.vertex_seq().len()),
    decreases es.len(),
{
    if es.len() > 0 {
        let front = es.drop_last();
        assert forall|i: int| 0 <= i < front.len() implies g.edge_seq().contains(#[trigger] front[i]) by {
            assert(front[i] == es[i]);
        }
        lemma_neighbours_below(g, front, v);
        assert(g.edge_seq().contains(es[es.len() - 1]));
        let j = choose|j: int| 0 <= j < g.edge_seq().len() && g.edge_seq()[j] == es[es.len() - 1];
        assert(g.edge_seq()[j].source < g.vertex_seq().len());
        let (o, p) = (out_targets(es, v), in_sources(es, v));
        assert forall|i: int| 0 <= i < o.len() implies #[trigger] o[i] < g.vertex_seq().len() by {
            if i < out_targets(front, v).len() {
                assert(o[i] == out_targets(front, v)[i]);
            }
        }
        assert forall|i: int| 0 <= i < p.len() implies #[trigger] p[i] < g.vertex_seq().len() by {
            if i < in_sources(front, v).len() {
                assert(p[i] == in_sources(front, v)[i]);
            }
        }
    }
}

proof fn lemma_expansion_below(g: &Graph, ws: Seq<usize>)
    requires
        g.wf(),
    ensures
        refs_below(expand_out(g.edge_seq(), ws), g.vertex_seq().len()),
        refs_below(expand_in(g.edge_seq(), ws), g.vertex_seq().len()),
    decreases ws.len(),
{
    if ws.len() > 0 {
        let es = g.edge_seq();
        let front = ws.drop_last();
        lemma_expansion_below(g, front);
        assert forall|i: int| 0 <= i < es.len() implies es.contains(#[trigger] es[i]) by {}
        lemma_neighbours_below(g, es, ws.last());
        let (a, b) = (expand_out(es, front), out_targets(es, ws.last()));
        assert forall|i: int| 0 <= i < (a + b).len() implies #[trigger] (a + b)[i] < g.vertex_seq().len() by {
            if i < a.len() {
                assert((a + b)[i] == a[i]);
            } else {
                assert((a + b)[i] == b[i - a.len()]);
            }
        }
        let (c, d) = (expand_in(es, front), in_sources(es, ws.last()));
        assert forall|i: int| 0 <= i < (c + d).len() implies #[trigger] (c + d)[i] < g.vertex_seq().len() by {
            if i < c.len() {
                assert((c + d)[i] == c[i]);
            } else {
                assert((c + d)[i] == d[i - c.len()]);
            }
        }
    }
}

/// On a graph with a vertex, every reference that a traversal yields names
/// a vertex of the graph.
pub proof fn lemma_results_name_vertices(g: &Graph, steps: Seq<Step>)
    requires
        g.wf(),
        g.vertex_seq().len() > 0,
    ensures
        refs_below(run(g.vertex_seq(), g.edge_seq(), steps), g.vertex_seq().len()),
    decreases steps.len(),
{
    if steps.len() > 0 {
        let (vs, es) = (g.vertex_seq(), g.edge_seq());
        let ws = run(vs, es, steps.drop_last());
        lemma_results_name_vertices(g, steps.drop_last());
        match steps.last() {
            Step::HasProperty(k, val) => {
                lemma_kept_have_property(vs, ws, k@, val@);
            },
            Step::Out => {
                lemma_expansion_below(g, ws);
            },
            Step::In => {
                lemma_expansion_below(g, ws);
            },
            _ => {},
        }
        assert(run(vs, es, steps) == step_result(vs, es, steps.last(), ws));
    }
}

} // verus!
