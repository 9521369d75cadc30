//! The strongly connected components of a directed graph, by Tarjan's
//! algorithm.

use vstd::prelude::*;

use std::collections::HashMap;
use vstd::std_specs::iter::IteratorSpec;

verus! {

broadcast use vstd::std_specs::hash::group_hash_axioms;

// --- graphs ---

/// The vertices of a graph given as each vertex with its successors: the
/// vertices listed and their successors.
pub open spec fn graph_vertices(adj: Seq<(usize, Seq<usize>)>) -> Set<usize>
    decreases adj.len(),
{
    if adj.len() == 0 {
        Set::empty()
    } else {
        graph_vertices(adj.drop_last()).insert(adj.last().0) + adj.last().1.to_set()
    }
}

pub open spec fn adjacency_view(adj: Seq<(usize, Vec<usize>)>) -> Seq<(usize, Seq<usize>)> {
    adj.map_values(|e: (usize, Vec<usize>)| (e.0, e.1@))
}

/// The successors listed with the first entry of `u`; none where `u` has
/// no entry.
pub open spec fn listed_successors(adj: Seq<(usize, Seq<usize>)>, u: usize) -> Seq<usize>
    decreases adj.len(),
{
    if adj.len() == 0 {
        Seq::empty()
    } else if adj[0].0 == u {
        adj[0].1
    } else {
        listed_successors(adj.drop_first(), u)
    }
}

/// Each vertex of `path` after the first is listed as a successor of the
/// one before.
pub open spec fn graph_path(adj: Seq<(usize, Seq<usize>)>, path: Seq<usize>) -> bool {
    forall|i: int| 0 <= i && i + 1 < path.len() ==> listed_successors(adj, #[trigger] path[i]).contains(path[i + 1])
}

/// `w` can be reached from `u` along listed successors, in no steps or more.
pub open spec fn graph_reaches(adj: Seq<(usize, Seq<usize>)>, u: usize, w: usize) -> bool {
    exists|path: Seq<usize>| path.len() >= 1 && path[0] == u && path.last() == w && #[trigger] graph_path(adj, path)
}

/// All the components' vertices, in order.
pub open spec fn flat(out: Seq<Seq<usize>>) -> Seq<usize>
    decreases out.len(),
{
    if out.len() == 0 {
        Seq::empty()
    } else {
        flat(out.drop_last()) + out.last()
    }
}

pub open spec fn flat_vecs(out: Seq<Vec<usize>>) -> Seq<usize> {
    flat(out.map_values(|v: Vec<usize>| v@))
}

fn position_of(verts: &Vec<usize>, x: usize) -> (r: Option<usize>)
    ensures
        match r {
            Some(p) => p < verts@.len() && verts@[p as int] == x,
            None => !verts@.contains(x),
        },
{
    let mut i: usize = 0;
    while i < verts.len()
        invariant
            i <= verts.len(),
            forall|j: int| 0 <= j < i ==> verts@[j] != x,
        decreases verts.len() - i,
    {
        if verts[i] == x {
            return Some(i);
        }
        i += 1;
    }
    None
}

fn push_new(verts: &mut Vec<usize>, x: usize)
    requires
        old(verts)@.no_duplicates(),
    ensures
        final(verts)@.no_duplicates(),
        final(verts)@.to_set() == old(verts)@.to_set().insert(x),
{
    let ghost before = verts@;
    if position_of(verts, x).is_none() {
        verts.push(x);
        proof {
            assert forall|i: int, j: int| 0 <= i < verts@.len() && 0 <= j < verts@.len() && i != j implies verts@[i]
                != verts@[j] by {
                if i == before.len() {
                    assert(before.contains(verts@[j]));
                } else if j == before.len() {
                    assert(before.contains(verts@[i]));
                }
            }
            before.lemma_push_to_set_commute(x);
        }
    } else {
        proof {
            assert(before.to_set().contains(x));
            assert(verts@.to_set() =~= before.to_set().insert(x));
        }
    }
}

/// The vertices of a graph, each once: the listed ones, then their
/// successors.
fn vertices_of(adj: &Vec<(usize, Vec<usize>)>) -> (verts: Vec<usize>)
    ensures
        verts@.no_duplicates(),
        verts@.to_set() == graph_vertices(adjacency_view(adj@)),
{
    let ghost a = adjacency_view(adj@);
    let mut verts: Vec<usize> = Vec::new();
    let mut i: usize = 0;
    proof {
        assert(verts@.to_set() =~= graph_vertices(a.take(0)));
    }
    while i < adj.len()
        invariant
            i <= adj.len(),
            a == adjacency_view(adj@),
            a.len() == adj@.len(),
            verts@.no_duplicates(),
            verts@.to_set() == graph_vertices(a.take(i as int)),
        decreases adj.len() - i,
    {
        let ghost before = verts@;
        push_new(&mut verts, adj[i].0);
        let mut j: usize = 0;
        proof {
            assert(adj@[i as int].1@.take(0) =~= Seq::<usize>::empty());
            assert(verts@.to_set() =~= before.to_set().insert(adj@[i as int].0) + adj@[i as int].1@.take(0).to_set());
        }
        while j < adj[i].1.len()
            invariant
                i < adj.len(),
                j <= adj@[i as int].1@.len(),
                verts@.no_duplicates(),
                verts@.to_set() == before.to_set().insert(adj@[i as int].0) + adj@[i as int].1@.take(j as int).to_set(),
            decreases adj@[i as int].1@.len() - j,
        {
            push_new(&mut verts, adj[i].1[j]);
            proof {
                assert(adj@[i as int].1@.take(j + 1) =~= adj@[i as int].1@.take(j as int).push(adj@[i as int].1@[j as int]));
                adj@[i as int].1@.take(j as int).lemma_push_to_set_commute(adj@[i as int].1@[j as int]);
                assert(verts@.to_set() =~= before.to_set().insert(adj@[i as int].0) + adj@[i as int].1@.take(j + 1).to_set());
            }
            j += 1;
        }
        proof {
            assert(adj@[i as int].1@.take(j as int) =~= adj@[i as int].1@);
            assert(a.take(i + 1).drop_last() =~= a.take(i as int));
            assert(a[i as int] == (adj@[i as int].0, adj@[i as int].1@));
            assert(verts@.to_set() =~= graph_vertices(a.take(i + 1)));
        }
        i += 1;
    }
    proof {
        assert(a.take(i as int) =~= a);
    }
    verts
}


/// The listed vertices and their successors are vertices of the graph.
pub proof fn lemma_graph_vertices_contains(a: Seq<(usize, Seq<usize>)>, i: int)
    requires
        0 <= i < a.len(),
    ensures
        graph_vertices(a).contains(a[i].0),
        forall|k: int| 0 <= k < a[i].1.len() ==> graph_vertices(a).contains(#[trigger] a[i].1[k]),
    decreases a.len(),
{
    if i < a.len() - 1 {
        lemma_graph_vertices_contains(a.drop_last(), i);
    } else {
        assert forall|k: int| 0 <= k < a[i].1.len() implies graph_vertices(a).contains(#[trigger] a[i].1[k]) by {
            assert(a[i].1.to_set().contains(a[i].1[k]));
        }
    }
}

/// The successors of each vertex, by position: those listed with it, or
/// none where it is not listed.
fn successors_of(adj: &Vec<(usize, Vec<usize>)>, verts: &Vec<usize>) -> (succ: Vec<Vec<usize>>)
    requires
        verts@.to_set() == graph_vertices(adjacency_view(adj@)),
    ensures
        succ@.len() == verts@.len(),
        forall|p: int, k: int| 0 <= p < succ@.len() && 0 <= k < succ@[p]@.len() ==> #[trigger] succ@[p]@[k]
            < verts@.len(),
        forall|p: int| 0 <= p < succ@.len() ==> (#[trigger] succ@[p])@.len() == listed_successors(adjacency_view(adj@), verts@[p]).len(),
        forall|p: int, k: int| 0 <= p < succ@.len() && 0 <= k < succ@[p]@.len() ==> verts@[#[trigger] succ@[p]@[k] as int]
            == listed_successors(adjacency_view(adj@), verts@[p])[k],
{
    let ghost a = adjacency_view(adj@);
    let mut succ: Vec<Vec<usize>> = Vec::new();
    let mut p: usize = 0;
    while p < verts.len()
        invariant
            p <= verts.len(),
            a == adjacency_view(adj@),
            a.len() == adj@.len(),
            verts@.to_set() == graph_vertices(a),
            succ@.len() == p,
            forall|q: int, k: int| 0 <= q < succ@.len() && 0 <= k < succ@[q]@.len() ==> #[trigger] succ@[q]@[k]
                < verts@.len(),
            forall|q: int| 0 <= q < succ@.len() ==> (#[trigger] succ@[q])@.len() == listed_successors(a, verts@[q]).len(),
            forall|q: int, k: int| 0 <= q < succ@.len() && 0 <= k < succ@[q]@.len() ==> verts@[#[trigger] succ@[q]@[k] as int]
                == listed_successors(a, verts@[q])[k],
        decreases verts.len() - p,
    {
        let mut next: Vec<usize> = Vec::new();
        let mut i: usize = 0;
        let mut found = false;
        proof {
            assert(a.skip(0) =~= a);
        }
        while i < adj.len() && !found
            invariant
                i <= adj.len(),
                p < verts.len(),
                a == adjacency_view(adj@),
                a.len() == adj@.len(),
                verts@.to_set() == graph_vertices(a),
                forall|k: int| 0 <= k < next@.len() ==> #[trigger] next@[k] < verts@.len(),
                !found ==> next@.len() == 0 && listed_successors(a, verts@[p as int]) == listed_successors(a.skip(i as int), verts@[p as int]),
                found ==> next@.len() == listed_successors(a, verts@[p as int]).len() && forall|m: int| 0 <= m < next@.len() ==> verts@[#[trigger] next@[m] as int] == listed_successors(a, verts@[p as int])[m],
            decreases adj.len() - i,
        {
            proof {
                assert(a.skip(i as int)[0] == a[i as int]);
                assert(a.skip(i as int).drop_first() =~= a.skip(i + 1));
                assert(a[i as int] == (adj@[i as int].0, adj@[i as int].1@));
            }
            if adj[i].0 == verts[p] {
                found = true;
                let mut k: usize = 0;
                proof {
                    lemma_graph_vertices_contains(a, i as int);
                    assert(a[i as int] == (adj@[i as int].0, adj@[i as int].1@));
                    assert forall|m: int| 0 <= m < adj@[i as int].1@.len() implies graph_vertices(a).contains(
                        #[trigger] adj@[i as int].1@[m],
                    ) by {
                        assert(a[i as int].1[m] == adj@[i as int].1@[m]);
                    }
                }
                while k < adj[i].1.len()
                    invariant
                        i < adj.len(),
                        k <= adj@[i as int].1@.len(),
                        verts@.to_set() == graph_vertices(a),
                        forall|m: int| 0 <= m < adj@[i as int].1@.len() ==> graph_vertices(a).contains(
                            #[trigger] adj@[i as int].1@[m],
                        ),
                        forall|m: int| 0 <= m < next@.len() ==> #[trigger] next@[m] < verts@.len(),
                        next@.len() == k,
                        listed_successors(a, verts@[p as int]) == adj@[i as int].1@,
                        forall|m: int| 0 <= m < next@.len() ==> verts@[#[trigger] next@[m] as int] == adj@[i as int].1@[m],
                    decreases adj@[i as int].1@.len() - k,
                {
                    let w = adj[i].1[k];
                    proof {
                        assert(graph_vertices(a).contains(adj@[i as int].1@[k as int]));
                        assert(verts@.to_set().contains(w));
                    }
                    let pos = position_of(verts, w).unwrap();
                    next.push(pos);
                    k += 1;
                }
            }
            i += 1;
        }
        proof {
            if !found {
                assert(a.skip(i as int) =~= Seq::<(usize, Seq<usize>)>::empty());
            }
        }
        let ghost before = succ@;
        succ.push(next);
        proof {
            assert forall|q: int, k: int| 0 <= q < succ@.len() && 0 <= k < succ@[q]@.len() implies verts@[#[trigger] succ@[q]@[k] as int]
                == listed_successors(a, verts@[q])[k] by {
                if q < p {
                    assert(succ@[q] == before[q]);
                }
            }
        }
        p += 1;
    }
    succ
}


// --- the search ---

/// How many vertices have been numbered.
pub open spec fn visited_count(ix: Seq<Option<usize>>) -> nat
    decreases ix.len(),
{
    if ix.len() == 0 {
        0
    } else {
        visited_count(ix.drop_last()) + if ix.last() is Some {
            1nat
        } else {
            0nat
        }
    }
}

proof fn lemma_visited_count(ix: Seq<Option<usize>>, p: int, c: usize)
    requires
        0 <= p < ix.len(),
        ix[p] is None,
    ensures
        visited_count(ix) < ix.len(),
        visited_count(ix.update(p, Some(c))) == visited_count(ix) + 1,
    decreases ix.len(),
{
    lemma_visited_count_bound(ix.drop_last());
    if p < ix.len() - 1 {
        lemma_visited_count(ix.drop_last(), p, c);
        assert(ix.update(p, Some(c)).drop_last() =~= ix.drop_last().update(p, Some(c)));
    } else {
        assert(ix.update(p, Some(c)).drop_last() =~= ix.drop_last());
    }
}

proof fn lemma_visited_count_bound(ix: Seq<Option<usize>>)
    ensures
        visited_count(ix) <= ix.len(),
    decreases ix.len(),
{
    if ix.len() > 0 {
        lemma_visited_count_bound(ix.drop_last());
    }
}

/// The state of the search over `n` vertices: the numbered vertices are
/// those on the stack and those given out, never both; the stack holds
/// each vertex once, numbered in increasing order; the counter is the next
/// number.
pub open spec fn tarjan_inv(
    n: nat,
    counter: nat,
    ix: Seq<Option<usize>>,
    st: Seq<usize>,
    on: Seq<bool>,
    out: Seq<usize>,
) -> bool {
    &&& ix.len() == n
    &&& on.len() == n
    &&& counter == visited_count(ix)
    &&& st.no_duplicates()
    &&& out.no_duplicates()
    &&& forall|i: int| 0 <= i < st.len() ==> (#[trigger] st[i]) < n
    &&& forall|i: int| 0 <= i < out.len() ==> (#[trigger] out[i]) < n
    &&& forall|p: int| 0 <= p < n ==> (#[trigger] on[p] <==> st.contains(p as usize))
    &&& forall|p: int| 0 <= p < n ==> ((#[trigger] ix[p]) is Some <==> (st.contains(p as usize) || out.contains(p as usize)))
    &&& forall|p: usize| !(#[trigger] st.contains(p) && out.contains(p))
    &&& forall|i: int, j: int| 0 <= i < j < st.len() ==> ix[#[trigger] st[i] as int]->Some_0 < ix[#[trigger] st[j] as int]->Some_0
    &&& forall|p: int| 0 <= p < n && (#[trigger] ix[p]) is Some ==> ix[p]->Some_0 < counter
}

pub open spec fn successors_valid(succ: Seq<Vec<usize>>) -> bool {
    forall|p: int, k: int| 0 <= p < succ.len() && 0 <= k < succ[p]@.len() ==> #[trigger] succ[p]@[k] < succ.len()
}


/// No component is empty.
pub open spec fn components_nonempty(comps: Seq<Vec<usize>>) -> bool {
    forall|c: int| 0 <= c < comps.len() ==> (#[trigger] comps[c])@.len() > 0
}

/// Each successor of a vertex given out in a component lies in that
/// component or in an earlier one.
pub open spec fn successors_ordered(succ: Seq<Vec<usize>>, comps: Seq<Vec<usize>>) -> bool {
    forall|c: int, k: int, m: int|
        0 <= c < comps.len() && 0 <= k < comps[c]@.len() && 0 <= m < succ[comps[c]@[k] as int]@.len()
            ==> flat_vecs(comps.take(c + 1)).contains(#[trigger] succ[comps[c]@[k] as int]@[m])
}

pub proof fn lemma_flat_push(out: Seq<Vec<usize>>, c: Vec<usize>)
    ensures
        flat_vecs(out.push(c)) == flat_vecs(out) + c@,
{
    assert(out.push(c).map_values(|v: Vec<usize>| v@).drop_last() =~= out.map_values(|v: Vec<usize>| v@));
}

/// Gives out the vertices of the stack above `base`, from the top, as one
/// component; the vertex at `base` is `v`.
fn pop_component(
    v: usize,
    base: usize,
    indices: &Vec<Option<usize>>,
    counter: usize,
    stack: &mut Vec<usize>,
    on_stack: &mut Vec<bool>,
    sccs: &mut Vec<Vec<usize>>,
    Ghost(succ): Ghost<Seq<Vec<usize>>>,
)
    requires
        tarjan_inv(indices@.len(), counter as nat, indices@, old(stack)@, old(on_stack)@, flat_vecs(old(sccs)@)),
        base < old(stack)@.len(),
        old(stack)@[base as int] == v,
        successors_ordered(succ, old(sccs)@),
        forall|j: int, m: int|
            base <= j < old(stack)@.len() && 0 <= m < succ[old(stack)@[j] as int]@.len() ==> flat_vecs(old(sccs)@).contains(
                #[trigger] succ[old(stack)@[j] as int]@[m],
            ) || old(stack)@.skip(base as int).contains(succ[old(stack)@[j] as int]@[m]),
        components_connected(succ, old(sccs)@),
        forall|i: int, j: int|
            base <= i < old(stack)@.len() && base <= j < old(stack)@.len() ==> #[trigger] succ_reaches(
                succ,
                old(stack)@[i],
                old(stack)@[j],
            ),
    ensures
        tarjan_inv(indices@.len(), counter as nat, indices@, final(stack)@, final(on_stack)@, flat_vecs(final(sccs)@)),
        final(stack)@ == old(stack)@.take(base as int),
        successors_ordered(succ, final(sccs)@),
        components_connected(succ, final(sccs)@),
        components_nonempty(old(sccs)@) ==> components_nonempty(final(sccs)@),
        final(sccs)@.len() == old(sccs)@.len() + 1,
        final(sccs)@.take(old(sccs)@.len() as int) == old(sccs)@,
{
    let ghost n = indices@.len();
    let vertex_count = indices.len();
    let ghost full = stack@;
    let ghost out0 = flat_vecs(sccs@);
    let mut scc: Vec<usize> = Vec::new();
    let mut done = false;
    proof {
        assert(n == vertex_count);
        assert(full.take(full.len() as int) =~= full);
        assert(out0 + scc@ =~= out0);
    }
    while !done
        invariant
            n == indices@.len(),
            n <= usize::MAX,
            full == old(stack)@,
            base < full.len(),
            full[base as int] == v,
            full.no_duplicates(),
            out0 == flat_vecs(sccs@),
            sccs@ == old(sccs)@,
            stack@.len() >= base,
            stack@.len() <= full.len(),
            !done ==> stack@.len() > base,
            stack@ == full.take(stack@.len() as int),
            done ==> stack@.len() == base,
            tarjan_inv(n, counter as nat, indices@, stack@, on_stack@, out0 + scc@),
            scc@.len() == full.len() - stack@.len(),
            forall|k: int| 0 <= k < scc@.len() ==> #[trigger] scc@[k] == full[full.len() - 1 - k],
        decreases stack@.len(),
    {
        let ghost pre = stack@;
        let w = stack.pop().unwrap();
        let ghost m = stack@.len();
        proof {
            assert(pre[m as int] == full[m as int]);
            assert(stack@ =~= full.take(m as int));
        }
        on_stack.set(w, false);
        let ghost before = scc@;
        scc.push(w);
        if w == v {
            done = true;
            proof {
                if m != base {
                    assert(full[m as int] == full[base as int]);
                }
            }
        }
        proof {
            let st = stack@;
            let out = out0 + scc@;
            let prev_st = st.push(w);
            assert(prev_st =~= full.take(m as int + 1));
            assert(st =~= full.take(m as int));
            assert(out =~= (out0 + before).push(w));
            assert(st.no_duplicates());
            assert(!(out0 + before).contains(w)) by {
                assert(prev_st.contains(w));
            }
            assert forall|i: int, j: int| 0 <= i < out.len() && 0 <= j < out.len() && i != j implies out[i] != out[j] by {
                if i == out.len() - 1 {
                    assert((out0 + before).contains(out[j]));
                } else if j == out.len() - 1 {
                    assert((out0 + before).contains(out[i]));
                } else {
                    assert(out[i] == (out0 + before)[i]);
                    assert(out[j] == (out0 + before)[j]);
                }
            }
            assert forall|p: int| 0 <= p < n implies (#[trigger] on_stack@[p] <==> st.contains(p as usize)) by {
                if p == w as int {
                    assert(!st.contains(w)) by {
                        if st.contains(w) {
                            let i = choose|i: int| 0 <= i < st.len() && st[i] == w;
                            assert(prev_st[i] == prev_st[st.len() as int]);
                        }
                    }
                } else {
                    assert(prev_st.contains(p as usize) == st.contains(p as usize)) by {
                        if prev_st.contains(p as usize) {
                            let i = choose|i: int| 0 <= i < prev_st.len() && prev_st[i] == p as usize;
                            if i == st.len() {
                                assert(prev_st[i] == w);
                            }
                            assert(st[i] == p as usize);
                        }
                        if st.contains(p as usize) {
                            let i = choose|i: int| 0 <= i < st.len() && st[i] == p as usize;
                            assert(prev_st[i] == p as usize);
                        }
                    }
                }
            }
            assert forall|p: int| 0 <= p < n implies ((#[trigger] indices@[p]) is Some <==> (st.contains(p as usize)
                || out.contains(p as usize))) by {
                if prev_st.contains(p as usize) && !st.contains(p as usize) {
                    assert(p as usize == w) by {
                        let i = choose|i: int| 0 <= i < prev_st.len() && prev_st[i] == p as usize;
                        if i < st.len() {
                            assert(st[i] == p as usize);
                        }
                    }
                    assert(out[out.len() - 1] == w);
                }
                if st.contains(p as usize) {
                    let i = choose|i: int| 0 <= i < st.len() && st[i] == p as usize;
                    assert(prev_st[i] == p as usize);
                }
                if (out0 + before).contains(p as usize) {
                    let i = choose|i: int| 0 <= i < (out0 + before).len() && (out0 + before)[i] == p as usize;
                    assert(out[i] == p as usize);
                }
                if out.contains(p as usize) {
                    let i = choose|i: int| 0 <= i < out.len() && out[i] == p as usize;
                    if i < out.len() - 1 {
                        assert((out0 + before)[i] == p as usize);
                    }
                }
            }
            assert forall|p: usize| !(#[trigger] st.contains(p) && out.contains(p)) by {
                if st.contains(p) && out.contains(p) {
                    let i = choose|i: int| 0 <= i < st.len() && st[i] == p;
                    assert(prev_st[i] == p);
                    assert(prev_st.contains(p));
                    let j = choose|j: int| 0 <= j < out.len() && out[j] == p;
                    if j < out.len() - 1 {
                        assert((out0 + before)[j] == p);
                        assert((out0 + before).contains(p));
                    } else {
                        assert(prev_st[m as int] == p);
                        assert(i != m);
                    }
                }
            }
            assert forall|i: int| 0 <= i < out.len() implies (#[trigger] out[i]) < n by {
                if i < out.len() - 1 {
                    assert(out[i] == (out0 + before)[i]);
                } else {
                    assert(prev_st[m as int] == w);
                }
            }
            assert forall|i: int, j: int| 0 <= i < j < st.len() implies indices@[#[trigger] st[i] as int]->Some_0
                < indices@[#[trigger] st[j] as int]->Some_0 by {
                assert(st[i] == prev_st[i]);
                assert(st[j] == prev_st[j]);
            }
        }
    }
    proof {
        lemma_flat_push(sccs@, scc);
        assert(stack@ =~= full.take(base as int));
    }
    let ghost old_sccs = sccs@;
    sccs.push(scc);
    proof {
        assert(scc@.len() > 0);
        assert forall|c: int| 0 <= c < sccs@.len() && components_nonempty(old_sccs) implies (#[trigger] sccs@[c])@.len() > 0 by {
            if c < old_sccs.len() {
                assert(sccs@[c] == old_sccs[c]);
            }
        }
        reveal(components_connected);
        let comps = sccs@;
        let last = old_sccs.len() as int;
        assert(comps.take(last) =~= old_sccs);
        assert(comps.take(last + 1) =~= comps);
        assert forall|c: int, k: int, m: int|
            0 <= c < comps.len() && 0 <= k < comps[c]@.len() && 0 <= m < succ[comps[c]@[k] as int]@.len()
                implies flat_vecs(comps.take(c + 1)).contains(#[trigger] succ[comps[c]@[k] as int]@[m]) by {
            if c < last {
                assert(comps.take(c + 1) =~= old_sccs.take(c + 1));
                assert(comps[c] == old_sccs[c]);
            } else {
                let u = scc@[k];
                let j = full.len() - 1 - k;
                assert(u == full[j]);
                let x = succ[u as int]@[m];
                assert(flat_vecs(comps) == out0 + scc@);
                if out0.contains(x) {
                    let i = choose|i: int| 0 <= i < out0.len() && out0[i] == x;
                    assert((out0 + scc@)[i] == x);
                } else {
                    assert(full.skip(base as int).contains(x));
                    let i = choose|i: int| 0 <= i < full.skip(base as int).len() && full.skip(base as int)[i] == x;
                    let kk = full.len() - 1 - (base + i);
                    assert(scc@[kk] == x);
                    assert((out0 + scc@)[out0.len() + kk] == x);
                }
            }
        }
        assert forall|c: int, k1: int, k2: int|
            0 <= c < comps.len() && 0 <= k1 < comps[c]@.len() && 0 <= k2 < comps[c]@.len() implies #[trigger] succ_reaches(
                succ,
                comps[c]@[k1],
                comps[c]@[k2],
            ) by {
            if c < last {
                assert(comps[c] == old_sccs[c]);
            } else {
                assert(scc@[k1] == full[full.len() - 1 - k1]);
                assert(scc@[k2] == full[full.len() - 1 - k2]);
            }
        }
    }
}


// --- reachability ---

/// Each vertex of `path` after the first is a successor of the one before.
pub open spec fn succ_path(succ: Seq<Vec<usize>>, path: Seq<usize>) -> bool {
    forall|i: int| 0 <= i && i + 1 < path.len() ==> succ[#[trigger] path[i] as int]@.contains(path[i + 1])
}

/// `w` can be reached from `u` along successors, in no steps or more.
pub open spec fn succ_reaches(succ: Seq<Vec<usize>>, u: usize, w: usize) -> bool {
    exists|path: Seq<usize>| path.len() >= 1 && path[0] == u && path.last() == w && #[trigger] succ_path(succ, path)
}

proof fn lemma_reaches_refl(succ: Seq<Vec<usize>>, u: usize)
    ensures
        succ_reaches(succ, u, u),
{
    let path = seq![u];
    assert(succ_path(succ, path));
}

proof fn lemma_reaches_edge(succ: Seq<Vec<usize>>, u: usize, m: int)
    requires
        0 <= m < succ[u as int]@.len(),
    ensures
        succ_reaches(succ, u, succ[u as int]@[m]),
{
    let w = succ[u as int]@[m];
    let path = seq![u, w];
    assert(succ[u as int]@.contains(w));
    assert forall|i: int| 0 <= i && i + 1 < path.len() implies succ[#[trigger] path[i] as int]@.contains(path[i + 1]) by {
        assert(i == 0);
    }
    assert(succ_path(succ, path));
}

proof fn lemma_reaches_trans(succ: Seq<Vec<usize>>, u: usize, w: usize, x: usize)
    requires
        succ_reaches(succ, u, w),
        succ_reaches(succ, w, x),
    ensures
        succ_reaches(succ, u, x),
{
    let p1 = choose|path: Seq<usize>| path.len() >= 1 && path[0] == u && path.last() == w && #[trigger] succ_path(succ, path);
    let p2 = choose|path: Seq<usize>| path.len() >= 1 && path[0] == w && path.last() == x && #[trigger] succ_path(succ, path);
    let p = p1 + p2.drop_first();
    assert forall|i: int| 0 <= i && i + 1 < p.len() implies succ[#[trigger] p[i] as int]@.contains(p[i + 1]) by {
        if i + 1 < p1.len() {
            assert(p[i] == p1[i]);
            assert(p[i + 1] == p1[i + 1]);
        } else if i + 1 == p1.len() {
            assert(p[i] == p1[i]);
            assert(p1[i] == p2[0]);
            assert(p[i + 1] == p2[1]);
            assert(succ[p2[0] as int]@.contains(p2[1]));
        } else {
            let j = i - p1.len() + 1;
            assert(p[i] == p2[j]);
            assert(p[i + 1] == p2[j + 1]);
            assert(succ[p2[j] as int]@.contains(p2[j + 1]));
        }
    }
    assert(succ_path(succ, p));
    if p2.len() == 1 {
        assert(p =~= p1);
    } else {
        assert(p.last() == p2.last());
    }
}

/// Each vertex on the stack reaches all those above it.
#[verifier::opaque]
pub open spec fn stack_reaches(succ: Seq<Vec<usize>>, st: Seq<usize>) -> bool {
    forall|i: int, j: int| 0 <= i < j < st.len() ==> #[trigger] succ_reaches(succ, st[i], st[j])
}

/// The vertex at `k` on the stack, at or below the one at `j`, is reached
/// from it and numbered with its low link.
pub open spec fn low_witness(succ: Seq<Vec<usize>>, ix: Seq<Option<usize>>, low: Seq<usize>, st: Seq<usize>, j: int, k: int) -> bool {
    &&& 0 <= k <= j
    &&& ix[st[k] as int]->Some_0 == low[st[j] as int]
    &&& succ_reaches(succ, st[j], st[k])
}

pub open spec fn has_low_witness(succ: Seq<Vec<usize>>, ix: Seq<Option<usize>>, low: Seq<usize>, st: Seq<usize>, j: int) -> bool {
    exists|k: int| #[trigger] low_witness(succ, ix, low, st, j, k)
}

/// The low link of each vertex on the stack is the number of a vertex at or
/// below it that it reaches.
#[verifier::opaque]
pub open spec fn low_witnessed(succ: Seq<Vec<usize>>, ix: Seq<Option<usize>>, low: Seq<usize>, st: Seq<usize>) -> bool {
    forall|j: int| 0 <= j < st.len() ==> #[trigger] has_low_witness(succ, ix, low, st, j)
}

/// The vertices of each component reach each other.
#[verifier::opaque]
pub open spec fn components_connected(succ: Seq<Vec<usize>>, comps: Seq<Vec<usize>>) -> bool {
    forall|c: int, k1: int, k2: int|
        0 <= c < comps.len() && 0 <= k1 < comps[c]@.len() && 0 <= k2 < comps[c]@.len() ==> #[trigger] succ_reaches(
            succ,
            comps[c]@[k1],
            comps[c]@[k2],
        )
}

/// A vertex on the stack at `base` or above reaches the one at `base` when
/// each one above `base` has a low link below its number.
proof fn lemma_reaches_base(succ: Seq<Vec<usize>>, ix: Seq<Option<usize>>, low: Seq<usize>, st: Seq<usize>, base: int, j: int)
    requires
        stack_reaches(succ, st),
        low_witnessed(succ, ix, low, st),
        0 <= base <= j < st.len(),
        forall|i: int| base < i < st.len() ==> low[#[trigger] st[i] as int] < ix[st[i] as int]->Some_0,
        forall|i: int, k: int| 0 <= i < k < st.len() ==> ix[#[trigger] st[i] as int]->Some_0 < ix[#[trigger] st[k] as int]->Some_0,
    ensures
        succ_reaches(succ, st[j], st[base]),
    decreases j,
{
    reveal(stack_reaches);
    reveal(low_witnessed);
    if j == base {
        lemma_reaches_refl(succ, st[j]);
    } else {
        let u = st[j];
        assert(low[u as int] < ix[u as int]->Some_0);
        assert(has_low_witness(succ, ix, low, st, j));
        let k = choose|k: int| #[trigger] low_witness(succ, ix, low, st, j, k);
        if k == j {
            assert(false);
        } else if k < base {
            assert(succ_reaches(succ, st[k], st[base]));
            lemma_reaches_trans(succ, u, st[k], st[base]);
        } else if k > base {
            lemma_reaches_base(succ, ix, low, st, base, k);
            lemma_reaches_trans(succ, u, st[k], st[base]);
        }
    }
}

/// Giving the vertex at `pos` as low link the number of the vertex at `k`,
/// no higher, that it reaches keeps the low links witnessed.
proof fn lemma_low_witnessed_update(
    succ: Seq<Vec<usize>>,
    ix: Seq<Option<usize>>,
    low: Seq<usize>,
    st: Seq<usize>,
    pos: int,
    k: int,
    val: usize,
)
    requires
        low_witnessed(succ, ix, low, st),
        st.no_duplicates(),
        forall|i: int| 0 <= i < st.len() ==> (#[trigger] st[i]) < low.len(),
        0 <= k <= pos < st.len(),
        ix[st[k] as int]->Some_0 == val,
        succ_reaches(succ, st[pos], st[k]),
    ensures
        low_witnessed(succ, ix, low.update(st[pos] as int, val), st),
{
    reveal(low_witnessed);
    let low2 = low.update(st[pos] as int, val);
    assert forall|j: int| 0 <= j < st.len() implies #[trigger] has_low_witness(succ, ix, low2, st, j) by {
        assert(st[j] < low.len());
        assert(st[pos] < low.len());
        if j == pos {
            assert(low_witness(succ, ix, low2, st, j, k));
        } else {
            assert(st[j] != st[pos]);
            assert(low2[st[j] as int] == low[st[j] as int]);
            assert(has_low_witness(succ, ix, low, st, j));
            let kk = choose|kk: int| #[trigger] low_witness(succ, ix, low, st, j, kk);
            assert(low_witness(succ, ix, low2, st, j, kk));
        }
    }
}

/// What holds of the stack holds of its part below `base`.
proof fn lemma_stack_prefix(succ: Seq<Vec<usize>>, ix: Seq<Option<usize>>, low: Seq<usize>, st: Seq<usize>, base: int)
    requires
        stack_reaches(succ, st),
        low_witnessed(succ, ix, low, st),
        0 <= base <= st.len(),
    ensures
        stack_reaches(succ, st.take(base)),
        low_witnessed(succ, ix, low, st.take(base)),
{
    reveal(stack_reaches);
    reveal(low_witnessed);
    let t = st.take(base);
    assert forall|i: int, j: int| 0 <= i < j < t.len() implies #[trigger] succ_reaches(succ, t[i], t[j]) by {
        assert(t[i] == st[i]);
        assert(t[j] == st[j]);
        assert(succ_reaches(succ, st[i], st[j]));
    }
    assert forall|j: int| 0 <= j < t.len() implies #[trigger] has_low_witness(succ, ix, low, t, j) by {
        assert(has_low_witness(succ, ix, low, st, j));
        let kk = choose|kk: int| #[trigger] low_witness(succ, ix, low, st, j, kk);
        assert(t[kk] == st[kk]);
        assert(t[j] == st[j]);
        assert(low_witness(succ, ix, low, t, j, kk));
    }
}

/// Pushing `v`, reached from every vertex of the stack, with its own number
/// as low link keeps the stack reaching upward and the low links witnessed.
proof fn lemma_push_vertex(
    succ: Seq<Vec<usize>>,
    ix0: Seq<Option<usize>>,
    low0: Seq<usize>,
    st0: Seq<usize>,
    ix: Seq<Option<usize>>,
    low: Seq<usize>,
    v: usize,
)
    requires
        stack_reaches(succ, st0),
        low_witnessed(succ, ix0, low0, st0),
        forall|i: int| 0 <= i < st0.len() ==> #[trigger] succ_reaches(succ, st0[i], v),
        forall|i: int| 0 <= i < st0.len() ==> (#[trigger] st0[i]) < ix0.len() && ix0[st0[i] as int] is Some,
        forall|p: int| 0 <= p < ix0.len() && (#[trigger] ix0[p]) is Some ==> ix[p] == ix0[p] && low[p] == low0[p],
        low[v as int] == ix[v as int]->Some_0,
    ensures
        stack_reaches(succ, st0.push(v)),
        low_witnessed(succ, ix, low, st0.push(v)),
{
    reveal(stack_reaches);
    reveal(low_witnessed);
    let st = st0.push(v);
    assert forall|i: int, j: int| 0 <= i < j < st.len() implies #[trigger] succ_reaches(succ, st[i], st[j]) by {
        assert(st[i] == st0[i]);
        if j < st0.len() {
            assert(st[j] == st0[j]);
            assert(succ_reaches(succ, st0[i], st0[j]));
        } else {
            assert(succ_reaches(succ, st0[i], v));
        }
    }
    assert forall|j: int| 0 <= j < st.len() implies #[trigger] has_low_witness(succ, ix, low, st, j) by {
        if j < st0.len() {
            assert(has_low_witness(succ, ix0, low0, st0, j));
            let kk = choose|kk: int| #[trigger] low_witness(succ, ix0, low0, st0, j, kk);
            assert(st[kk] == st0[kk]);
            assert(st[j] == st0[j]);
            assert(st0[j] < ix0.len() && st0[kk] < ix0.len());
            assert(low_witness(succ, ix, low, st, j, kk));
        } else {
            lemma_reaches_refl(succ, v);
            assert(low_witness(succ, ix, low, st, j, j));
        }
    }
}

/// Lowering the low link of the vertex at `base` to the number of one it
/// reaches, below it on the stack or to which the low link of one it reaches
/// points, keeps the low links witnessed.
proof fn lemma_lower_to_reached(
    succ: Seq<Vec<usize>>,
    ix: Seq<Option<usize>>,
    low: Seq<usize>,
    st: Seq<usize>,
    base: int,
    pw: int,
    val: usize,
)
    requires
        low_witnessed(succ, ix, low, st),
        st.no_duplicates(),
        forall|i: int| 0 <= i < st.len() ==> (#[trigger] st[i]) < low.len(),
        forall|i: int, k: int| 0 <= i < k < st.len() ==> ix[#[trigger] st[i] as int]->Some_0 < ix[#[trigger] st[k] as int]->Some_0,
        0 <= base < st.len(),
        0 <= pw < st.len(),
        succ_reaches(succ, st[base], st[pw]),
        val < ix[st[base] as int]->Some_0,
        val == ix[st[pw] as int]->Some_0 || val == low[st[pw] as int],
    ensures
        low_witnessed(succ, ix, low.update(st[base] as int, val), st),
{
    if val == ix[st[pw] as int]->Some_0 {
        if pw >= base {
            if pw > base {
                assert(ix[st[base] as int]->Some_0 < ix[st[pw] as int]->Some_0);
            }
            assert(false);
        }
        lemma_low_witnessed_update(succ, ix, low, st, base, pw, val);
    } else {
        assert(has_low_witness(succ, ix, low, st, pw)) by {
            reveal(low_witnessed);
        }
        let k = choose|k: int| #[trigger] low_witness(succ, ix, low, st, pw, k);
        if k >= base {
            if k > base {
                assert(ix[st[base] as int]->Some_0 < ix[st[k] as int]->Some_0);
            }
            assert(false);
        }
        lemma_reaches_trans(succ, st[base], st[pw], st[k]);
        lemma_low_witnessed_update(succ, ix, low, st, base, k, val);
    }
}

/// The vertices from `base` up reach each other, when each one above
/// `base` has a low link below its number.
proof fn lemma_component_reaches(succ: Seq<Vec<usize>>, ix: Seq<Option<usize>>, low: Seq<usize>, st: Seq<usize>, base: int)
    requires
        stack_reaches(succ, st),
        low_witnessed(succ, ix, low, st),
        0 <= base < st.len(),
        forall|i: int| base < i < st.len() ==> low[#[trigger] st[i] as int] < ix[st[i] as int]->Some_0,
        forall|i: int, k: int| 0 <= i < k < st.len() ==> ix[#[trigger] st[i] as int]->Some_0 < ix[#[trigger] st[k] as int]->Some_0,
    ensures
        forall|i: int, j: int| base <= i < st.len() && base <= j < st.len() ==> #[trigger] succ_reaches(succ, st[i], st[j]),
{
    assert forall|i: int, j: int| base <= i < st.len() && base <= j < st.len() implies #[trigger] succ_reaches(
        succ,
        st[i],
        st[j],
    ) by {
        lemma_reaches_base(succ, ix, low, st, base, i);
        if j == base {
        } else {
            assert(succ_reaches(succ, st[base], st[j])) by {
                reveal(stack_reaches);
            }
            lemma_reaches_trans(succ, st[i], st[base], st[j]);
        }
    }
}

/// Every numbered vertex has a low link no greater than its number.
pub open spec fn lowlinks_bounded(ix: Seq<Option<usize>>, low: Seq<usize>) -> bool {
    forall|p: int| 0 <= p < ix.len() && (#[trigger] ix[p]) is Some ==> low[p] <= ix[p]->Some_0
}

/// The first `upto` successors of `p` are numbered, and each has been given
/// out or is on the stack with a number no lower than `p`'s low link.
pub open spec fn scanned(
    succ: Seq<Vec<usize>>,
    p: int,
    upto: int,
    ix: Seq<Option<usize>>,
    low: Seq<usize>,
    st: Seq<usize>,
    out: Seq<usize>,
) -> bool {
    forall|m: int|
        0 <= m < upto ==> ix[#[trigger] succ[p]@[m] as int] is Some && (out.contains(succ[p]@[m]) || (st.contains(
            succ[p]@[m],
        ) && low[p] <= ix[succ[p]@[m] as int]->Some_0))
}

/// Every numbered vertex whose search is over, that is, each one outside
/// `active`, has all its successors scanned.
pub open spec fn finished_scanned(
    succ: Seq<Vec<usize>>,
    active: Set<usize>,
    ix: Seq<Option<usize>>,
    low: Seq<usize>,
    st: Seq<usize>,
    out: Seq<usize>,
) -> bool {
    forall|p: int|
        0 <= p < ix.len() && (#[trigger] ix[p]) is Some && !active.contains(p as usize) ==> scanned(
            succ,
            p,
            succ[p]@.len() as int,
            ix,
            low,
            st,
            out,
        )
}

/// What was scanned stays so while numbers stay, what was given out stays
/// given out, the low link does not grow, and every numbered vertex is on
/// the stack or given out.
proof fn lemma_scanned_stable(
    succ: Seq<Vec<usize>>,
    p: int,
    upto: int,
    ix1: Seq<Option<usize>>,
    low1: Seq<usize>,
    st1: Seq<usize>,
    out1: Seq<usize>,
    ix2: Seq<Option<usize>>,
    low2: Seq<usize>,
    st2: Seq<usize>,
    out2: Seq<usize>,
)
    requires
        scanned(succ, p, upto, ix1, low1, st1, out1),
        ix1.len() == ix2.len(),
        forall|x: int| 0 <= x < ix1.len() && (#[trigger] ix1[x]) is Some ==> ix2[x] == ix1[x],
        forall|x: int| 0 <= x < ix2.len() ==> ((#[trigger] ix2[x]) is Some <==> (st2.contains(x as usize) || out2.contains(x as usize))),
        forall|x: usize| #[trigger] out1.contains(x) ==> out2.contains(x),
        forall|m: int| 0 <= m < upto ==> (#[trigger] succ[p]@[m]) < ix1.len(),
        low2[p] <= low1[p],
    ensures
        scanned(succ, p, upto, ix2, low2, st2, out2),
{
    assert forall|m: int| 0 <= m < upto implies ix2[#[trigger] succ[p]@[m] as int] is Some && (out2.contains(succ[p]@[m]) || (
        st2.contains(succ[p]@[m]) && low2[p] <= ix2[succ[p]@[m] as int]->Some_0)) by {
        let x = succ[p]@[m];
        assert(ix1[x as int] is Some);
        assert(ix2[x as int] == ix1[x as int]);
        if out1.contains(x) {
            assert(out2.contains(x));
        }
    }
}

/// Lowering the low link of `p` keeps its successors scanned.
proof fn lemma_scanned_lower(
    succ: Seq<Vec<usize>>,
    p: int,
    upto: int,
    ix: Seq<Option<usize>>,
    low: Seq<usize>,
    low2: Seq<usize>,
    st: Seq<usize>,
    out: Seq<usize>,
)
    requires
        scanned(succ, p, upto, ix, low, st, out),
        low2[p] <= low[p],
    ensures
        scanned(succ, p, upto, ix, low2, st, out),
{
    assert forall|m: int| 0 <= m < upto implies ix[#[trigger] succ[p]@[m] as int] is Some && (out.contains(succ[p]@[m]) || (
        st.contains(succ[p]@[m]) && low2[p] <= ix[succ[p]@[m] as int]->Some_0)) by {
        assert(ix[succ[p]@[m] as int] is Some);
    }
}

/// Lowering the low link of an active vertex keeps the finished ones
/// scanned and the low links bounded.
proof fn lemma_lower_active(
    succ: Seq<Vec<usize>>,
    active: Set<usize>,
    ix: Seq<Option<usize>>,
    low: Seq<usize>,
    st: Seq<usize>,
    out: Seq<usize>,
    v: int,
    val: usize,
)
    requires
        finished_scanned(succ, active, ix, low, st, out),
        lowlinks_bounded(ix, low),
        active.contains(v as usize),
        0 <= v < ix.len(),
        low.len() == ix.len(),
        val <= low[v],
    ensures
        finished_scanned(succ, active, ix, low.update(v, val), st, out),
        lowlinks_bounded(ix, low.update(v, val)),
{
    let low2 = low.update(v, val);
    assert forall|p: int| 0 <= p < ix.len() && (#[trigger] ix[p]) is Some && !active.contains(p as usize) implies scanned(
        succ,
        p,
        succ[p]@.len() as int,
        ix,
        low2,
        st,
        out,
    ) by {
        assert(p != v);
        lemma_scanned_lower(succ, p, succ[p]@.len() as int, ix, low, low2, st, out);
    }
    assert forall|p: int| 0 <= p < ix.len() && (#[trigger] ix[p]) is Some implies low2[p] <= ix[p]->Some_0 by {
        assert(low[p] <= ix[p]->Some_0);
    }
}

/// Giving out vertices of the stack, numbers and low links unchanged,
/// keeps the finished vertices scanned.
proof fn lemma_finished_stable(
    succ: Seq<Vec<usize>>,
    active: Set<usize>,
    ix: Seq<Option<usize>>,
    low: Seq<usize>,
    st1: Seq<usize>,
    out1: Seq<usize>,
    st2: Seq<usize>,
    out2: Seq<usize>,
)
    requires
        finished_scanned(succ, active, ix, low, st1, out1),
        successors_valid(succ),
        ix.len() == succ.len(),
        forall|x: int| 0 <= x < ix.len() ==> ((#[trigger] ix[x]) is Some <==> (st2.contains(x as usize) || out2.contains(x as usize))),
        forall|x: usize| #[trigger] out1.contains(x) ==> out2.contains(x),
    ensures
        finished_scanned(succ, active, ix, low, st2, out2),
{
    assert forall|p: int| 0 <= p < ix.len() && (#[trigger] ix[p]) is Some && !active.contains(p as usize) implies scanned(
        succ,
        p,
        succ[p]@.len() as int,
        ix,
        low,
        st2,
        out2,
    ) by {
        lemma_scanned_stable(succ, p, succ[p]@.len() as int, ix, low, st1, out1, ix, low, st2, out2);
    }
}

/// When `v`, at `base` on the stack, keeps its own number as low link once
/// its successors are scanned, every successor of a vertex from `base` up
/// has been given out or lies from `base` up.
proof fn lemma_component_closed(
    succ: Seq<Vec<usize>>,
    active: Set<usize>,
    counter: nat,
    ix: Seq<Option<usize>>,
    low: Seq<usize>,
    st: Seq<usize>,
    on: Seq<bool>,
    out: Seq<usize>,
    v: usize,
    base: int,
)
    requires
        tarjan_inv(succ.len(), counter, ix, st, on, out),
        successors_valid(succ),
        finished_scanned(succ, active.insert(v), ix, low, st, out),
        scanned(succ, v as int, succ[v as int]@.len() as int, ix, low, st, out),
        0 <= base < st.len(),
        st[base] == v,
        ix[v as int] is Some,
        low[v as int] == ix[v as int]->Some_0,
        forall|p: usize| #[trigger] active.contains(p) ==> st.take(base).contains(p),
        forall|j: int| base < j < st.len() ==> low[v as int] <= low[#[trigger] st[j] as int],
    ensures
        forall|j: int, m: int|
            base <= j < st.len() && 0 <= m < succ[st[j] as int]@.len() ==> out.contains(#[trigger] succ[st[j] as int]@[m])
                || st.skip(base).contains(succ[st[j] as int]@[m]),
{
    let n = succ.len();
    assert forall|j: int, m: int|
        base <= j < st.len() && 0 <= m < succ[st[j] as int]@.len() implies out.contains(#[trigger] succ[st[j] as int]@[m])
            || st.skip(base).contains(succ[st[j] as int]@[m]) by {
        let u = st[j];
        let x = succ[u as int]@[m];
        assert(u < n);
        assert(st.contains(u));
        if j > base {
            assert(u != v) by {
                assert(st[base] == v);
            }
            assert(!active.contains(u)) by {
                if active.contains(u) {
                    assert(st.take(base).contains(u));
                    let i = choose|i: int| 0 <= i < base && st.take(base)[i] == u;
                    assert(st[i] == u);
                }
            }
            assert(ix[u as int] is Some);
            assert(scanned(succ, u as int, succ[u as int]@.len() as int, ix, low, st, out));
            assert(low[v as int] <= low[u as int]);
        }
        assert(ix[x as int] is Some);
        if !out.contains(x) {
            assert(st.contains(x));
            assert(low[u as int] <= ix[x as int]->Some_0);
            let i = choose|i: int| 0 <= i < st.len() && st[i] == x;
            if i < base {
                assert(ix[st[i] as int]->Some_0 < ix[st[base] as int]->Some_0);
            }
            assert(st.skip(base)[i - base] == x);
        }
    }
}

/// A vertex given out among the first components is given out among all.
proof fn lemma_flat_take_contains(out: Seq<Vec<usize>>, k: int, x: usize)
    requires
        0 <= k <= out.len(),
        flat_vecs(out.take(k)).contains(x),
    ensures
        flat_vecs(out).contains(x),
    decreases out.len(),
{
    if k == out.len() {
        assert(out.take(k) =~= out);
    } else {
        assert(out.drop_last().take(k) =~= out.take(k));
        lemma_flat_take_contains(out.drop_last(), k, x);
        lemma_flat_push(out.drop_last(), out.last());
        assert(out.drop_last().push(out.last()) =~= out);
        let i = choose|i: int| 0 <= i < flat_vecs(out.drop_last()).len() && flat_vecs(out.drop_last())[i] == x;
        assert(flat_vecs(out)[i] == x);
    }
}

/// Components mapped one by one give all their vertices mapped.
proof fn lemma_flat_map(comps: Seq<Vec<usize>>, pos: Seq<Vec<usize>>, f: spec_fn(usize) -> usize, c: int)
    requires
        0 <= c <= comps.len(),
        comps.len() == pos.len(),
        forall|d: int| 0 <= d < comps.len() ==> (#[trigger] comps[d])@ == pos[d]@.map_values(f),
    ensures
        flat_vecs(comps.take(c)) == flat_vecs(pos.take(c)).map_values(f),
    decreases c,
{
    if c == 0 {
        assert(flat_vecs(comps.take(0)) =~= Seq::<usize>::empty());
        assert(flat_vecs(pos.take(0)) =~= Seq::<usize>::empty());
    } else {
        lemma_flat_map(comps, pos, f, c - 1);
        assert(comps.take(c) =~= comps.take(c - 1).push(comps[c - 1]));
        assert(pos.take(c) =~= pos.take(c - 1).push(pos[c - 1]));
        lemma_flat_push(comps.take(c - 1), comps[c - 1]);
        lemma_flat_push(pos.take(c - 1), pos[c - 1]);
        assert(flat_vecs(comps.take(c)) =~= flat_vecs(pos.take(c)).map_values(f));
    }
}

/// Numbers `v`, searches from it, and gives out its component when `v` is
/// the first of it numbered. The stack below `v` is left as it was; what
/// stays above it, `v` first, is there because `v` reaches a vertex below it,
/// whose number `v`'s low link then is.
#[verifier::rlimit(50)]
#[verifier::spinoff_prover]
fn strongconnect(
    v: usize,
    succ: &Vec<Vec<usize>>,
    sccs: &mut Vec<Vec<usize>>,
    index: &mut usize,
    indices: &mut Vec<Option<usize>>,
    lowlinks: &mut Vec<usize>,
    stack: &mut Vec<usize>,
    on_stack: &mut Vec<bool>,
    Ghost(act): Ghost<Set<usize>>,
)
    requires
        successors_valid(succ@),
        tarjan_inv(succ@.len(), *old(index) as nat, old(indices)@, old(stack)@, old(on_stack)@, flat_vecs(old(sccs)@)),
        old(lowlinks)@.len() == succ@.len(),
        v < succ@.len(),
        old(indices)@[v as int] is None,
        successors_ordered(succ@, old(sccs)@),
        lowlinks_bounded(old(indices)@, old(lowlinks)@),
        finished_scanned(succ@, act, old(indices)@, old(lowlinks)@, old(stack)@, flat_vecs(old(sccs)@)),
        forall|p: usize| #[trigger] act.contains(p) ==> old(stack)@.contains(p),
        components_connected(succ@, old(sccs)@),
        components_nonempty(old(sccs)@),
        stack_reaches(succ@, old(stack)@),
        low_witnessed(succ@, old(indices)@, old(lowlinks)@, old(stack)@),
        forall|i: int| 0 <= i < old(stack)@.len() ==> #[trigger] succ_reaches(succ@, old(stack)@[i], v),
    ensures
        components_connected(succ@, final(sccs)@),
        components_nonempty(final(sccs)@),
        stack_reaches(succ@, final(stack)@),
        low_witnessed(succ@, final(indices)@, final(lowlinks)@, final(stack)@),
        forall|j: int|
            old(stack)@.len() <= j < final(stack)@.len() ==> final(lowlinks)@[#[trigger] final(stack)@[j] as int]
                < final(indices)@[final(stack)@[j] as int]->Some_0,
        successors_ordered(succ@, final(sccs)@),
        final(sccs)@.len() >= old(sccs)@.len(),
        final(sccs)@.take(old(sccs)@.len() as int) == old(sccs)@,
        lowlinks_bounded(final(indices)@, final(lowlinks)@),
        finished_scanned(succ@, act, final(indices)@, final(lowlinks)@, final(stack)@, flat_vecs(final(sccs)@)),
        forall|j: int|
            old(stack)@.len() < j < final(stack)@.len() ==> final(lowlinks)@[v as int] <= final(lowlinks)@[
                #[trigger] final(stack)@[j] as int],
        tarjan_inv(succ@.len(), *final(index) as nat, final(indices)@, final(stack)@, final(on_stack)@, flat_vecs(final(sccs)@)),
        final(lowlinks)@.len() == succ@.len(),
        *old(index) < *final(index),
        final(indices)@[v as int] == Some(*old(index)),
        forall|p: int| 0 <= p < succ@.len() && (#[trigger] old(indices)@[p]) is Some ==> final(indices)@[p]
            == old(indices)@[p] && final(lowlinks)@[p] == old(lowlinks)@[p],
        final(stack)@.len() >= old(stack)@.len(),
        final(stack)@.take(old(stack)@.len() as int) == old(stack)@,
        final(stack)@.len() == old(stack)@.len() ==> final(lowlinks)@[v as int] == *old(index),
        final(stack)@.len() > old(stack)@.len() ==> final(stack)@[old(stack)@.len() as int] == v && exists|i: int|
            0 <= i < old(stack)@.len() && final(lowlinks)@[v as int] == final(indices)@[#[trigger] old(stack)@[i] as int]->Some_0,
    decreases succ@.len() - *old(index),
{
    let ghost n = succ@.len();
    let n_vertices = succ.len();
    let ghost st0 = stack@;
    let ghost ix0 = indices@;
    let ghost low0 = lowlinks@;
    let c0 = *index;
    let base = stack.len();
    proof {
        assert(n == n_vertices);
        lemma_visited_count(indices@, v as int, c0);
    }
    indices.set(v, Some(c0));
    lowlinks.set(v, c0);
    *index = c0 + 1;
    stack.push(v);
    on_stack.set(v, true);
    proof {
        let st = stack@;
        assert(st =~= st0.push(v));
        assert(!st0.contains(v));
        assert forall|i: int, j: int| 0 <= i < st.len() && 0 <= j < st.len() && i != j implies st[i] != st[j] by {
            if i == st0.len() {
                assert(st0.contains(st[j]));
            } else if j == st0.len() {
                assert(st0.contains(st[i]));
            }
        }
        assert forall|p: int| 0 <= p < n implies (#[trigger] on_stack@[p] <==> st.contains(p as usize)) by {
            if st.contains(p as usize) && p != v as int {
                let i = choose|i: int| 0 <= i < st.len() && st[i] == p as usize;
                assert(st0[i] == p as usize);
            }
            if st0.contains(p as usize) {
                let i = choose|i: int| 0 <= i < st0.len() && st0[i] == p as usize;
                assert(st[i] == p as usize);
            }
            if p == v as int {
                assert(st[st0.len() as int] == v);
            }
        }
        assert forall|p: int| 0 <= p < n implies ((#[trigger] indices@[p]) is Some <==> (st.contains(p as usize)
            || flat_vecs(sccs@).contains(p as usize))) by {
            if st.contains(p as usize) && p != v as int {
                let i = choose|i: int| 0 <= i < st.len() && st[i] == p as usize;
                assert(st0[i] == p as usize);
            }
            if st0.contains(p as usize) {
                let i = choose|i: int| 0 <= i < st0.len() && st0[i] == p as usize;
                assert(st[i] == p as usize);
            }
            if p == v as int {
                assert(st[st0.len() as int] == v);
            }
        }
        assert forall|p: usize| !(#[trigger] st.contains(p) && flat_vecs(sccs@).contains(p)) by {
            if st.contains(p) && p != v {
                let i = choose|i: int| 0 <= i < st.len() && st[i] == p;
                assert(st0[i] == p);
                assert(st0.contains(p));
            }
        }
        assert forall|i: int, j: int| 0 <= i < j < st.len() implies indices@[#[trigger] st[i] as int]->Some_0
            < indices@[#[trigger] st[j] as int]->Some_0 by {
            if j == st0.len() {
                assert(st0[i] < n);
                assert(ix0[st0[i] as int] is Some);
            } else {
                assert(st[i] == st0[i]);
                assert(st[j] == st0[j]);
                assert(st0[i] != v);
                assert(st0[j] != v);
            }
        }
        assert(tarjan_inv(n, *index as nat, indices@, stack@, on_stack@, flat_vecs(sccs@)));
        let out = flat_vecs(sccs@);
        assert forall|p: int| 0 <= p < n && (#[trigger] indices@[p]) is Some && !act.insert(v).contains(p as usize) implies scanned(
            succ@,
            p,
            succ@[p]@.len() as int,
            indices@,
            lowlinks@,
            stack@,
            out,
        ) by {
            assert(p != v as int);
            assert(ix0[p] is Some);
            assert(scanned(succ@, p, succ@[p]@.len() as int, ix0, low0, st0, out));
            lemma_scanned_stable(succ@, p, succ@[p]@.len() as int, ix0, low0, st0, out, indices@, lowlinks@, stack@, out);
        }
        assert forall|p: int| 0 <= p < n && (#[trigger] indices@[p]) is Some implies lowlinks@[p] <= indices@[p]->Some_0 by {
            if p != v as int {
                assert(ix0[p] is Some);
            }
        }
        assert(scanned(succ@, v as int, 0, indices@, lowlinks@, stack@, out));
        assert(st0 == stack@.drop_last());
        assert forall|i: int| 0 <= i < st0.len() implies (#[trigger] st0[i]) < ix0.len() && ix0[st0[i] as int] is Some by {
            assert(st0[i] < n);
        }
        lemma_push_vertex(succ@, ix0, low0, st0, indices@, lowlinks@, v);
        assert(st0.push(v) == st);
    }
    let ghost sccs0 = sccs@;
    let mut k: usize = 0;
    while k < succ[v].len()
        invariant
            successors_valid(succ@),
            n == succ@.len(),
            v < n,
            tarjan_inv(n, *index as nat, indices@, stack@, on_stack@, flat_vecs(sccs@)),
            lowlinks@.len() == n,
            c0 < *index,
            c0 == *old(index),
            n <= usize::MAX,
            ix0.len() == n,
            low0.len() == n,
            ix0[v as int] is None,
            indices@[v as int] == Some(c0),
            base == st0.len(),
            st0 == old(stack)@,
            ix0 == old(indices)@,
            low0 == old(lowlinks)@,
            stack@.len() > base,
            stack@.take(base as int) == st0,
            stack@[base as int] == v,
            forall|p: int| 0 <= p < n && (#[trigger] ix0[p]) is Some ==> indices@[p] == ix0[p] && lowlinks@[p]
                == low0[p],
            lowlinks@[v as int] <= c0,
            lowlinks@[v as int] == c0 || exists|i: int| 0 <= i < base && lowlinks@[v as int] == indices@[#[trigger] st0[i] as int]->Some_0,
            k <= succ@[v as int]@.len(),
            sccs0 == old(sccs)@,
            successors_ordered(succ@, sccs@),
            sccs@.len() >= sccs0.len(),
            sccs@.take(sccs0.len() as int) == sccs0,
            lowlinks_bounded(indices@, lowlinks@),
            finished_scanned(succ@, act.insert(v), indices@, lowlinks@, stack@, flat_vecs(sccs@)),
            scanned(succ@, v as int, k as int, indices@, lowlinks@, stack@, flat_vecs(sccs@)),
            forall|p: usize| #[trigger] act.contains(p) ==> st0.contains(p),
            forall|j: int| base < j < stack@.len() ==> lowlinks@[v as int] <= lowlinks@[#[trigger] stack@[j] as int],
            components_connected(succ@, sccs@),
            components_nonempty(sccs@),
            stack_reaches(succ@, stack@),
            low_witnessed(succ@, indices@, lowlinks@, stack@),
            forall|j: int| base < j < stack@.len() ==> lowlinks@[#[trigger] stack@[j] as int] < indices@[stack@[j] as int]->Some_0,
        decreases succ@[v as int]@.len() - k,
    {
        let w = succ[v][k];
        let ghost ix_pre = indices@;
        let ghost low_pre = lowlinks@;
        let ghost out_pre = flat_vecs(sccs@);
        let ghost st_pre = stack@;
        let ghost sccs_pre = sccs@;
        if indices[w].is_none() {
            let ghost st1 = stack@;
            let ghost c1 = *index;
            proof {
                lemma_visited_count(indices@, w as int, 0);
                assert forall|p: usize| #[trigger] act.insert(v).contains(p) implies stack@.contains(p) by {
                    if p == v {
                        assert(stack@[base as int] == v);
                    } else {
                        assert(st0.contains(p));
                        let i = choose|i: int| 0 <= i < st0.len() && st0[i] == p;
                        assert(stack@.take(base as int)[i] == p);
                    }
                }
            }
            proof {
                lemma_reaches_edge(succ@, v, k as int);
                assert forall|i: int| 0 <= i < stack@.len() implies #[trigger] succ_reaches(succ@, stack@[i], w) by {
                    if i < base {
                        assert(succ_reaches(succ@, stack@[i], stack@[base as int])) by {
                            reveal(stack_reaches);
                        }
                        lemma_reaches_trans(succ@, stack@[i], v, w);
                    } else if i > base {
                        lemma_reaches_base(succ@, indices@, lowlinks@, stack@, base as int, i);
                        lemma_reaches_trans(succ@, stack@[i], v, w);
                    }
                }
            }
            strongconnect(w, succ, sccs, index, indices, lowlinks, stack, on_stack, Ghost(act.insert(v)));
            proof {
                assert(sccs@.take(sccs0.len() as int) =~= sccs@.take(sccs_pre.len() as int).take(sccs0.len() as int));
                assert forall|x: usize| #[trigger] out_pre.contains(x) implies flat_vecs(sccs@).contains(x) by {
                    lemma_flat_take_contains(sccs@, sccs_pre.len() as int, x);
                }
                lemma_scanned_stable(succ@, v as int, k as int, ix_pre, low_pre, st_pre, out_pre, indices@, lowlinks@, stack@, flat_vecs(sccs@));
                if stack@.len() == st1.len() {
                    assert(stack@ =~= st1);
                }
                assert forall|j: int| base < j < stack@.len() implies lowlinks@[#[trigger] stack@[j] as int] < indices@[stack@[j] as int]->Some_0 by {
                    if j < st1.len() {
                        assert(stack@[j] == stack@.take(st1.len() as int)[j]);
                        assert(st1[j] < n);
                        assert(ix_pre[st1[j] as int] is Some);
                        assert(low_pre[st1[j] as int] < ix_pre[st1[j] as int]->Some_0);
                    }
                }
                assert forall|j: int| base < j < stack@.len() && j < st1.len() implies lowlinks@[v as int] <= lowlinks@[#[trigger] stack@[j] as int] by {
                    assert(stack@[j] == stack@.take(st1.len() as int)[j]);
                    assert(st1[j] < n);
                    assert(ix_pre[st1[j] as int] is Some);
                    assert(low_pre[st1[j] as int] == lowlinks@[st1[j] as int]);
                }
            }
            let lw = lowlinks[w];
            if lw < lowlinks[v] {
                proof {
                    if stack@.len() == st1.len() {
                        assert(lowlinks@[w as int] == c1);
                    }
                    assert(stack@[st1.len() as int] == w);
                    assert(stack@[base as int] == v);
                    assert forall|i: int| 0 <= i < stack@.len() implies (#[trigger] stack@[i]) < lowlinks@.len() by {
                        assert(stack@[i] < n);
                    }
                    lemma_lower_to_reached(succ@, indices@, lowlinks@, stack@, base as int, st1.len() as int, lw);
                    lemma_lower_active(succ@, act.insert(v), indices@, lowlinks@, stack@, flat_vecs(sccs@), v as int, lw);
                    lemma_scanned_lower(succ@, v as int, k as int, indices@, lowlinks@, lowlinks@.update(v as int, lw), stack@, flat_vecs(sccs@));
                }
                proof {
                    assert(stack@.len() > st1.len());
                    let i = choose|i: int| 0 <= i < st1.len() && lowlinks@[w as int] == indices@[#[trigger] st1[i] as int]->Some_0;
                    if i == base {
                        assert(st1[i] == v);
                    } else if i > base {
                        assert(indices@[st1[base as int] as int]->Some_0 < indices@[st1[i] as int]->Some_0);
                    } else {
                        assert(st1[i] == st0[i]);
                    }
                }
                lowlinks.set(v, lw);
            }
            proof {
                let out = flat_vecs(sccs@);
                if stack@.len() > st1.len() {
                    assert(stack@[st1.len() as int] == w);
                    assert(stack@.contains(w));
                    assert(lowlinks@[w as int] <= indices@[w as int]->Some_0);
                    assert forall|j: int| base < j < stack@.len() implies lowlinks@[v as int] <= lowlinks@[#[trigger] stack@[j] as int] by {
                        if j >= st1.len() {
                            if j > st1.len() {
                                assert(lowlinks@[w as int] <= lowlinks@[stack@[j] as int]);
                            }
                        }
                    }
                } else {
                    assert(!stack@.contains(w)) by {
                        if stack@.contains(w) {
                            let i = choose|i: int| 0 <= i < stack@.len() && stack@[i] == w;
                            assert(st1[i] == w);
                            assert(st1[i] < n);
                        }
                    }
                    assert(out.contains(w));
                }
                assert(scanned(succ@, v as int, k + 1, indices@, lowlinks@, stack@, out)) by {
                    assert(succ@[v as int]@[k as int] == w);
                }
            }
        } else if on_stack[w] {
            let iw = indices[w].unwrap();
            proof {
                assert(stack@.contains(w));
            }
            if iw < lowlinks[v] {
                proof {
                    let pw = choose|i: int| 0 <= i < stack@.len() && stack@[i] == w;
                    assert(stack@[base as int] == v);
                    lemma_reaches_edge(succ@, v, k as int);
                    assert forall|i: int| 0 <= i < stack@.len() implies (#[trigger] stack@[i]) < lowlinks@.len() by {
                        assert(stack@[i] < n);
                    }
                    lemma_lower_to_reached(succ@, indices@, lowlinks@, stack@, base as int, pw, iw);
                    lemma_lower_active(succ@, act.insert(v), indices@, lowlinks@, stack@, flat_vecs(sccs@), v as int, iw);
                    lemma_scanned_lower(succ@, v as int, k as int, indices@, lowlinks@, lowlinks@.update(v as int, iw), stack@, flat_vecs(sccs@));
                    assert forall|j: int| base < j < stack@.len() implies lowlinks@.update(v as int, iw)[v as int] <= lowlinks@.update(v as int, iw)[#[trigger] stack@[j] as int] by {
                        assert(stack@[j] != v) by {
                            assert(stack@[base as int] == v);
                        }
                        assert(lowlinks@[v as int] <= lowlinks@[stack@[j] as int]);
                    }
                }
                proof {
                    let st = stack@;
                    assert(st.contains(w));
                    let i = choose|i: int| 0 <= i < st.len() && st[i] == w;
                    if i == base {
                        assert(st[i] == v);
                    } else if i > base {
                        assert(indices@[st[base as int] as int]->Some_0 < indices@[st[i] as int]->Some_0);
                    } else {
                        assert(st[i] == st0[i]);
                    }
                }
                lowlinks.set(v, iw);
            }
            proof {
                assert(scanned(succ@, v as int, k + 1, indices@, lowlinks@, stack@, flat_vecs(sccs@))) by {
                    assert(succ@[v as int]@[k as int] == w);
                }
            }
        } else {
            proof {
                assert(!stack@.contains(w));
                assert(flat_vecs(sccs@).contains(w));
                assert(scanned(succ@, v as int, k + 1, indices@, lowlinks@, stack@, flat_vecs(sccs@))) by {
                    assert(succ@[v as int]@[k as int] == w);
                }
            }
        }
        proof {
            assert forall|p: int| 0 <= p < n && (#[trigger] ix0[p]) is Some implies indices@[p] == ix0[p] && lowlinks@[p]
                == low0[p] by {
                assert(ix_pre[p] == ix0[p]);
                assert(low_pre[p] == low0[p]);
                assert(p != v as int);
            }
        }
        k += 1;
    }
    proof {
        let out = flat_vecs(sccs@);
        assert forall|p: int| 0 <= p < n && (#[trigger] indices@[p]) is Some && !act.contains(p as usize) implies scanned(
            succ@,
            p,
            succ@[p]@.len() as int,
            indices@,
            lowlinks@,
            stack@,
            out,
        ) by {
            if p != v as int {
                assert(!act.insert(v).contains(p as usize));
            }
        }
    }
    if lowlinks[v] == c0 {
        let ghost st_pre = stack@;
        let ghost sccs_pre = sccs@;
        proof {
            assert forall|p: usize| #[trigger] act.contains(p) implies stack@.take(base as int).contains(p) by {
                assert(st0.contains(p));
            }
            lemma_component_reaches(succ@, indices@, lowlinks@, stack@, base as int);
            lemma_component_closed(
                succ@,
                act,
                *index as nat,
                indices@,
                lowlinks@,
                stack@,
                on_stack@,
                flat_vecs(sccs@),
                v,
                base as int,
            );
        }
        pop_component(v, base, indices, *index, stack, on_stack, sccs, Ghost(succ@));
        proof {
            assert(sccs@.take(sccs0.len() as int) =~= sccs@.take(sccs_pre.len() as int).take(sccs0.len() as int));
            assert forall|x: usize| #[trigger] flat_vecs(sccs_pre).contains(x) implies flat_vecs(sccs@).contains(x) by {
                lemma_flat_take_contains(sccs@, sccs_pre.len() as int, x);
            }
            lemma_finished_stable(succ@, act, indices@, lowlinks@, st_pre, flat_vecs(sccs_pre), stack@, flat_vecs(sccs@));
            lemma_stack_prefix(succ@, indices@, lowlinks@, st_pre, base as int);
        }
    }
}


proof fn lemma_visited_count_none(ix: Seq<Option<usize>>)
    requires
        forall|p: int| 0 <= p < ix.len() ==> ix[p] is None,
    ensures
        visited_count(ix) == 0,
    decreases ix.len(),
{
    if ix.len() > 0 {
        lemma_visited_count_none(ix.drop_last());
    }
}

/// The strongly connected components of a graph given as each vertex with
/// its successors, by Tarjan's algorithm: every vertex of the graph is in
/// exactly one of them; the vertices of a component reach each other; each
/// successor of a vertex is in the vertex's component or in an earlier one,
/// so that no vertex reaches one of a later component.
pub fn tarjan_scc_of_list(adj: &Vec<(usize, Vec<usize>)>) -> (sccs: Vec<Vec<usize>>)
    ensures
        forall|c: int| 0 <= c < sccs@.len() ==> (#[trigger] sccs@[c])@.len() > 0,
        flat_vecs(sccs@).no_duplicates(),
        flat_vecs(sccs@).to_set() == graph_vertices(adjacency_view(adj@)),
        forall|c: int, k1: int, k2: int|
            0 <= c < sccs@.len() && 0 <= k1 < sccs@[c]@.len() && 0 <= k2 < sccs@[c]@.len() ==> #[trigger] graph_reaches(
                adjacency_view(adj@),
                sccs@[c]@[k1],
                sccs@[c]@[k2],
            ),
        forall|c: int, k: int, m: int|
            0 <= c < sccs@.len() && 0 <= k < sccs@[c]@.len() && 0 <= m < listed_successors(
                adjacency_view(adj@),
                sccs@[c]@[k],
            ).len() ==> flat_vecs(sccs@.take(c + 1)).contains(
                #[trigger] listed_successors(adjacency_view(adj@), sccs@[c]@[k])[m],
            ),
        forall|c1: int, k1: int, c2: int, k2: int|
            0 <= c1 < c2 < sccs@.len() && 0 <= k1 < sccs@[c1]@.len() && 0 <= k2 < sccs@[c2]@.len() ==> !graph_reaches(
                adjacency_view(adj@),
                #[trigger] sccs@[c1]@[k1],
                #[trigger] sccs@[c2]@[k2],
            ),
{
    let verts = vertices_of(adj);
    let succ = successors_of(adj, &verts);
    let n = verts.len();
    let mut indices: Vec<Option<usize>> = Vec::new();
    let mut lowlinks: Vec<usize> = Vec::new();
    let mut on_stack: Vec<bool> = Vec::new();
    let mut i: usize = 0;
    while i < n
        invariant
            i <= n,
            indices@.len() == i,
            lowlinks@.len() == i,
            on_stack@.len() == i,
            forall|p: int| 0 <= p < i ==> #[trigger] indices@[p] is None && !on_stack@[p],
        decreases n - i,
    {
        let ghost ix_before = indices@;
        let ghost on_before = on_stack@;
        indices.push(None);
        lowlinks.push(0);
        on_stack.push(false);
        i += 1;
        proof {
            assert forall|p: int| 0 <= p < i implies #[trigger] indices@[p] is None && !on_stack@[p] by {
                if p < i - 1 {
                    assert(indices@[p] == ix_before[p]);
                    assert(on_stack@[p] == on_before[p]);
                }
            }
        }
    }
    let mut index: usize = 0;
    let mut stack: Vec<usize> = Vec::new();
    let mut positions: Vec<Vec<usize>> = Vec::new();
    proof {
        lemma_visited_count_none(indices@);
        let out = flat_vecs(positions@);
        assert(out =~= Seq::<usize>::empty());
        assert forall|p: int| 0 <= p < n implies (#[trigger] on_stack@[p] <==> stack@.contains(p as usize)) by {
            assert(indices@[p] is None);
            assert(!on_stack@[p]);
        }
        assert forall|p: int| 0 <= p < n implies ((#[trigger] indices@[p]) is Some <==> (stack@.contains(p as usize)
            || out.contains(p as usize))) by {
            assert(indices@[p] is None);
        }
        assert(tarjan_inv(n as nat, index as nat, indices@, stack@, on_stack@, out));
        assert forall|p: int| 0 <= p < n && (#[trigger] indices@[p]) is Some implies lowlinks@[p] <= indices@[p]->Some_0 by {
            assert(indices@[p] is None);
        }
        assert(components_connected(succ@, positions@)) by {
            reveal(components_connected);
        }
        assert(components_nonempty(positions@));
        assert forall|p: int| 0 <= p < n && (#[trigger] indices@[p]) is Some && !Set::<usize>::empty().contains(p as usize)
            implies scanned(succ@, p, succ@[p]@.len() as int, indices@, lowlinks@, stack@, out) by {
            assert(indices@[p] is None);
        }
    }
    let mut v: usize = 0;
    while v < n
        invariant
            v <= n,
            n == succ@.len(),
            n == verts@.len(),
            successors_valid(succ@),
            tarjan_inv(n as nat, index as nat, indices@, stack@, on_stack@, flat_vecs(positions@)),
            lowlinks@.len() == n,
            stack@.len() == 0,
            forall|p: int| 0 <= p < v ==> (#[trigger] indices@[p]) is Some,
            successors_ordered(succ@, positions@),
            components_connected(succ@, positions@),
            components_nonempty(positions@),
            lowlinks_bounded(indices@, lowlinks@),
            finished_scanned(succ@, Set::empty(), indices@, lowlinks@, stack@, flat_vecs(positions@)),
        decreases n - v,
    {
        if indices[v].is_none() {
            let ghost before = indices@;
            proof {
                assert(stack_reaches(succ@, stack@)) by {
                    reveal(stack_reaches);
                }
                assert(low_witnessed(succ@, indices@, lowlinks@, stack@)) by {
                    reveal(low_witnessed);
                }
            }
            strongconnect(
                v,
                &succ,
                &mut positions,
                &mut index,
                &mut indices,
                &mut lowlinks,
                &mut stack,
                &mut on_stack,
                Ghost(Set::empty()),
            );
            proof {
                assert forall|p: int| 0 <= p < v + 1 implies (#[trigger] indices@[p]) is Some by {
                    if p < v {
                        assert(before[p] is Some);
                    }
                }
            }
        }
        v += 1;
    }
    let ghost flat_positions = flat_vecs(positions@);
    proof {
        assert forall|p: usize| p < n implies #[trigger] flat_positions.contains(p) by {
            assert(indices@[p as int] is Some);
        }
    }
    let ghost f = |p: usize| verts@[p as int];
    let mut sccs: Vec<Vec<usize>> = Vec::new();
    let mut c: usize = 0;
    proof {
        assert(flat_vecs(sccs@) =~= flat_vecs(positions@.take(0)).map_values(f));
    }
    while c < positions.len()
        invariant
            c <= positions.len(),
            n == verts@.len(),
            f == (|p: usize| verts@[p as int]),
            flat_vecs(sccs@) == flat_vecs(positions@.take(c as int)).map_values(f),
            forall|i: int| 0 <= i < flat_vecs(positions@).len() ==> (#[trigger] flat_vecs(positions@)[i]) < n,
            sccs@.len() == c,
            forall|d: int| 0 <= d < c ==> (#[trigger] sccs@[d])@ == positions@[d]@.map_values(f),
            components_nonempty(positions@),
        decreases positions.len() - c,
    {
        let mut component: Vec<usize> = Vec::new();
        let mut j: usize = 0;
        proof {
            lemma_flat_push(positions@.take(c as int), positions@[c as int]);
            assert(positions@.take(c + 1) =~= positions@.take(c as int).push(positions@[c as int]));
            lemma_flat_prefix(positions@, c as int);
        }
        while j < positions[c].len()
            invariant
                c < positions.len(),
                j <= positions@[c as int]@.len(),
                n == verts@.len(),
                f == (|p: usize| verts@[p as int]),
                forall|k: int| 0 <= k < positions@[c as int]@.len() ==> (#[trigger] positions@[c as int]@[k]) < n,
                component@ == positions@[c as int]@.take(j as int).map_values(f),
            decreases positions@[c as int]@.len() - j,
        {
            let p = positions[c][j];
            component.push(verts[p]);
            proof {
                assert(positions@[c as int]@.take(j + 1) =~= positions@[c as int]@.take(j as int).push(p));
                assert(component@ =~= positions@[c as int]@.take(j + 1).map_values(f));
            }
            j += 1;
        }
        let ghost before = sccs@;
        sccs.push(component);
        proof {
            assert(positions@[c as int]@.take(j as int) =~= positions@[c as int]@);
            assert forall|d: int| 0 <= d < c + 1 implies (#[trigger] sccs@[d])@ == positions@[d]@.map_values(f) by {
                if d < c {
                    assert(sccs@[d] == before[d]);
                }
            }
            lemma_flat_push(before, component);
            assert(flat_vecs(sccs@) =~= flat_vecs(positions@.take(c + 1)).map_values(f));
        }
        c += 1;
    }
    proof {
        assert(positions@.take(c as int) =~= positions@);
        let g = flat_vecs(sccs@);
        assert(g == flat_positions.map_values(f));
        assert forall|i: int, j: int| 0 <= i < g.len() && 0 <= j < g.len() && i != j implies g[i] != g[j] by {
            assert(flat_positions[i] != flat_positions[j]);
            assert(flat_positions[i] < n && flat_positions[j] < n);
        }
        assert forall|x: usize| g.to_set().contains(x) <==> verts@.to_set().contains(x) by {
            if g.to_set().contains(x) {
                let i = choose|i: int| 0 <= i < g.len() && g[i] == x;
                assert(flat_positions[i] < n);
                assert(verts@[flat_positions[i] as int] == x);
            }
            if verts@.to_set().contains(x) {
                let p = choose|p: int| 0 <= p < verts@.len() && verts@[p] == x;
                assert(flat_positions.contains(p as usize));
                let i = choose|i: int| 0 <= i < flat_positions.len() && flat_positions[i] == p as usize;
                assert(g[i] == x);
            }
        }
        assert(g.to_set() =~= verts@.to_set());
        let a = adjacency_view(adj@);
        assert forall|c: int| 0 <= c < sccs@.len() implies (#[trigger] sccs@[c])@.len() > 0 by {
            assert(sccs@[c]@ == positions@[c]@.map_values(f));
            assert(positions@[c]@.len() > 0);
        }
        assert forall|c: int, k: int, m: int|
            0 <= c < sccs@.len() && 0 <= k < sccs@[c]@.len() && 0 <= m < listed_successors(a, sccs@[c]@[k]).len()
                implies flat_vecs(sccs@.take(c + 1)).contains(#[trigger] listed_successors(a, sccs@[c]@[k])[m]) by {
            let p = positions@[c]@[k];
            assert(sccs@[c]@ == positions@[c]@.map_values(f));
            assert(sccs@[c]@[k] == verts@[p as int]);
            lemma_flat_prefix(positions@, c);
            assert(flat_positions.contains(p));
            let x = succ@[p as int]@[m];
            assert(verts@[x as int] == listed_successors(a, verts@[p as int])[m]);
            assert(flat_vecs(positions@.take(c + 1)).contains(x));
            lemma_flat_map(sccs@, positions@, f, c + 1);
            let fp = flat_vecs(positions@.take(c + 1));
            let i = choose|i: int| 0 <= i < fp.len() && fp[i] == x;
            assert(flat_vecs(sccs@.take(c + 1))[i] == verts@[x as int]);
        }
        assert forall|c: int, k1: int, k2: int|
            0 <= c < sccs@.len() && 0 <= k1 < sccs@[c]@.len() && 0 <= k2 < sccs@[c]@.len() implies #[trigger] graph_reaches(
                a,
                sccs@[c]@[k1],
                sccs@[c]@[k2],
            ) by {
            let p1 = positions@[c]@[k1];
            let p2 = positions@[c]@[k2];
            assert(sccs@[c]@ == positions@[c]@.map_values(f));
            lemma_flat_prefix(positions@, c);
            assert(flat_positions.contains(p1));
            assert(succ_reaches(succ@, p1, p2)) by {
                reveal(components_connected);
            }
            lemma_reaches_in_graph(succ@, verts@, a, p1, p2);
        }
        assert forall|c1: int, k1: int, c2: int, k2: int|
            0 <= c1 < c2 < sccs@.len() && 0 <= k1 < sccs@[c1]@.len() && 0 <= k2 < sccs@[c2]@.len() implies !graph_reaches(
                a,
                #[trigger] sccs@[c1]@[k1],
                #[trigger] sccs@[c2]@[k2],
            ) by {
            lemma_no_reach_to_later(a, sccs@, c1, k1, c2, k2);
        }
    }
    sccs
}

/// The components before one are a part of all of them.
proof fn lemma_flat_prefix(out: Seq<Vec<usize>>, c: int)
    requires
        0 <= c < out.len(),
    ensures
        forall|k: int| 0 <= k < out[c]@.len() ==> flat_vecs(out).contains(#[trigger] out[c]@[k]),
    decreases out.len(),
{
    if c < out.len() - 1 {
        lemma_flat_prefix(out.drop_last(), c);
        lemma_flat_push(out.drop_last(), out.last());
        assert(out.drop_last().push(out.last()) =~= out);
        assert forall|k: int| 0 <= k < out[c]@.len() implies flat_vecs(out).contains(#[trigger] out[c]@[k]) by {
            assert(out.drop_last()[c] == out[c]);
            let i = choose|i: int| 0 <= i < flat_vecs(out.drop_last()).len() && flat_vecs(out.drop_last())[i] == out[c]@[k];
            assert(flat_vecs(out)[i] == out[c]@[k]);
        }
    } else {
        lemma_flat_push(out.drop_last(), out.last());
        assert(out.drop_last().push(out.last()) =~= out);
        assert forall|k: int| 0 <= k < out[c]@.len() implies flat_vecs(out).contains(#[trigger] out[c]@[k]) by {
            let base = flat_vecs(out.drop_last()).len();
            assert(flat_vecs(out)[base + k] == out[c]@[k]);
        }
    }
}


/// The vertices along a path of successors from a vertex are vertices.
proof fn lemma_path_bounded(succ: Seq<Vec<usize>>, path: Seq<usize>, i: int)
    requires
        successors_valid(succ),
        succ_path(succ, path),
        path.len() >= 1,
        path[0] < succ.len(),
        0 <= i < path.len(),
    ensures
        path[i] < succ.len(),
    decreases i,
{
    if i > 0 {
        lemma_path_bounded(succ, path, i - 1);
        let prev = succ[path[i - 1] as int]@;
        assert(prev.contains(path[i]));
        let m = choose|m: int| 0 <= m < prev.len() && prev[m] == path[i];
        assert(prev[m] < succ.len());
    }
}

/// Reaching along successors by position is reaching along the listed
/// successors of the vertices at those positions.
proof fn lemma_reaches_in_graph(
    succ: Seq<Vec<usize>>,
    verts: Seq<usize>,
    a: Seq<(usize, Seq<usize>)>,
    p: usize,
    q: usize,
)
    requires
        successors_valid(succ),
        succ.len() == verts.len(),
        forall|x: int| 0 <= x < succ.len() ==> (#[trigger] succ[x])@.len() == listed_successors(a, verts[x]).len(),
        forall|x: int, k: int| 0 <= x < succ.len() && 0 <= k < succ[x]@.len() ==> verts[#[trigger] succ[x]@[k] as int]
            == listed_successors(a, verts[x])[k],
        p < succ.len(),
        succ_reaches(succ, p, q),
    ensures
        graph_reaches(a, verts[p as int], verts[q as int]),
{
    let path = choose|path: Seq<usize>| path.len() >= 1 && path[0] == p && path.last() == q && #[trigger] succ_path(succ, path);
    let g = path.map_values(|x: usize| verts[x as int]);
    assert forall|i: int| 0 <= i && i + 1 < g.len() implies listed_successors(a, #[trigger] g[i]).contains(g[i + 1]) by {
        lemma_path_bounded(succ, path, i);
        let x = path[i];
        let sx = succ[x as int]@;
        assert(sx.contains(path[i + 1]));
        let m = choose|m: int| 0 <= m < sx.len() && sx[m] == path[i + 1];
        assert(verts[succ[x as int]@[m] as int] == listed_successors(a, verts[x as int])[m]);
        assert(g[i + 1] == listed_successors(a, g[i])[m]);
    }
    assert(graph_path(a, g));
    assert(g[0] == verts[p as int]);
    assert(g.last() == verts[q as int]);
}

/// The first `d` components are the first `c` and the ones from `c` to `d`.
pub proof fn lemma_flat_split(out: Seq<Vec<usize>>, c: int, d: int)
    requires
        0 <= c <= d <= out.len(),
    ensures
        flat_vecs(out.take(d)) == flat_vecs(out.take(c)) + flat_vecs(out.subrange(c, d)),
    decreases d,
{
    if d == c {
        assert(out.subrange(c, d) =~= Seq::<Vec<usize>>::empty());
        assert(flat_vecs(out.subrange(c, d)) =~= Seq::<usize>::empty());
        assert(out.take(d) =~= out.take(c));
        assert(flat_vecs(out.take(d)) =~= flat_vecs(out.take(c)) + flat_vecs(out.subrange(c, d)));
    } else {
        lemma_flat_split(out, c, d - 1);
        assert(out.take(d) =~= out.take(d - 1).push(out[d - 1]));
        assert(out.subrange(c, d) =~= out.subrange(c, d - 1).push(out[d - 1]));
        lemma_flat_push(out.take(d - 1), out[d - 1]);
        lemma_flat_push(out.subrange(c, d - 1), out[d - 1]);
        assert(flat_vecs(out.take(d)) =~= flat_vecs(out.take(c)) + flat_vecs(out.subrange(c, d)));
    }
}

/// A vertex among the first `c` components is in one of them.
pub proof fn lemma_flat_member(out: Seq<Vec<usize>>, c: int, x: usize)
    requires
        0 <= c <= out.len(),
        flat_vecs(out.take(c)).contains(x),
    ensures
        exists|d: int, k: int| 0 <= d < c && 0 <= k < out[d]@.len() && #[trigger] out[d]@[k] == x,
    decreases c,
{
    if c == 0 {
        assert(flat_vecs(out.take(0)) =~= Seq::<usize>::empty());
    } else {
        assert(out.take(c) =~= out.take(c - 1).push(out[c - 1]));
        lemma_flat_push(out.take(c - 1), out[c - 1]);
        let f = flat_vecs(out.take(c - 1));
        let i = choose|i: int| 0 <= i < flat_vecs(out.take(c)).len() && flat_vecs(out.take(c))[i] == x;
        if i < f.len() {
            assert(f[i] == x);
            lemma_flat_member(out, c - 1, x);
        } else {
            assert(out[c - 1]@[i - f.len()] == x);
        }
    }
}

/// The vertex at `k` of component `c` is at its place among all the
/// components' vertices.
pub proof fn lemma_flat_index(out: Seq<Vec<usize>>, c: int, k: int)
    requires
        0 <= c < out.len(),
        0 <= k < out[c]@.len(),
    ensures
        flat_vecs(out.take(c)).len() + k < flat_vecs(out).len(),
        flat_vecs(out)[flat_vecs(out.take(c)).len() + k] == out[c]@[k],
{
    lemma_flat_split(out, c + 1, out.len() as int);
    assert(out.take(out.len() as int) =~= out);
    assert(out.take(c + 1) =~= out.take(c).push(out[c]));
    lemma_flat_push(out.take(c), out[c]);
}

/// When each successor of a vertex lies in its component or an earlier one,
/// and no vertex is in two components, no vertex reaches a vertex of a
/// later component.
proof fn lemma_no_reach_to_later(
    a: Seq<(usize, Seq<usize>)>,
    comps: Seq<Vec<usize>>,
    c1: int,
    k1: int,
    c2: int,
    k2: int,
)
    requires
        flat_vecs(comps).no_duplicates(),
        forall|c: int, k: int, m: int|
            0 <= c < comps.len() && 0 <= k < comps[c]@.len() && 0 <= m < listed_successors(a, comps[c]@[k]).len()
                ==> flat_vecs(comps.take(c + 1)).contains(#[trigger] listed_successors(a, comps[c]@[k])[m]),
        0 <= c1 < c2 < comps.len(),
        0 <= k1 < comps[c1]@.len(),
        0 <= k2 < comps[c2]@.len(),
    ensures
        !graph_reaches(a, comps[c1]@[k1], comps[c2]@[k2]),
{
    if graph_reaches(a, comps[c1]@[k1], comps[c2]@[k2]) {
        let path = choose|path: Seq<usize>|
            path.len() >= 1 && path[0] == comps[c1]@[k1] && path.last() == comps[c2]@[k2] && #[trigger] graph_path(a, path);
        let early = flat_vecs(comps.take(c1 + 1));
        lemma_flat_index(comps.take(c1 + 1), c1, k1);
        assert(comps.take(c1 + 1).take(c1) =~= comps.take(c1));
        assert(comps.take(c1 + 1)[c1] == comps[c1]);
        lemma_path_stays_early(a, comps, c1, path, path.len() - 1);
        let w = comps[c2]@[k2];
        let i0 = choose|i: int| 0 <= i < early.len() && early[i] == w;
        lemma_flat_split(comps, c1 + 1, comps.len() as int);
        lemma_flat_split(comps, c1 + 1, c2);
        assert(comps.take(comps.len() as int) =~= comps);
        lemma_flat_index(comps, c2, k2);
        let l2 = flat_vecs(comps.take(c2)).len() + k2;
        assert(flat_vecs(comps)[i0] == w);
        assert(flat_vecs(comps)[l2] == w);
        assert(i0 < l2);
    }
}

/// Along a path from a vertex among the first `c1 + 1` components, every
/// vertex is among them.
proof fn lemma_path_stays_early(a: Seq<(usize, Seq<usize>)>, comps: Seq<Vec<usize>>, c1: int, path: Seq<usize>, i: int)
    requires
        forall|c: int, k: int, m: int|
            0 <= c < comps.len() && 0 <= k < comps[c]@.len() && 0 <= m < listed_successors(a, comps[c]@[k]).len()
                ==> flat_vecs(comps.take(c + 1)).contains(#[trigger] listed_successors(a, comps[c]@[k])[m]),
        0 <= c1 < comps.len(),
        graph_path(a, path),
        0 <= i < path.len(),
        flat_vecs(comps.take(c1 + 1)).contains(path[0]),
    ensures
        flat_vecs(comps.take(c1 + 1)).contains(path[i]),
    decreases i,
{
    if i > 0 {
        lemma_path_stays_early(a, comps, c1, path, i - 1);
        let x = path[i - 1];
        lemma_flat_member(comps, c1 + 1, x);
        let (d, k) = choose|d: int, k: int| 0 <= d < c1 + 1 && 0 <= k < comps[d]@.len() && #[trigger] comps[d]@[k] == x;
        let lx = listed_successors(a, x);
        assert(lx.contains(path[i]));
        let m = choose|m: int| 0 <= m < lx.len() && lx[m] == path[i];
        assert(flat_vecs(comps.take(d + 1)).contains(listed_successors(a, comps[d]@[k])[m]));
        lemma_flat_split(comps, d + 1, c1 + 1);
        let f = flat_vecs(comps.take(d + 1));
        let j = choose|j: int| 0 <= j < f.len() && f[j] == path[i];
        assert(flat_vecs(comps.take(c1 + 1))[j] == path[i]);
    }
}

// --- a graph given as a map ---



/// The graph's entries, each key once, in the order the map gives them.
fn entries_of(adj: &HashMap<usize, Vec<usize>>) -> (list: Vec<(usize, Vec<usize>)>)
    ensures
        list@.map_values(|e: (usize, Vec<usize>)| e.0).no_duplicates(),
        list@.map_values(|e: (usize, Vec<usize>)| e.0).to_set() == adj@.dom(),
        forall|i: int| 0 <= i < list@.len() ==> (#[trigger] list@[i]).1@ == adj@[list@[i].0]@,
{
    let mut list: Vec<(usize, Vec<usize>)> = Vec::new();
    let ghost keys = vstd::std_specs::hash::spec_keys_iter(adj).remaining().unref();
    for k in it: adj.keys()
        invariant
            it.seq().unref() == keys,
            keys.to_set() == adj@.dom(),
            keys.no_duplicates(),
            list@.len() == it.index(),
            forall|i: int| 0 <= i < it.index() ==> (#[trigger] list@[i]).0 == keys[i],
            forall|i: int| 0 <= i < list@.len() ==> (#[trigger] list@[i]).1@ == adj@[list@[i].0]@,
    {
        let succ = adj.get(k).unwrap().clone();
        list.push((*k, succ));
    }
    assert(list@.map_values(|e: (usize, Vec<usize>)| e.0) =~= keys);
    list
}

/// The successors the map gives `u`; none where it has no entry.
pub open spec fn map_successors(m: Map<usize, Vec<usize>>, u: usize) -> Seq<usize> {
    if m.dom().contains(u) {
        m[u]@
    } else {
        Seq::empty()
    }
}

/// The keys of the map and every successor it lists.
pub open spec fn map_vertices(m: Map<usize, Vec<usize>>) -> Set<usize> {
    Set::new(
        |x: usize| m.dom().contains(x) || exists|k: usize| m.dom().contains(k) && #[trigger] m[k]@.contains(x),
    )
}

/// Each vertex of `path` after the first is a successor of the one before.
pub open spec fn map_path(m: Map<usize, Vec<usize>>, path: Seq<usize>) -> bool {
    forall|i: int| 0 <= i && i + 1 < path.len() ==> map_successors(m, #[trigger] path[i]).contains(path[i + 1])
}

/// `w` can be reached from `u` along successors, in no steps or more.
pub open spec fn map_reaches(m: Map<usize, Vec<usize>>, u: usize, w: usize) -> bool {
    exists|path: Seq<usize>| path.len() >= 1 && path[0] == u && path.last() == w && #[trigger] map_path(m, path)
}

proof fn lemma_listed_at(a: Seq<(usize, Seq<usize>)>, u: usize, i: int)
    requires
        0 <= i < a.len(),
        a[i].0 == u,
        forall|j: int| 0 <= j < i ==> a[j].0 != u,
    ensures
        listed_successors(a, u) == a[i].1,
    decreases i,
{
    if i > 0 {
        lemma_listed_at(a.drop_first(), u, i - 1);
    }
}

proof fn lemma_listed_absent(a: Seq<(usize, Seq<usize>)>, u: usize)
    requires
        forall|j: int| 0 <= j < a.len() ==> a[j].0 != u,
    ensures
        listed_successors(a, u) == Seq::<usize>::empty(),
    decreases a.len(),
{
    if a.len() > 0 {
        lemma_listed_absent(a.drop_first(), u);
    }
}

/// Whether an entry names `x`, as its key or among its successors.
pub open spec fn mentions(e: (usize, Seq<usize>), x: usize) -> bool {
    e.0 == x || e.1.contains(x)
}

proof fn lemma_vertices_char(a: Seq<(usize, Seq<usize>)>, x: usize)
    ensures
        graph_vertices(a).contains(x) <==> exists|i: int| 0 <= i < a.len() && #[trigger] mentions(a[i], x),
    decreases a.len(),
{
    if a.len() > 0 {
        let b = a.drop_last();
        lemma_vertices_char(b, x);
        if exists|i: int| 0 <= i < b.len() && #[trigger] mentions(b[i], x) {
            let i = choose|i: int| 0 <= i < b.len() && #[trigger] mentions(b[i], x);
            assert(a[i] == b[i]);
            assert(mentions(a[i], x));
        }
        if mentions(a[a.len() - 1], x) {
            assert(a.last() == a[a.len() - 1]);
        }
        if exists|i: int| 0 <= i < a.len() && #[trigger] mentions(a[i], x) {
            let i = choose|i: int| 0 <= i < a.len() && #[trigger] mentions(a[i], x);
            if i < a.len() - 1 {
                assert(b[i] == a[i]);
                assert(mentions(b[i], x));
            } else {
                assert(a.last() == a[i]);
            }
        }
    }
}

/// The entries listed as the map holds them: the same successors, the same
/// vertices, the same paths.
proof fn lemma_entries_as_map(l: Seq<(usize, Vec<usize>)>, m: Map<usize, Vec<usize>>)
    requires
        l.map_values(|e: (usize, Vec<usize>)| e.0).no_duplicates(),
        l.map_values(|e: (usize, Vec<usize>)| e.0).to_set() == m.dom(),
        forall|i: int| 0 <= i < l.len() ==> (#[trigger] l[i]).1@ == m[l[i].0]@,
    ensures
        forall|u: usize| #[trigger] listed_successors(adjacency_view(l), u) == map_successors(m, u),
        graph_vertices(adjacency_view(l)) == map_vertices(m),
        forall|p: Seq<usize>| #[trigger] graph_path(adjacency_view(l), p) == map_path(m, p),
        forall|u: usize, w: usize| #[trigger] graph_reaches(adjacency_view(l), u, w) == map_reaches(m, u, w),
{
    let a = adjacency_view(l);
    let keys = l.map_values(|e: (usize, Vec<usize>)| e.0);
    assert forall|u: usize| #[trigger] listed_successors(a, u) == map_successors(m, u) by {
        if m.dom().contains(u) {
            assert(keys.to_set().contains(u));
            let i = choose|i: int| 0 <= i < keys.len() && keys[i] == u;
            assert forall|j: int| 0 <= j < i implies a[j].0 != u by {
                assert(keys[j] != keys[i]);
                assert(a[j].0 == keys[j]);
            }
            assert(a[i] == (l[i].0, l[i].1@));
            lemma_listed_at(a, u, i);
        } else {
            assert forall|j: int| 0 <= j < a.len() implies a[j].0 != u by {
                assert(keys.to_set().contains(keys[j]));
                assert(a[j].0 == keys[j]);
            }
            lemma_listed_absent(a, u);
        }
    }
    assert forall|x: usize| graph_vertices(a).contains(x) == map_vertices(m).contains(x) by {
        lemma_vertices_char(a, x);
        if graph_vertices(a).contains(x) {
            let i = choose|i: int| 0 <= i < a.len() && #[trigger] mentions(a[i], x);
            assert(keys[i] == l[i].0);
            assert(a[i] == (l[i].0, l[i].1@));
            assert(keys.to_set().contains(keys[i]));
            if !(a[i].0 == x) {
                assert(m.dom().contains(keys[i]) && m[keys[i]]@.contains(x));
            }
        }
        if map_vertices(m).contains(x) {
            if m.dom().contains(x) {
                assert(keys.to_set().contains(x));
                let i = choose|i: int| 0 <= i < keys.len() && keys[i] == x;
                assert(a[i] == (l[i].0, l[i].1@));
                assert(mentions(a[i], x));
            } else {
                let k = choose|k: usize| m.dom().contains(k) && #[trigger] m[k]@.contains(x);
                assert(keys.to_set().contains(k));
                let i = choose|i: int| 0 <= i < keys.len() && keys[i] == k;
                assert(a[i] == (l[i].0, l[i].1@));
                assert(mentions(a[i], x));
            }
        }
    }
    assert(graph_vertices(a) =~= map_vertices(m));
    assert forall|p: Seq<usize>| #[trigger] graph_path(a, p) == map_path(m, p) by {
        if graph_path(a, p) {
            assert forall|i: int| 0 <= i && i + 1 < p.len() implies map_successors(m, #[trigger] p[i]).contains(p[i + 1]) by {
                assert(listed_successors(a, p[i]) == map_successors(m, p[i]));
            }
        }
        if map_path(m, p) {
            assert forall|i: int| 0 <= i && i + 1 < p.len() implies listed_successors(a, #[trigger] p[i]).contains(p[i + 1]) by {
                assert(listed_successors(a, p[i]) == map_successors(m, p[i]));
            }
        }
    }
    assert forall|u: usize, w: usize| #[trigger] graph_reaches(a, u, w) == map_reaches(m, u, w) by {
        if graph_reaches(a, u, w) {
            let p = choose|p: Seq<usize>| p.len() >= 1 && p[0] == u && p.last() == w && #[trigger] graph_path(a, p);
            assert(map_path(m, p));
        }
        if map_reaches(m, u, w) {
            let p = choose|p: Seq<usize>| p.len() >= 1 && p[0] == u && p.last() == w && #[trigger] map_path(m, p);
            assert(graph_path(a, p));
        }
    }
}

/// The strongly connected components of the graph that `adj` gives, each
/// vertex once: every component is non-empty and each of its vertices
/// reaches every other; the successors of a component's vertices lie in it
/// or in an earlier component, and no vertex reaches one of a later
/// component. The order of components that do not reach each other
/// follows the order in which the map gives its keys.
pub fn tarjan_scc(adj: HashMap<usize, Vec<usize>>) -> (sccs: Vec<Vec<usize>>)
    ensures
        forall|c: int| 0 <= c < sccs@.len() ==> (#[trigger] sccs@[c])@.len() > 0,
        flat_vecs(sccs@).no_duplicates(),
        flat_vecs(sccs@).to_set() == map_vertices(adj@),
        forall|c: int, k1: int, k2: int|
            0 <= c < sccs@.len() && 0 <= k1 < sccs@[c]@.len() && 0 <= k2 < sccs@[c]@.len() ==> #[trigger] map_reaches(
                adj@,
                sccs@[c]@[k1],
                sccs@[c]@[k2],
            ),
        forall|c: int, k: int, j: int|
            0 <= c < sccs@.len() && 0 <= k < sccs@[c]@.len() && 0 <= j < map_successors(adj@, sccs@[c]@[k]).len()
                ==> flat_vecs(sccs@.take(c + 1)).contains(#[trigger] map_successors(adj@, sccs@[c]@[k])[j]),
        forall|c1: int, k1: int, c2: int, k2: int|
            0 <= c1 < c2 < sccs@.len() && 0 <= k1 < sccs@[c1]@.len() && 0 <= k2 < sccs@[c2]@.len() ==> !map_reaches(
                adj@,
                #[trigger] sccs@[c1]@[k1],
                #[trigger] sccs@[c2]@[k2],
            ),
{
    let list = entries_of(&adj);
    proof {
        lemma_entries_as_map(list@, adj@);
    }
    let sccs = tarjan_scc_of_list(&list);
    proof {
        assert forall|c: int, k: int, j: int|
            0 <= c < sccs@.len() && 0 <= k < sccs@[c]@.len() && 0 <= j < map_successors(adj@, sccs@[c]@[k]).len()
                implies flat_vecs(sccs@.take(c + 1)).contains(#[trigger] map_successors(adj@, sccs@[c]@[k])[j]) by {
            assert(listed_successors(adjacency_view(list@), sccs@[c]@[k]) == map_successors(adj@, sccs@[c]@[k]));
        }
        assert forall|c: int, k1: int, k2: int|
            0 <= c < sccs@.len() && 0 <= k1 < sccs@[c]@.len() && 0 <= k2 < sccs@[c]@.len() implies #[trigger] map_reaches(
                adj@,
                sccs@[c]@[k1],
                sccs@[c]@[k2],
            ) by {
            assert(graph_reaches(adjacency_view(list@), sccs@[c]@[k1], sccs@[c]@[k2]));
        }
        assert forall|c1: int, k1: int, c2: int, k2: int|
            0 <= c1 < c2 < sccs@.len() && 0 <= k1 < sccs@[c1]@.len() && 0 <= k2 < sccs@[c2]@.len() implies !map_reaches(
                adj@,
                #[trigger] sccs@[c1]@[k1],
                #[trigger] sccs@[c2]@[k2],
            ) by {
            assert(!graph_reaches(adjacency_view(list@), sccs@[c1]@[k1], sccs@[c2]@[k2]));
        }
    }
    sccs
}

} // verus!
