//! The order of the top scope's declarations: each after those it refers
//! to, but for those that refer to each other.

use vstd::prelude::*;

use crate::anf::anf::ANFStatement;
use crate::anf::anf::ANFStatementModel;
use crate::anf::anf::pattern_ids;
use crate::anf::anf::value_ids;
use crate::anf::anf::anf_statement_views;
use crate::anf::anf::lemma_anf_statement_views;
use crate::anf::anf::lemma_anf_statement_views_push;
use crate::anf::scc::adjacency_view;
use crate::anf::scc::flat_vecs;
use crate::anf::scc::graph_path;
use crate::anf::scc::graph_reaches;
use crate::anf::scc::graph_vertices;
use crate::anf::scc::lemma_flat_index;
use crate::anf::scc::lemma_flat_push;
use crate::anf::scc::lemma_flat_split;
use crate::anf::scc::lemma_graph_vertices_contains;
use crate::anf::scc::listed_successors;
use crate::anf::scc::tarjan_scc_of_list;

verus! {

// --- declarations and what they refer to ---

/// The statement at `s` is a declaration that binds `x`.
pub open spec fn declares(c: Seq<ANFStatementModel>, s: int, x: usize) -> bool {
    &&& 0 <= s < c.len()
    &&& c[s] is Declaration
    &&& pattern_ids(c[s]->Declaration_0).contains(x)
}

/// The statement at `t` is the last declaration that binds `x`.
pub open spec fn last_declares(c: Seq<ANFStatementModel>, t: int, x: usize) -> bool {
    &&& declares(c, t, x)
    &&& forall|s: int| t < s < c.len() ==> !#[trigger] declares(c, s, x)
}

/// Some declaration binds `x`.
pub open spec fn is_declared(c: Seq<ANFStatementModel>, x: usize) -> bool {
    exists|s: int| #[trigger] declares(c, s, x)
}

/// A declaration that binds `u` refers in its value to `x`, which some
/// declaration binds.
pub open spec fn depends_on(c: Seq<ANFStatementModel>, u: usize, x: usize) -> bool {
    &&& is_declared(c, x)
    &&& exists|s: int| #[trigger] declares(c, s, u) && value_ids(c[s]->Declaration_1).contains(x)
}

/// Each number of `path` after the first is one the one before depends on.
pub open spec fn dependency_path(c: Seq<ANFStatementModel>, path: Seq<usize>) -> bool {
    forall|i: int| 0 <= i && i + 1 < path.len() ==> depends_on(c, #[trigger] path[i], path[i + 1])
}

/// `u` depends on `w` through declarations, in no steps or more.
pub open spec fn depends_transitively(c: Seq<ANFStatementModel>, u: usize, w: usize) -> bool {
    exists|path: Seq<usize>| path.len() >= 1 && path[0] == u && path.last() == w && #[trigger] dependency_path(c, path)
}

pub proof fn lemma_last_declares_unique(c: Seq<ANFStatementModel>, t1: int, t2: int, x: usize)
    requires
        last_declares(c, t1, x),
        last_declares(c, t2, x),
    ensures
        t1 == t2,
{
    if t1 < t2 {
        assert(declares(c, t2, x));
    } else if t2 < t1 {
        assert(declares(c, t1, x));
    }
}

/// `decl` pairs each number that a declaration of `c` binds with the index
/// of that declaration, in the order of the declarations.
pub open spec fn declaration_table(decl: Seq<(usize, usize)>, c: Seq<ANFStatementModel>) -> bool {
    &&& c.len() <= usize::MAX
    &&& forall|k: int| 0 <= k < decl.len() ==> declares(c, (#[trigger] decl[k]).1 as int, decl[k].0)
    &&& forall|s: int, x: usize| #[trigger] declares(c, s, x) ==> exists|k: int| 0 <= k < decl.len() && #[trigger] decl[k] == (x, s as usize)
    &&& forall|k1: int, k2: int| 0 <= k1 < k2 < decl.len() ==> (#[trigger] decl[k1]).1 <= (#[trigger] decl[k2]).1
}

// --- ordering the declarations by their dependencies ---

/// The index of the last declaration of `id`.
fn declaration_of(decl_stmt: &Vec<(usize, usize)>, id: usize, Ghost(c): Ghost<Seq<ANFStatementModel>>) -> (r: Option<usize>)
    requires
        declaration_table(decl_stmt@, c),
    ensures
        match r {
            Some(t) => last_declares(c, t as int, id),
            None => !is_declared(c, id),
        },
{
    let mut i: usize = decl_stmt.len();
    while i > 0
        invariant
            i <= decl_stmt.len(),
            declaration_table(decl_stmt@, c),
            forall|k: int| i <= k < decl_stmt@.len() ==> (#[trigger] decl_stmt@[k]).0 != id,
        decreases i,
    {
        if decl_stmt[i - 1].0 == id {
            let t = decl_stmt[i - 1].1;
            proof {
                assert(declares(c, decl_stmt@[i - 1].1 as int, decl_stmt@[i - 1].0));
                assert forall|s: int| t < s < c.len() implies !#[trigger] declares(c, s, id) by {
                    if declares(c, s, id) {
                        let k = choose|k: int| 0 <= k < decl_stmt@.len() && #[trigger] decl_stmt@[k] == (id, s as usize);
                        if k < i - 1 {
                            assert(decl_stmt@[k].1 <= decl_stmt@[i - 1].1);
                        } else if k >= i {
                            assert(decl_stmt@[k].0 != id);
                        }
                    }
                }
            }
            return Some(t);
        }
        i -= 1;
    }
    proof {
        if is_declared(c, id) {
            let s = choose|s: int| #[trigger] declares(c, s, id);
            let k = choose|k: int| 0 <= k < decl_stmt@.len() && #[trigger] decl_stmt@[k] == (id, s as usize);
            assert(decl_stmt@[k].0 != id);
        }
    }
    None
}

fn graph_position(dep_graph: &Vec<(usize, Vec<usize>)>, id: usize) -> (r: Option<usize>)
    ensures
        match r {
            Some(p) => p < dep_graph@.len() && dep_graph@[p as int].0 == id,
            None => forall|i: int| 0 <= i < dep_graph@.len() ==> (#[trigger] dep_graph@[i]).0 != id,
        },
{
    let mut i: usize = 0;
    while i < dep_graph.len()
        invariant
            i <= dep_graph.len(),
            forall|k: int| 0 <= k < i ==> (#[trigger] dep_graph@[k]).0 != id,
        decreases dep_graph.len() - i,
    {
        if dep_graph[i].0 == id {
            return Some(i);
        }
        i += 1;
    }
    None
}

/// No number is listed twice.
pub open spec fn keys_unique(dep: Seq<(usize, Vec<usize>)>) -> bool {
    forall|i: int, j: int| 0 <= i < j < dep.len() ==> (#[trigger] dep[i]).0 != (#[trigger] dep[j]).0
}

/// With each number listed once, its successors are those listed with it.
pub proof fn lemma_listed_unique(dep: Seq<(usize, Vec<usize>)>, i: int)
    requires
        keys_unique(dep),
        0 <= i < dep.len(),
    ensures
        listed_successors(adjacency_view(dep), dep[i].0) == dep[i].1@,
    decreases dep.len(),
{
    let a = adjacency_view(dep);
    if i > 0 {
        assert(dep[0].0 != dep[i].0);
        let rest = dep.drop_first();
        assert forall|x: int, y: int| 0 <= x < y < rest.len() implies (#[trigger] rest[x]).0 != (#[trigger] rest[y]).0 by {
            assert(rest[x] == dep[x + 1]);
            assert(rest[y] == dep[y + 1]);
        }
        lemma_listed_unique(rest, i - 1);
        assert(a.drop_first() =~= adjacency_view(rest));
        assert(rest[i - 1] == dep[i]);
    }
}

/// A number not listed has no successors.
pub proof fn lemma_listed_absent(dep: Seq<(usize, Vec<usize>)>, u: usize)
    requires
        forall|i: int| 0 <= i < dep.len() ==> (#[trigger] dep[i]).0 != u,
    ensures
        listed_successors(adjacency_view(dep), u) == Seq::<usize>::empty(),
    decreases dep.len(),
{
    let a = adjacency_view(dep);
    if dep.len() > 0 {
        let rest = dep.drop_first();
        assert forall|i: int| 0 <= i < rest.len() implies (#[trigger] rest[i]).0 != u by {
            assert(rest[i] == dep[i + 1]);
        }
        lemma_listed_absent(rest, u);
        assert(a.drop_first() =~= adjacency_view(rest));
        assert(a[0].0 == dep[0].0);
    }
}

/// The graph of the declared numbers: each declared number, in the order
/// declared, to the declared numbers its declarations' values refer to.
fn dependency_graph(
    collected: &Vec<ANFStatement>,
    decl_stmt: &Vec<(usize, usize)>,
    Ghost(c): Ghost<Seq<ANFStatementModel>>,
) -> (dep_graph: Vec<(usize, Vec<usize>)>)
    requires
        c == anf_statement_views(collected@),
        declaration_table(decl_stmt@, c),
    ensures
        forall|x: usize| #[trigger] is_declared(c, x) ==> exists|i: int| 0 <= i < dep_graph@.len() && (#[trigger] dep_graph@[i]).0 == x,
        forall|s: int, u: usize, x: usize|
            #[trigger] declares(c, s, u) && value_ids(c[s]->Declaration_1).contains(x) && is_declared(c, x)
                ==> #[trigger] listed_successors(adjacency_view(dep_graph@), u).contains(x),
        forall|u: usize, x: usize| #[trigger] listed_successors(adjacency_view(dep_graph@), u).contains(x) ==> depends_on(c, u, x),
{
    let mut dep_graph: Vec<(usize, Vec<usize>)> = Vec::new();
    let mut i: usize = 0;
    proof {
        lemma_anf_statement_views(collected@);
    }
    while i < decl_stmt.len()
        invariant
            i <= decl_stmt.len(),
            keys_unique(dep_graph@),
            forall|j: int| 0 <= j < dep_graph@.len() ==> (#[trigger] dep_graph@[j]).1@.len() == 0,
            forall|k: int| 0 <= k < i ==> exists|j: int| 0 <= j < dep_graph@.len() && (#[trigger] dep_graph@[j]).0 == (#[trigger] decl_stmt@[k]).0,
        decreases decl_stmt.len() - i,
    {
        let id = decl_stmt[i].0;
        let ghost before = dep_graph@;
        if graph_position(&dep_graph, id).is_none() {
            dep_graph.push((id, Vec::new()));
            proof {
                assert forall|x: int, y: int| 0 <= x < y < dep_graph@.len() implies (#[trigger] dep_graph@[x]).0 != (#[trigger] dep_graph@[y]).0 by {
                    if y == before.len() {
                        assert(before[x].0 != id);
                    } else {
                        assert(before[x] == dep_graph@[x] && before[y] == dep_graph@[y]);
                    }
                }
                assert forall|k: int| 0 <= k < i + 1 implies exists|j: int| 0 <= j < dep_graph@.len() && (#[trigger] dep_graph@[j]).0 == (#[trigger] decl_stmt@[k]).0 by {
                    if k < i {
                        let j = choose|j: int| 0 <= j < before.len() && (#[trigger] before[j]).0 == decl_stmt@[k].0;
                        assert(dep_graph@[j] == before[j]);
                    } else {
                        assert(dep_graph@[before.len() as int].0 == decl_stmt@[k].0);
                    }
                }
            }
        }
        i += 1;
    }
    let ghost keys = dep_graph@.map_values(|e: (usize, Vec<usize>)| e.0);
    proof {
        assert forall|x: usize| #[trigger] is_declared(c, x) implies exists|j: int| 0 <= j < dep_graph@.len() && (#[trigger] dep_graph@[j]).0 == x by {
            let s = choose|s: int| #[trigger] declares(c, s, x);
            let k = choose|k: int| 0 <= k < decl_stmt@.len() && #[trigger] decl_stmt@[k] == (x, s as usize);
            assert(decl_stmt@[k].0 == x);
        }
        assert forall|x: usize| #[trigger] is_declared(c, x) implies exists|j: int| 0 <= j < keys.len() && #[trigger] keys[j] == x by {
            let j = choose|j: int| 0 <= j < dep_graph@.len() && (#[trigger] dep_graph@[j]).0 == x;
            assert(keys[j] == x);
        }
    }
    let mut s: usize = 0;
    while s < collected.len()
        invariant
            s <= collected.len(),
            c == anf_statement_views(collected@),
            c.len() == collected@.len(),
            forall|j: int| 0 <= j < collected@.len() ==> #[trigger] c[j] == collected@[j]@,
            declaration_table(decl_stmt@, c),
            keys_unique(dep_graph@),
            dep_graph@.len() == keys.len(),
            forall|j: int| 0 <= j < dep_graph@.len() ==> (#[trigger] dep_graph@[j]).0 == keys[j],
            forall|x: usize| #[trigger] is_declared(c, x) ==> exists|j: int| 0 <= j < keys.len() && #[trigger] keys[j] == x,
            forall|j: int, k: int| 0 <= j < dep_graph@.len() && 0 <= k < dep_graph@[j].1@.len() ==> depends_on(c, dep_graph@[j].0, #[trigger] dep_graph@[j].1@[k]),
            forall|s2: int, u: usize, x: usize|
                #[trigger] declares(c, s2, u) && s2 < s && value_ids(c[s2]->Declaration_1).contains(x) && #[trigger] is_declared(c, x)
                    ==> exists|j: int| 0 <= j < dep_graph@.len() && (#[trigger] dep_graph@[j]).0 == u && dep_graph@[j].1@.contains(x),
        decreases collected.len() - s,
    {
        match &collected[s] {
            ANFStatement::Declaration(pattern, expr) => {
                let ghost e = expr@;
                let ghost pat = pattern@;
                proof {
                    assert(c[s as int] == collected@[s as int]@);
                    assert(c[s as int]->Declaration_0 == pat);
                    assert(c[s as int]->Declaration_1 == e);
                }
                let all = expr.all_ids();
                let mut used: Vec<usize> = Vec::new();
                let mut k: usize = 0;
                while k < all.len()
                    invariant
                        k <= all.len(),
                        all@ == value_ids(e),
                        declaration_table(decl_stmt@, c),
                        forall|q: int| 0 <= q < used@.len() ==> value_ids(e).contains(#[trigger] used@[q]) && is_declared(c, used@[q]),
                        forall|q: int| 0 <= q < k && is_declared(c, #[trigger] all@[q]) ==> used@.contains(all@[q]),
                    decreases all.len() - k,
                {
                    let ghost before = used@;
                    if declaration_of(decl_stmt, all[k], Ghost(c)).is_some() {
                        used.push(all[k]);
                        proof {
                            assert(used@[used@.len() - 1] == all@[k as int]);
                            assert(value_ids(e).contains(all@[k as int])) by {
                                assert(all@[k as int] == value_ids(e)[k as int]);
                            }
                            assert forall|q: int| 0 <= q < k + 1 && is_declared(c, #[trigger] all@[q]) implies used@.contains(all@[q]) by {
                                if q < k {
                                    let w = choose|w: int| 0 <= w < before.len() && before[w] == all@[q];
                                    assert(used@[w] == all@[q]);
                                }
                            }
                        }
                    }
                    k += 1;
                }
                proof {
                    assert forall|x: usize| value_ids(e).contains(x) && is_declared(c, x) implies used@.contains(x) by {
                        let q = choose|q: int| 0 <= q < value_ids(e).len() && value_ids(e)[q] == x;
                        assert(all@[q] == x);
                    }
                }
                let ids = pattern.all_ids();
                let mut m: usize = 0;
                while m < ids.len()
                    invariant
                        m <= ids.len(),
                        ids@ == pattern_ids(pat),
                        s < collected.len(),
                        c[s as int] is Declaration,
                        c[s as int]->Declaration_0 == pat,
                        c[s as int]->Declaration_1 == e,
                        c.len() == collected@.len(),
                        keys_unique(dep_graph@),
                        dep_graph@.len() == keys.len(),
                        forall|j: int| 0 <= j < dep_graph@.len() ==> (#[trigger] dep_graph@[j]).0 == keys[j],
                        forall|x: usize| #[trigger] is_declared(c, x) ==> exists|j: int| 0 <= j < keys.len() && #[trigger] keys[j] == x,
                        forall|q: int| 0 <= q < used@.len() ==> value_ids(e).contains(#[trigger] used@[q]) && is_declared(c, used@[q]),
                        forall|x: usize| value_ids(e).contains(x) && is_declared(c, x) ==> #[trigger] used@.contains(x),
                        forall|j: int, k2: int| 0 <= j < dep_graph@.len() && 0 <= k2 < dep_graph@[j].1@.len() ==> depends_on(c, dep_graph@[j].0, #[trigger] dep_graph@[j].1@[k2]),
                        forall|s2: int, u: usize, x: usize|
                            #[trigger] declares(c, s2, u) && s2 < s && value_ids(c[s2]->Declaration_1).contains(x) && #[trigger] is_declared(c, x)
                                ==> exists|j: int| 0 <= j < dep_graph@.len() && (#[trigger] dep_graph@[j]).0 == u && dep_graph@[j].1@.contains(x),
                        forall|m2: int, x: usize| 0 <= m2 < m && value_ids(e).contains(x) && #[trigger] is_declared(c, x)
                            ==> exists|j: int| 0 <= j < dep_graph@.len() && (#[trigger] dep_graph@[j]).0 == #[trigger] ids@[m2] && dep_graph@[j].1@.contains(x),
                    decreases ids.len() - m,
                {
                    let ghost before = dep_graph@;
                    proof {
                        assert(declares(c, s as int, ids@[m as int])) by {
                            assert(pattern_ids(pat)[m as int] == ids@[m as int]);
                        }
                    }
                    match graph_position(&dep_graph, ids[m]) {
                        Some(p) => {
                            let mut entry: (usize, Vec<usize>) = (0, Vec::new());
                            dep_graph.set_and_swap(p, &mut entry);
                            let ghost start = entry.1@;
                            let ghost mid = dep_graph@;
                            let ghost key = entry.0;
                            let mut q: usize = 0;
                            while q < used.len()
                                invariant
                                    q <= used.len(),
                                    p < dep_graph@.len(),
                                    dep_graph@ == mid,
                                    entry.0 == key,
                                    entry.1@ == start + used@.take(q as int),
                                decreases used.len() - q,
                            {
                                entry.1.push(used[q]);
                                proof {
                                    assert(used@.take(q + 1) =~= used@.take(q as int).push(used@[q as int]));
                                    assert(entry.1@ =~= start + used@.take(q + 1));
                                }
                                q += 1;
                            }
                            dep_graph.set_and_swap(p, &mut entry);
                            proof {
                                assert(used@.take(q as int) =~= used@);
                                let u = ids@[m as int];
                                assert(dep_graph@[p as int].0 == u);
                                assert(dep_graph@[p as int].1@ == before[p as int].1@ + used@);
                                assert forall|j: int| 0 <= j < dep_graph@.len() && j != p implies #[trigger] dep_graph@[j] == before[j] by {}
                                assert forall|x: int, y: int| 0 <= x < y < dep_graph@.len() implies (#[trigger] dep_graph@[x]).0 != (#[trigger] dep_graph@[y]).0 by {
                                    assert(before[x].0 != before[y].0);
                                }
                                assert forall|j: int, k2: int| 0 <= j < dep_graph@.len() && 0 <= k2 < dep_graph@[j].1@.len() implies depends_on(c, dep_graph@[j].0, #[trigger] dep_graph@[j].1@[k2]) by {
                                    if j == p {
                                        if k2 >= before[p as int].1@.len() {
                                            let x = used@[k2 - before[p as int].1@.len()];
                                            assert(dep_graph@[j].1@[k2] == x);
                                            assert(value_ids(e).contains(x) && is_declared(c, x));
                                            assert(declares(c, s as int, u));
                                        } else {
                                            assert(dep_graph@[j].1@[k2] == before[j].1@[k2]);
                                        }
                                    }
                                }
                                assert forall|j: int, x: usize| 0 <= j < before.len() && before[j].1@.contains(x) implies dep_graph@[j].1@.contains(x) by {
                                    let w = choose|w: int| 0 <= w < before[j].1@.len() && before[j].1@[w] == x;
                                    assert(dep_graph@[j].1@[w] == x);
                                }
                                assert forall|x: usize| value_ids(e).contains(x) && is_declared(c, x) implies dep_graph@[p as int].1@.contains(x) by {
                                    assert(used@.contains(x));
                                    let w = choose|w: int| 0 <= w < used@.len() && used@[w] == x;
                                    assert(dep_graph@[p as int].1@[before[p as int].1@.len() + w] == x);
                                }
                            }
                        },
                        None => {
                            proof {
                                let u = ids@[m as int];
                                assert(is_declared(c, u));
                                let j = choose|j: int| 0 <= j < keys.len() && #[trigger] keys[j] == u;
                                assert(dep_graph@[j].0 != u);
                            }
                        },
                    }
                    m += 1;
                }
                proof {
                    assert forall|s2: int, u: usize, x: usize|
                        #[trigger] declares(c, s2, u) && s2 < s + 1 && value_ids(c[s2]->Declaration_1).contains(x) && #[trigger] is_declared(c, x)
                            implies exists|j: int| 0 <= j < dep_graph@.len() && (#[trigger] dep_graph@[j]).0 == u && dep_graph@[j].1@.contains(x) by {
                        if s2 == s {
                            let m2 = choose|m2: int| 0 <= m2 < ids@.len() && ids@[m2] == u;
                            assert(ids@[m2] == u);
                        }
                    }
                }
            },
            _ => {
                proof {
                    assert(c[s as int] == collected@[s as int]@);
                    assert forall|s2: int, u: usize, x: usize|
                        #[trigger] declares(c, s2, u) && s2 < s + 1 && value_ids(c[s2]->Declaration_1).contains(x) && #[trigger] is_declared(c, x)
                            implies exists|j: int| 0 <= j < dep_graph@.len() && (#[trigger] dep_graph@[j]).0 == u && dep_graph@[j].1@.contains(x) by {
                        if s2 == s {
                            assert(!(c[s2] is Declaration));
                        }
                    }
                }
            },
        }
        s += 1;
    }
    proof {
        let a = adjacency_view(dep_graph@);
        assert forall|x: usize| #[trigger] is_declared(c, x) implies exists|i: int| 0 <= i < dep_graph@.len() && (#[trigger] dep_graph@[i]).0 == x by {
            let j = choose|j: int| 0 <= j < keys.len() && #[trigger] keys[j] == x;
            assert(dep_graph@[j].0 == x);
        }
        assert forall|s2: int, u: usize, x: usize|
            #[trigger] declares(c, s2, u) && value_ids(c[s2]->Declaration_1).contains(x) && #[trigger] is_declared(c, x)
                implies #[trigger] listed_successors(a, u).contains(x) by {
            let j = choose|j: int| 0 <= j < dep_graph@.len() && (#[trigger] dep_graph@[j]).0 == u && dep_graph@[j].1@.contains(x);
            lemma_listed_unique(dep_graph@, j);
        }
        assert forall|u: usize, x: usize| #[trigger] listed_successors(a, u).contains(x) implies depends_on(c, u, x) by {
            if exists|j: int| 0 <= j < dep_graph@.len() && (#[trigger] dep_graph@[j]).0 == u {
                let j = choose|j: int| 0 <= j < dep_graph@.len() && (#[trigger] dep_graph@[j]).0 == u;
                lemma_listed_unique(dep_graph@, j);
                let k = choose|k: int| 0 <= k < dep_graph@[j].1@.len() && dep_graph@[j].1@[k] == x;
                assert(depends_on(c, dep_graph@[j].0, dep_graph@[j].1@[k]));
            } else {
                lemma_listed_absent(dep_graph@, u);
            }
        }
    }
    dep_graph
}

/// What the dependency graph `a` of `c` and its components `comps` give
/// the walk over them: no number twice, every declared number in a
/// component, each successor in the same or an earlier component, the
/// numbers of a component reaching each other, and the successors being
/// exactly the dependencies.
#[verifier::opaque]
pub open spec fn component_facts(c: Seq<ANFStatementModel>, a: Seq<(usize, Seq<usize>)>, comps: Seq<Vec<usize>>) -> bool {
    &&& flat_vecs(comps).no_duplicates()
    &&& forall|x: usize| #[trigger] is_declared(c, x) ==> flat_vecs(comps).contains(x)
    &&& forall|cc: int, k: int, m: int|
        0 <= cc < comps.len() && 0 <= k < comps[cc]@.len() && 0 <= m < listed_successors(a, comps[cc]@[k]).len()
            ==> flat_vecs(comps.take(cc + 1)).contains(#[trigger] listed_successors(a, comps[cc]@[k])[m])
    &&& forall|cc: int, k1: int, k2: int|
        0 <= cc < comps.len() && 0 <= k1 < comps[cc]@.len() && 0 <= k2 < comps[cc]@.len() ==> #[trigger] graph_reaches(
            a,
            comps[cc]@[k1],
            comps[cc]@[k2],
        )
    &&& forall|u: usize, x: usize| #[trigger] listed_successors(a, u).contains(x) ==> depends_on(c, u, x)
    &&& forall|s: int, u: usize, x: usize|
        #[trigger] declares(c, s, u) && value_ids(c[s]->Declaration_1).contains(x) && is_declared(c, x)
            ==> #[trigger] listed_successors(a, u).contains(x)
}

/// The walk over the components' numbers `f` has reached place `q`: the
/// `k`th statement taken was taken at place `tp[k]`, the first place of a
/// number it last declares, in increasing places; the last declarations of
/// the numbers passed have all been taken.
pub open spec fn walked(
    c: Seq<ANFStatementModel>,
    f: Seq<usize>,
    pending: Seq<Option<ANFStatement>>,
    order: Seq<int>,
    tp: Seq<int>,
    q: int,
) -> bool {
    &&& tp.len() == order.len()
    &&& 0 <= q <= f.len()
    &&& forall|k: int| 0 <= k < tp.len() ==> 0 <= #[trigger] tp[k] < q && last_declares(c, order[k], f[tp[k]])
    &&& forall|k1: int, k2: int| 0 <= k1 < k2 < tp.len() ==> #[trigger] tp[k1] < #[trigger] tp[k2]
    &&& forall|k: int, q2: int| #![trigger tp[k], f[q2]] 0 <= k < tp.len() && 0 <= q2 < tp[k] ==> !last_declares(c, order[k], f[q2])
    &&& forall|q2: int, t: int| 0 <= q2 < q && #[trigger] last_declares(c, t, f[q2]) ==> pending[t] is None
}

/// `r` holds the statements of `c`, the `j`th being the one at `order[j]`,
/// each once; and where a declaration refers to a number whose last
/// declaration comes after it, that number depends back on one the
/// declaration binds.
pub open spec fn dependency_order(r: Seq<ANFStatementModel>, c: Seq<ANFStatementModel>, order: Seq<int>) -> bool {
    &&& order.len() == r.len()
    &&& order.no_duplicates()
    &&& forall|j: int| 0 <= j < order.len() ==> 0 <= #[trigger] order[j] < c.len() && r[j] == c[order[j]]
    &&& forall|i: int| 0 <= i < c.len() ==> #[trigger] order.contains(i)
    &&& forall|i: int, j: int, x: usize|
        #![trigger last_declares(c, order[j], x), r[i]]
        0 <= i < j < r.len() && last_declares(c, order[j], x) && r[i] is Declaration && value_ids(r[i]->Declaration_1).contains(x)
            ==> exists|u: usize| pattern_ids(r[i]->Declaration_0).contains(u) && #[trigger] depends_transitively(c, x, u)
}

/// `r` holds the statements of `c`, each once, with the last declaration of
/// each number after every declaration that refers to it, but where the
/// number depends back on one that declaration binds.
pub open spec fn rearranges_by_dependencies(r: Seq<ANFStatementModel>, c: Seq<ANFStatementModel>) -> bool {
    exists|order: Seq<int>| #[trigger] dependency_order(r, c, order)
}

/// A place among all the components' numbers is a place in one component.
pub proof fn lemma_flat_place(comps: Seq<Vec<usize>>, p: int) -> (ck: (int, int))
    requires
        0 <= p < flat_vecs(comps).len(),
    ensures
        0 <= ck.0 < comps.len(),
        0 <= ck.1 < comps[ck.0]@.len(),
        p == flat_vecs(comps.take(ck.0)).len() + ck.1,
    decreases comps.len(),
{
    let last = comps.len() - 1;
    assert(comps =~= comps.take(last).push(comps[last]));
    assert(comps.take(last) =~= comps.drop_last());
    lemma_flat_push(comps.drop_last(), comps[last]);
    assert(comps.drop_last().push(comps[last]) =~= comps);
    let before = flat_vecs(comps.drop_last()).len();
    if p < before {
        let ck = lemma_flat_place(comps.drop_last(), p);
        assert(comps.drop_last().take(ck.0) =~= comps.take(ck.0));
        assert(comps.drop_last()[ck.0] == comps[ck.0]);
        ck
    } else {
        (last, p - before)
    }
}

/// Reaching along successors the dependencies are is depending.
pub proof fn lemma_reaches_depends(c: Seq<ANFStatementModel>, a: Seq<(usize, Seq<usize>)>, x: usize, u: usize)
    requires
        forall|v: usize, y: usize| #[trigger] listed_successors(a, v).contains(y) ==> depends_on(c, v, y),
        graph_reaches(a, x, u),
    ensures
        depends_transitively(c, x, u),
{
    let path = choose|path: Seq<usize>| path.len() >= 1 && path[0] == x && path.last() == u && #[trigger] graph_path(a, path);
    assert forall|i: int| 0 <= i && i + 1 < path.len() implies depends_on(c, #[trigger] path[i], path[i + 1]) by {
        assert(listed_successors(a, path[i]).contains(path[i + 1]));
    }
    assert(dependency_path(c, path));
}

/// Statements taken in the walk over the components, each at the first
/// place of a number it last declares, then statements that last declare
/// nothing: a declaration refers to a number last declared later only when
/// that number depends back on one the declaration binds.
proof fn lemma_dependency_law(
    c: Seq<ANFStatementModel>,
    a: Seq<(usize, Seq<usize>)>,
    comps: Seq<Vec<usize>>,
    r: Seq<ANFStatementModel>,
    order: Seq<int>,
    tp: Seq<int>,
)
    requires
        component_facts(c, a, comps),
        r.len() == order.len(),
        forall|j: int| 0 <= j < order.len() ==> 0 <= #[trigger] order[j] < c.len() && r[j] == c[order[j]],
        tp.len() <= order.len(),
        forall|k: int| 0 <= k < tp.len() ==> 0 <= #[trigger] tp[k] < flat_vecs(comps).len() && last_declares(c, order[k], flat_vecs(comps)[tp[k]]),
        forall|k1: int, k2: int| 0 <= k1 < k2 < tp.len() ==> #[trigger] tp[k1] < #[trigger] tp[k2],
        forall|k: int, q2: int|
            #![trigger tp[k], flat_vecs(comps)[q2]]
            0 <= k < tp.len() && 0 <= q2 < tp[k] ==> !last_declares(c, order[k], flat_vecs(comps)[q2]),
        forall|k: int, x: usize| tp.len() <= k < order.len() ==> !#[trigger] last_declares(c, order[k], x),
    ensures
        forall|i: int, j: int, x: usize|
            #![trigger last_declares(c, order[j], x), r[i]]
            0 <= i < j < r.len() && last_declares(c, order[j], x) && r[i] is Declaration && value_ids(r[i]->Declaration_1).contains(x)
                ==> exists|u: usize| pattern_ids(r[i]->Declaration_0).contains(u) && #[trigger] depends_transitively(c, x, u),
{
    reveal(component_facts);
    let f = flat_vecs(comps);
    assert forall|i: int, j: int, x: usize|
        #![trigger last_declares(c, order[j], x), r[i]]
        0 <= i < j < r.len() && last_declares(c, order[j], x) && r[i] is Declaration && value_ids(r[i]->Declaration_1).contains(x)
            implies exists|u: usize| pattern_ids(r[i]->Declaration_0).contains(u) && #[trigger] depends_transitively(c, x, u) by {
        if j >= tp.len() {
            assert(!last_declares(c, order[j], x));
        }
        assert(tp[i] < tp[j]);
        let s = order[i];
        let u0 = f[tp[i]];
        assert(last_declares(c, s, u0));
        let ck = lemma_flat_place(comps, tp[i]);
        let cu = ck.0;
        let ku = ck.1;
        lemma_flat_index(comps, cu, ku);
        assert(u0 == comps[cu]@[ku]);
        assert(is_declared(c, x)) by {
            assert(declares(c, order[j], x));
        }
        assert(f.contains(x));
        let qx = choose|qx: int| 0 <= qx < f.len() && f[qx] == x;
        if qx < tp[j] {
            assert(!last_declares(c, order[j], f[qx]));
        }
        assert(r[i] == c[s]);
        assert(listed_successors(a, u0).contains(x));
        let m = choose|m: int| 0 <= m < listed_successors(a, u0).len() && listed_successors(a, u0)[m] == x;
        assert(listed_successors(a, comps[cu]@[ku])[m] == x);
        let early = flat_vecs(comps.take(cu + 1));
        assert(early.contains(x));
        let i1 = choose|i1: int| 0 <= i1 < early.len() && early[i1] == x;
        lemma_flat_split(comps, cu + 1, comps.len() as int);
        assert(comps.take(comps.len() as int) =~= comps);
        assert(f[i1] == x);
        assert(i1 == qx);
        assert(comps.take(cu + 1) =~= comps.take(cu).push(comps[cu]));
        lemma_flat_push(comps.take(cu), comps[cu]);
        let kx = qx - flat_vecs(comps.take(cu)).len();
        lemma_flat_index(comps, cu, kx);
        assert(x == comps[cu]@[kx]);
        assert(graph_reaches(a, comps[cu]@[kx], comps[cu]@[ku]));
        lemma_reaches_depends(c, a, x, u0);
        assert(pattern_ids(r[i]->Declaration_0).contains(u0));
    }
}

/// Moves the statement at `t`, if it is still there, to the end of
/// `reordered`.
fn take_statement(
    t: usize,
    pending: &mut Vec<Option<ANFStatement>>,
    reordered: &mut Vec<ANFStatement>,
    Ghost(order): Ghost<Seq<int>>,
    Ghost(c): Ghost<Seq<ANFStatementModel>>,
) -> (new_order: Ghost<Seq<int>>)
    requires
        old(pending)@.len() == c.len(),
        order_agrees(old(pending)@, anf_statement_views(old(reordered)@), order, c),
    ensures
        final(pending)@.len() == c.len(),
        order_agrees(final(pending)@, anf_statement_views(final(reordered)@), new_order@, c),
        t < c.len() ==> final(pending)@[t as int] is None,
        forall|i: int| 0 <= i < c.len() && i != t ==> final(pending)@[i] is None == old(pending)@[i] is None,
        t < c.len() && old(pending)@[t as int] is Some ==> new_order@ == order.push(t as int),
        !(t < c.len() && old(pending)@[t as int] is Some) ==> new_order@ == order && final(pending)@ == old(pending)@,
{
    let ghost mut taken = order;
    if t < pending.len() {
        let mut slot: Option<ANFStatement> = None;
        pending.set_and_swap(t, &mut slot);
        match slot {
            Some(st) => {
                let ghost before = reordered@;
                reordered.push(st);
                proof {
                    lemma_anf_statement_views_push(before, st);
                    lemma_anf_statement_views(reordered@);
                    let old_order = order;
                    taken = order.push(t as int);
                    let order = taken;
                    assert forall|i: int| 0 <= i < c.len() implies (#[trigger] pending@[i] is None <==> order.contains(i)) by {
                        if i != t as int && order.contains(i) {
                            let j = choose|j: int| 0 <= j < order.len() && order[j] == i;
                            assert(j < old_order.len());
                            assert(old_order.contains(i));
                        }
                        if old_order.contains(i) {
                            let j = choose|j: int| 0 <= j < old_order.len() && old_order[j] == i;
                            assert(order[j] == i);
                        }
                        if i == t as int {
                            assert(order[order.len() - 1] == i);
                        }
                    }
                    assert forall|x: int, y: int| 0 <= x < order.len() && 0 <= y < order.len() && x != y implies order[x]
                        != order[y] by {
                        if x == order.len() - 1 {
                            assert(!old_order.contains(order[x]));
                            assert(old_order[y] == order[y]);
                        } else if y == order.len() - 1 {
                            assert(!old_order.contains(order[y]));
                            assert(old_order[x] == order[x]);
                        }
                    }
                }
            },
            None => {
                proof {
                    assert(pending@ =~= old(pending)@);
                }
            },
        }
    }
    Ghost(taken)
}

/// `pending` holds what `order` has not taken yet, and `reordered` what it
/// took, in the order taken.
pub open spec fn order_agrees(
    pending: Seq<Option<ANFStatement>>,
    reordered: Seq<ANFStatementModel>,
    order: Seq<int>,
    c: Seq<ANFStatementModel>,
) -> bool {
    &&& order.len() == reordered.len()
    &&& order.no_duplicates()
    &&& forall|j: int| 0 <= j < order.len() ==> 0 <= #[trigger] order[j] < c.len() && reordered[j] == c[order[j]]
    &&& forall|i: int| 0 <= i < c.len() ==> (#[trigger] pending[i] is None <==> order.contains(i))
    &&& forall|i: int| 0 <= i < c.len() && pending[i] is Some ==> (#[trigger] pending[i])->Some_0@ == c[i]
}

/// The statements, declarations first in the order of the strongly
/// connected components of their dependencies, then the rest in order.
pub(crate) fn reorder_by_dependencies(collected: Vec<ANFStatement>) -> (r: Vec<ANFStatement>)
    ensures
        rearranges_by_dependencies(anf_statement_views(r@), anf_statement_views(collected@)),
{
    let ghost c = anf_statement_views(collected@);
    // map declared numbers to the index of their declaration
    let mut decl_stmt: Vec<(usize, usize)> = Vec::new();
    let mut index: usize = 0;
    proof {
        lemma_anf_statement_views(collected@);
    }
    while index < collected.len()
        invariant
            index <= collected.len(),
            c == anf_statement_views(collected@),
            c.len() == collected@.len(),
            forall|j: int| 0 <= j < collected@.len() ==> #[trigger] c[j] == collected@[j]@,
            forall|k: int| 0 <= k < decl_stmt@.len() ==> (#[trigger] decl_stmt@[k]).1 < index && declares(c, decl_stmt@[k].1 as int, decl_stmt@[k].0),
            forall|s: int, x: usize| #[trigger] declares(c, s, x) && s < index ==> exists|k: int| 0 <= k < decl_stmt@.len() && #[trigger] decl_stmt@[k] == (x, s as usize),
            forall|k1: int, k2: int| 0 <= k1 < k2 < decl_stmt@.len() ==> (#[trigger] decl_stmt@[k1]).1 <= (#[trigger] decl_stmt@[k2]).1,
        decreases collected.len() - index,
    {
        proof {
            assert(c[index as int] == collected@[index as int]@);
        }
        match &collected[index] {
            ANFStatement::Declaration(pattern, _) => {
                let ids = pattern.all_ids();
                let mut k: usize = 0;
                while k < ids.len()
                    invariant
                        k <= ids.len(),
                        index < collected.len(),
                        c.len() == collected@.len(),
                        c[index as int] is Declaration,
                        ids@ == pattern_ids(c[index as int]->Declaration_0),
                        forall|k: int| 0 <= k < decl_stmt@.len() ==> (#[trigger] decl_stmt@[k]).1 <= index && declares(c, decl_stmt@[k].1 as int, decl_stmt@[k].0),
                        forall|s: int, x: usize| #[trigger] declares(c, s, x) && s < index ==> exists|k: int| 0 <= k < decl_stmt@.len() && #[trigger] decl_stmt@[k] == (x, s as usize),
                        forall|m: int| 0 <= m < k ==> exists|k2: int| 0 <= k2 < decl_stmt@.len() && #[trigger] decl_stmt@[k2] == (#[trigger] ids@[m], index),
                        forall|k1: int, k2: int| 0 <= k1 < k2 < decl_stmt@.len() ==> (#[trigger] decl_stmt@[k1]).1 <= (#[trigger] decl_stmt@[k2]).1,
                    decreases ids.len() - k,
                {
                    let ghost before = decl_stmt@;
                    decl_stmt.push((ids[k], index));
                    proof {
                        assert(declares(c, index as int, ids@[k as int])) by {
                            assert(pattern_ids(c[index as int]->Declaration_0)[k as int] == ids@[k as int]);
                        }
                        assert forall|k3: int| 0 <= k3 < decl_stmt@.len() implies (#[trigger] decl_stmt@[k3]).1 <= index && declares(c, decl_stmt@[k3].1 as int, decl_stmt@[k3].0) by {
                            if k3 < before.len() {
                                assert(decl_stmt@[k3] == before[k3]);
                            }
                        }
                        assert forall|s: int, x: usize| #[trigger] declares(c, s, x) && s < index implies exists|k3: int| 0 <= k3 < decl_stmt@.len() && #[trigger] decl_stmt@[k3] == (x, s as usize) by {
                            let k3 = choose|k3: int| 0 <= k3 < before.len() && #[trigger] before[k3] == (x, s as usize);
                            assert(decl_stmt@[k3] == before[k3]);
                        }
                        assert forall|m: int| 0 <= m < k + 1 implies exists|k2: int| 0 <= k2 < decl_stmt@.len() && #[trigger] decl_stmt@[k2] == (#[trigger] ids@[m], index) by {
                            if m < k {
                                let k2 = choose|k2: int| 0 <= k2 < before.len() && #[trigger] before[k2] == (ids@[m], index);
                                assert(decl_stmt@[k2] == before[k2]);
                            } else {
                                assert(decl_stmt@[before.len() as int] == (ids@[m], index));
                            }
                        }
                        assert forall|k1: int, k2: int| 0 <= k1 < k2 < decl_stmt@.len() implies (#[trigger] decl_stmt@[k1]).1 <= (#[trigger] decl_stmt@[k2]).1 by {
                            if k2 < before.len() {
                                assert(decl_stmt@[k1] == before[k1] && decl_stmt@[k2] == before[k2]);
                            } else {
                                assert(decl_stmt@[k1] == before[k1]);
                            }
                        }
                    }
                    k += 1;
                }
                proof {
                    assert forall|s: int, x: usize| #[trigger] declares(c, s, x) && s < index + 1 implies exists|k3: int| 0 <= k3 < decl_stmt@.len() && #[trigger] decl_stmt@[k3] == (x, s as usize) by {
                        if s == index {
                            let m = choose|m: int| 0 <= m < ids@.len() && ids@[m] == x;
                            assert(ids@[m] == x);
                        }
                    }
                }
            },
            _ => {
                proof {
                    assert forall|s: int, x: usize| #[trigger] declares(c, s, x) && s < index + 1 implies exists|k3: int| 0 <= k3 < decl_stmt@.len() && #[trigger] decl_stmt@[k3] == (x, s as usize) by {
                        if s == index {
                            assert(!(c[s] is Declaration));
                        }
                    }
                }
            },
        }
        index += 1;
    }
    proof {
        assert forall|k: int| 0 <= k < decl_stmt@.len() implies declares(c, (#[trigger] decl_stmt@[k]).1 as int, decl_stmt@[k].0) by {}
    }
    let dep_graph = dependency_graph(&collected, &decl_stmt, Ghost(c));
    let sccs = tarjan_scc_of_list(&dep_graph);
    let ghost a_graph = adjacency_view(dep_graph@);
    let ghost comps = sccs@;
    let ghost f = flat_vecs(sccs@);
    proof {
        reveal(component_facts);
        assert forall|x: usize| #[trigger] is_declared(c, x) implies f.contains(x) by {
            let i = choose|i: int| 0 <= i < dep_graph@.len() && (#[trigger] dep_graph@[i]).0 == x;
            lemma_graph_vertices_contains(a_graph, i);
            assert(a_graph[i].0 == x);
            assert(f.to_set().contains(x));
        }
        assert(component_facts(c, a_graph, comps));
    }
    // move the statements out, to take each once
    let mut source = collected;
    let mut pending: Vec<Option<ANFStatement>> = Vec::new();
    proof {
        lemma_anf_statement_views(source@);
    }
    while source.len() > 0
        invariant
            c.len() == pending@.len() + source@.len(),
            forall|i: int| 0 <= i < pending@.len() ==> #[trigger] pending@[i] is Some && pending@[i]->Some_0@ == c[i],
            forall|i: int| 0 <= i < source@.len() ==> #[trigger] source@[i]@ == c[pending@.len() + i],
            declaration_table(decl_stmt@, c),
            component_facts(c, a_graph, comps),
        decreases source.len(),
    {
        let ghost before_source = source@;
        let ghost before_pending = pending@;
        let st = source.remove(0);
        pending.push(Some(st));
        proof {
            assert forall|i: int| 0 <= i < source@.len() implies #[trigger] source@[i]@ == c[pending@.len() + i] by {
                assert(source@[i] == before_source[i + 1]);
            }
            assert forall|i: int| 0 <= i < pending@.len() implies #[trigger] pending@[i] is Some && pending@[i]->Some_0@
                == c[i] by {
                if i < before_pending.len() {
                    assert(pending@[i] == before_pending[i]);
                } else {
                    assert(before_source[0]@ == c[before_pending.len() as int]);
                }
            }
        }
    }
    let mut reordered: Vec<ANFStatement> = Vec::new();
    let ghost mut order: Seq<int> = Seq::empty();
    let ghost mut tp: Seq<int> = Seq::empty();
    proof {
        assert(anf_statement_views(reordered@) =~= Seq::<ANFStatementModel>::empty());
        assert forall|i: int| 0 <= i < c.len() implies (#[trigger] pending@[i] is None <==> order.contains(i)) by {
            assert(pending@[i] is Some);
        }
        assert(comps.take(0) =~= Seq::<Vec<usize>>::empty());
        assert(flat_vecs(comps.take(0)) =~= Seq::<usize>::empty());
    }
    let mut a: usize = 0;
    while a < sccs.len()
        invariant
            a <= sccs.len(),
            sccs@ == comps,
            f == flat_vecs(comps),
            pending@.len() == c.len(),
            order_agrees(pending@, anf_statement_views(reordered@), order, c),
            declaration_table(decl_stmt@, c),
            component_facts(c, a_graph, comps),
            walked(c, f, pending@, order, tp, flat_vecs(comps.take(a as int)).len() as int),
        decreases sccs.len() - a,
    {
        let ghost base = flat_vecs(comps.take(a as int)).len() as int;
        let mut b: usize = 0;
        while b < sccs[a].len()
            invariant
                a < sccs.len(),
                sccs@ == comps,
                f == flat_vecs(comps),
                base == flat_vecs(comps.take(a as int)).len(),
                b <= comps[a as int]@.len(),
                pending@.len() == c.len(),
                order_agrees(pending@, anf_statement_views(reordered@), order, c),
                declaration_table(decl_stmt@, c),
                component_facts(c, a_graph, comps),
                walked(c, f, pending@, order, tp, base + b),
            decreases sccs@[a as int]@.len() - b,
        {
            let y = sccs[a][b];
            let ghost q = base + b;
            let ghost pend0 = pending@;
            let ghost order0 = order;
            proof {
                lemma_flat_index(comps, a as int, b as int);
                assert(f[q] == y);
            }
            match declaration_of(&decl_stmt, y, Ghost(c)) {
                Some(t) => {
                    let Ghost(next) = take_statement(t, &mut pending, &mut reordered, Ghost(order), Ghost(c));
                    proof {
                        order = next;
                        assert(last_declares(c, t as int, f[q]));
                        if pend0[t as int] is Some {
                            let tp0 = tp;
                            tp = tp.push(q);
                            assert forall|k: int| 0 <= k < tp.len() implies 0 <= #[trigger] tp[k] < q + 1 && last_declares(c, order[k], f[tp[k]]) by {
                                if k < tp0.len() {
                                    assert(tp[k] == tp0[k]);
                                    assert(order[k] == order0[k]);
                                }
                            }
                            assert forall|k1: int, k2: int| 0 <= k1 < k2 < tp.len() implies #[trigger] tp[k1] < #[trigger] tp[k2] by {
                                assert(tp[k1] == tp0[k1]);
                                if k2 < tp0.len() {
                                    assert(tp[k2] == tp0[k2]);
                                }
                            }
                            assert forall|k: int, q2: int| #![trigger tp[k], f[q2]] 0 <= k < tp.len() && 0 <= q2 < tp[k] implies !last_declares(c, order[k], f[q2]) by {
                                if k < tp0.len() {
                                    assert(tp[k] == tp0[k]);
                                    assert(order[k] == order0[k]);
                                } else {
                                    assert(order[k] == t as int);
                                    if last_declares(c, t as int, f[q2]) {
                                        assert(pend0[t as int] is None);
                                    }
                                }
                            }
                        }
                        assert forall|q2: int, t2: int| 0 <= q2 < q + 1 && #[trigger] last_declares(c, t2, f[q2]) implies pending@[t2] is None by {
                            if q2 < q {
                                assert(pend0[t2] is None);
                            } else {
                                lemma_last_declares_unique(c, t2, t as int, f[q2]);
                            }
                        }
                    }
                },
                None => {
                    proof {
                        assert forall|q2: int, t2: int| 0 <= q2 < q + 1 && #[trigger] last_declares(c, t2, f[q2]) implies pending@[t2] is None by {
                            if q2 == q {
                                assert(declares(c, t2, y));
                            }
                        }
                    }
                },
            }
            b += 1;
        }
        proof {
            assert(comps.take(a + 1) =~= comps.take(a as int).push(comps[a as int]));
            lemma_flat_push(comps.take(a as int), comps[a as int]);
        }
        a += 1;
    }
    let ghost order_w = order;
    let ghost pending_w = pending@;
    proof {
        assert(comps.take(a as int) =~= comps);
        assert forall|t: int, x: usize| #[trigger] last_declares(c, t, x) implies pending@[t] is None by {
            reveal(component_facts);
            assert(is_declared(c, x)) by {
                assert(declares(c, t, x));
            }
            let q2 = choose|q2: int| 0 <= q2 < f.len() && f[q2] == x;
            assert(last_declares(c, t, f[q2]));
        }
    }
    let mut i: usize = 0;
    while i < pending.len()
        invariant
            i <= pending@.len(),
            pending@.len() == c.len(),
            order_agrees(pending@, anf_statement_views(reordered@), order, c),
            forall|j: int| 0 <= j < i ==> #[trigger] pending@[j] is None,
            forall|t: int, x: usize| #[trigger] last_declares(c, t, x) ==> pending@[t] is None,
            order.len() >= order_w.len(),
            order.take(order_w.len() as int) == order_w,
            forall|k: int, x: usize| order_w.len() <= k < order.len() ==> !#[trigger] last_declares(c, order[k], x),
            walked(c, f, pending_w, order_w, tp, f.len() as int),
            f == flat_vecs(comps),
            component_facts(c, a_graph, comps),
        decreases pending.len() - i,
    {
        let ghost before = pending@;
        let ghost order0 = order;
        let Ghost(next) = take_statement(i, &mut pending, &mut reordered, Ghost(order), Ghost(c));
        proof {
            order = next;
            assert forall|j: int| 0 <= j < i + 1 implies #[trigger] pending@[j] is None by {
                if j < i {
                    assert(before[j] is None);
                }
            }
            assert(order.take(order_w.len() as int) =~= order0.take(order_w.len() as int));
            assert forall|k: int, x: usize| order_w.len() <= k < order.len() implies !#[trigger] last_declares(c, order[k], x) by {
                if k < order0.len() {
                    assert(order[k] == order0[k]);
                } else {
                    assert(order[k] == i as int);
                    if last_declares(c, i as int, x) {
                        assert(before[i as int] is None);
                    }
                }
            }
        }
        i += 1;
    }
    proof {
        let r = anf_statement_views(reordered@);
        assert forall|k: int| 0 <= k < c.len() implies #[trigger] order.contains(k) by {
            assert(pending@[k] is None);
        }
        assert forall|k: int| 0 <= k < tp.len() implies 0 <= #[trigger] tp[k] < flat_vecs(comps).len() && last_declares(c, order[k], flat_vecs(comps)[tp[k]]) by {
            assert(order[k] == order_w[k]);
        }
        assert forall|k: int, q2: int| #![trigger tp[k], flat_vecs(comps)[q2]] 0 <= k < tp.len() && 0 <= q2 < tp[k] implies !last_declares(c, order[k], flat_vecs(comps)[q2]) by {
            assert(order[k] == order_w[k]);
        }
        lemma_dependency_law(c, a_graph, comps, r, order, tp);
        assert(dependency_order(r, c, order));
    }
    reordered
}

} // verus!
