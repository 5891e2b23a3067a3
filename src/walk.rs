//! The dependency closure walk: which types are declared, and in what order.
use vstd::prelude::*;
use crate::model::TypeDef;
use crate::text::{decl_text, is_defined};

verus! {

/// The number of types not visited yet.
pub open spec fn count_unvisited(vis: Seq<bool>) -> nat
    decreases vis.len(),
{
    if vis.len() == 0 {
        0
    } else {
        count_unvisited(vis.drop_last()) + if vis.last() {
            0nat
        } else {
            1nat
        }
    }
}

/// Visits type `i` with visited set `vis`: returns the visited set after the
/// visit and the types whose declarations the visit emits, in order. A type
/// already visited, or outside the arena, is skipped; otherwise it is marked
/// visited, its dependencies are visited in their order, and then it is
/// emitted itself.
pub open spec fn visit(types: Seq<TypeDef>, vis: Seq<bool>, i: int) -> (Seq<bool>, Seq<int>)
    decreases count_unvisited(vis), 0nat, 0int,
{
    if 0 <= i < vis.len() && i < types.len() && !vis[i] {
        let v1 = vis.update(i, true);
        if count_unvisited(v1) < count_unvisited(vis) {
            let (v2, o) = visit_list(types, v1, types[i].deps@, 0);
            (v2, o.push(i))
        } else {
            (vis, Seq::empty())
        }
    } else {
        (vis, Seq::empty())
    }
}

/// Visits the dependencies `ds[k..]` in order.
pub open spec fn visit_list(types: Seq<TypeDef>, vis: Seq<bool>, ds: Seq<usize>, k: int) -> (
    Seq<bool>,
    Seq<int>,
)
    decreases count_unvisited(vis), 1nat, ds.len() - k,
{
    if 0 <= k < ds.len() {
        let (v1, o1) = visit(types, vis, ds[k] as int);
        if count_unvisited(v1) <= count_unvisited(vis) {
            let (v2, o2) = visit_list(types, v1, ds, k + 1);
            (v2, o1 + o2)
        } else {
            (v1, o1)
        }
    } else {
        (vis, Seq::empty())
    }
}

/// The visit of the root from an empty visited set.
pub open spec fn walk_order(types: Seq<TypeDef>, root: int) -> Seq<int> {
    visit(types, Seq::new(types.len(), |j: int| false), root).1
}

/// The declarations of the types in `order`, concatenated.
pub open spec fn decls_text(types: Seq<TypeDef>, ns: Seq<char>, order: Seq<int>) -> Seq<char>
    decreases order.len(),
{
    if order.len() == 0 {
        Seq::empty()
    } else {
        decls_text(types, ns, order.drop_last()) + decl_text(types, ns, order.last())
    }
}

/// The number of defined types in `order`.
pub open spec fn count_defined(types: Seq<TypeDef>, order: Seq<int>) -> nat
    decreases order.len(),
{
    if order.len() == 0 {
        0
    } else {
        count_defined(types, order.drop_last()) + if is_defined(types, order.last()) {
            1nat
        } else {
            0nat
        }
    }
}

pub proof fn lemma_decls_append(types: Seq<TypeDef>, ns: Seq<char>, a: Seq<int>, b: Seq<int>)
    ensures
        decls_text(types, ns, a + b) == decls_text(types, ns, a) + decls_text(types, ns, b),
        count_defined(types, a + b) == count_defined(types, a) + count_defined(types, b),
    decreases b.len(),
{
    if b.len() == 0 {
        assert(a + b =~= a);
    } else {
        lemma_decls_append(types, ns, a, b.drop_last());
        assert((a + b).drop_last() =~= a + b.drop_last());
    }
}

pub proof fn lemma_count_defined_le(types: Seq<TypeDef>, order: Seq<int>)
    ensures
        count_defined(types, order) <= order.len(),
    decreases order.len(),
{
    if order.len() > 0 {
        lemma_count_defined_le(types, order.drop_last());
    }
}

pub proof fn lemma_count_update(vis: Seq<bool>, i: int)
    requires
        0 <= i < vis.len(),
        !vis[i],
    ensures
        count_unvisited(vis.update(i, true)) + 1 == count_unvisited(vis),
    decreases vis.len(),
{
    if i < vis.len() - 1 {
        lemma_count_update(vis.drop_last(), i);
        assert(vis.update(i, true).drop_last() =~= vis.drop_last().update(i, true));
    } else {
        assert(vis.update(i, true).drop_last() =~= vis.drop_last());
    }
}

pub proof fn lemma_count_all_false(n: nat)
    ensures
        count_unvisited(Seq::new(n, |j: int| false)) == n,
    decreases n,
{
    if n > 0 {
        lemma_count_all_false((n - 1) as nat);
        assert(Seq::new(n, |j: int| false).drop_last() =~= Seq::new((n - 1) as nat, |j: int| false));
    }
}

/// What a visit does to the visited set: it only adds the types it emits,
/// which were unvisited before, each once, and afterwards every dependency of
/// an emitted type is visited.
pub open spec fn visit_post(
    types: Seq<TypeDef>,
    vis: Seq<bool>,
    v2: Seq<bool>,
    o: Seq<int>,
) -> bool {
    &&& v2.len() == vis.len()
    &&& forall|k: int| 0 <= k < vis.len() ==> (v2[k] <==> (vis[k] || o.contains(k)))
    &&& forall|p: int| 0 <= p < o.len() ==> 0 <= o[p] < vis.len() && !vis[o[p]]
    &&& o.no_duplicates()
    &&& count_unvisited(v2) + o.len() == count_unvisited(vis)
    &&& forall|p: int, q: int|
        0 <= p < o.len() && 0 <= q < types[o[p]].deps@.len() && types[o[p]].deps@[q] < vis.len()
            ==> v2[types[o[p]].deps@[q] as int]
}

pub proof fn lemma_visit(types: Seq<TypeDef>, vis: Seq<bool>, i: int)
    requires
        vis.len() == types.len(),
    ensures
        visit_post(types, vis, visit(types, vis, i).0, visit(types, vis, i).1),
        0 <= i < vis.len() ==> visit(types, vis, i).0[i],
    decreases count_unvisited(vis), 0nat, 0int,
{
    if 0 <= i < vis.len() && i < types.len() && !vis[i] {
        let v1 = vis.update(i, true);
        lemma_count_update(vis, i);
        let ds = types[i].deps@;
        lemma_visit_list(types, v1, ds, 0);
        let (v2, o) = visit_list(types, v1, ds, 0);
        let o2 = o.push(i);
        assert(visit(types, vis, i) == (v2, o2));
        assert forall|k: int| 0 <= k < vis.len() implies (v2[k] <==> (vis[k] || o2.contains(k))) by {
            if k == i {
                assert(o2[o2.len() - 1] == i);
            } else {
                if o2.contains(k) {
                    let p = choose|p: int| 0 <= p < o2.len() && o2[p] == k;
                    assert(o[p] == k);
                }
                if o.contains(k) {
                    let p = choose|p: int| 0 <= p < o.len() && o[p] == k;
                    assert(o2[p] == k);
                }
            }
        }
        assert forall|p: int| 0 <= p < o2.len() implies 0 <= o2[p] < vis.len() && !vis[o2[p]] by {
            if p < o.len() {
                assert(o2[p] == o[p]);
            }
        }
        assert(o2.no_duplicates()) by {
            assert forall|p: int, q: int| 0 <= p < o2.len() && 0 <= q < o2.len() && p != q
                implies o2[p] != o2[q] by {
                if p < o.len() && q < o.len() {
                } else if p < o.len() {
                    assert(o2[p] == o[p]);
                } else if q < o.len() {
                    assert(o2[q] == o[q]);
                }
            }
        }
        assert forall|p: int, q: int|
            0 <= p < o2.len() && 0 <= q < types[o2[p]].deps@.len() && types[o2[p]].deps@[q]
                < vis.len() implies v2[types[o2[p]].deps@[q] as int] by {
            if p < o.len() {
                assert(o2[p] == o[p]);
            } else {
                assert(o2[p] == i);
                assert(ds[q] == types[o2[p]].deps@[q]);
            }
        }
    }
}

pub proof fn lemma_visit_list(types: Seq<TypeDef>, vis: Seq<bool>, ds: Seq<usize>, k: int)
    requires
        vis.len() == types.len(),
        0 <= k,
    ensures
        visit_post(types, vis, visit_list(types, vis, ds, k).0, visit_list(types, vis, ds, k).1),
        forall|q: int|
            k <= q < ds.len() && ds[q] < vis.len() ==> #[trigger] visit_list(
                types,
                vis,
                ds,
                k,
            ).0[ds[q] as int],
    decreases count_unvisited(vis), 1nat, ds.len() - k,
{
    if 0 <= k < ds.len() {
        lemma_visit(types, vis, ds[k] as int);
        let (v1, o1) = visit(types, vis, ds[k] as int);
        lemma_visit_list(types, v1, ds, k + 1);
        let (v2, o2) = visit_list(types, v1, ds, k + 1);
        let o = o1 + o2;
        assert(visit_list(types, vis, ds, k) == (v2, o));
        assert forall|j: int| 0 <= j < vis.len() implies (v2[j] <==> (vis[j] || o.contains(j))) by {
            if o.contains(j) {
                let p = choose|p: int| 0 <= p < o.len() && o[p] == j;
                if p < o1.len() {
                    assert(o1[p] == j);
                } else {
                    assert(o2[p - o1.len()] == j);
                }
            }
            if o1.contains(j) {
                let p = choose|p: int| 0 <= p < o1.len() && o1[p] == j;
                assert(o[p] == j);
            }
            if o2.contains(j) {
                let p = choose|p: int| 0 <= p < o2.len() && o2[p] == j;
                assert(o[p + o1.len()] == j);
            }
        }
        assert forall|p: int| 0 <= p < o.len() implies 0 <= o[p] < vis.len() && !vis[o[p]] by {
            if p < o1.len() {
                assert(o[p] == o1[p]);
            } else {
                assert(o[p] == o2[p - o1.len()]);
                assert(!v1[o2[p - o1.len()]]);
            }
        }
        assert(o.no_duplicates()) by {
            assert forall|p: int, q: int| 0 <= p < o.len() && 0 <= q < o.len() && p != q
                implies o[p] != o[q] by {
                if p < o1.len() && q < o1.len() {
                    assert(o[p] == o1[p] && o[q] == o1[q]);
                } else if p >= o1.len() && q >= o1.len() {
                    assert(o[p] == o2[p - o1.len()] && o[q] == o2[q - o1.len()]);
                } else if p < o1.len() {
                    assert(o[p] == o1[p] && o[q] == o2[q - o1.len()]);
                    assert(v1[o1[p]]);
                } else {
                    assert(o[q] == o1[q] && o[p] == o2[p - o1.len()]);
                    assert(v1[o1[q]]);
                }
            }
        }
        assert forall|p: int, q: int|
            0 <= p < o.len() && 0 <= q < types[o[p]].deps@.len() && types[o[p]].deps@[q]
                < vis.len() implies v2[types[o[p]].deps@[q] as int] by {
            if p < o1.len() {
                assert(o[p] == o1[p]);
            } else {
                assert(o[p] == o2[p - o1.len()]);
            }
        }
        assert forall|q: int| k <= q < ds.len() && ds[q] < vis.len() implies v2[ds[q] as int] by {
            if q > k {
                assert(visit_list(types, v1, ds, k + 1).0[ds[q] as int]);
            }
        }
    }
}

} // verus!
