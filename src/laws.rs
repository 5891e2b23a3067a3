//! Properties of an emission run, stated over the walk and the rendered text.
use vstd::prelude::*;
use crate::model::{TypeDef, TypeExpr, Intersection, Union};
use crate::text::{docs_text, expr_text, is_defined};
use crate::walk::{count_defined, lemma_visit, lemma_visit_list, visit, visit_list, walk_order};

verus! {

broadcast use {vstd::seq_lib::group_seq_properties, vstd::set::group_set_axioms};

/// Every type reached from the root is declared exactly once: the walk
/// holds no index twice, holds only indices of the arena, holds the root,
/// and holds every dependency (inside the arena) of every type it holds,
/// however many paths lead there and whatever cycles the graph has.
pub proof fn law_exactly_once(types: Seq<TypeDef>, root: int)
    ensures
        walk_order(types, root).no_duplicates(),
        forall|p: int|
            0 <= p < walk_order(types, root).len() ==> 0 <= #[trigger] walk_order(types, root)[p]
                < types.len(),
        0 <= root < types.len() ==> walk_order(types, root).contains(root),
        forall|p: int, q: int|
            0 <= p < walk_order(types, root).len() && 0 <= q < types[walk_order(
                types,
                root,
            )[p]].deps@.len() && types[walk_order(types, root)[p]].deps@[q] < types.len()
                ==> walk_order(types, root).contains(
                types[walk_order(types, root)[p]].deps@[q] as int,
            ),
{
    let vis0 = Seq::new(types.len(), |j: int| false);
    lemma_visit(types, vis0, root);
}

/// The number of defined types in a sequence without repetitions is the
/// number of distinct defined types in it.
pub proof fn lemma_count_defined_distinct(types: Seq<TypeDef>, o: Seq<int>)
    requires
        o.no_duplicates(),
    ensures
        count_defined(types, o) == o.to_set().filter(|x: int| is_defined(types, x)).len(),
    decreases o.len(),
{
    let f = |x: int| is_defined(types, x);
    if o.len() == 0 {
        assert(o.to_set().filter(f) =~= Set::<int>::empty());
    } else {
        let d = o.drop_last();
        assert(d.no_duplicates()) by {
            assert forall|p: int, q: int| 0 <= p < d.len() && 0 <= q < d.len() && p != q
                implies d[p] != d[q] by {
                assert(d[p] == o[p] && d[q] == o[q]);
            }
        }
        lemma_count_defined_distinct(types, d);
        let sd = d.to_set().filter(f);
        assert(!d.contains(o.last())) by {
            if d.contains(o.last()) {
                let p = choose|p: int| 0 <= p < d.len() && d[p] == o.last();
                assert(o[p] == o[o.len() - 1]);
            }
        }
        assert(o =~= d.push(o.last()));
        if f(o.last()) {
            assert(o.to_set().filter(f) =~= sd.insert(o.last()));
        } else {
            assert(o.to_set().filter(f) =~= sd);
        }
    }
}

/// The number of declarations counted by a run is the number of distinct
/// defined types that the walk from the root reaches; native types are not
/// counted.
pub proof fn law_statistics(types: Seq<TypeDef>, root: int)
    ensures
        count_defined(types, walk_order(types, root)) == walk_order(types, root).to_set().filter(
            |x: int| is_defined(types, x),
        ).len(),
{
    law_exactly_once(types, root);
    lemma_count_defined_distinct(types, walk_order(types, root));
}

/// A union without members renders as `never`; an intersection without
/// members renders as `any`.
pub proof fn law_empty_union_intersection(
    types: Seq<TypeDef>,
    ns: Seq<char>,
    u: Union,
    n: Intersection,
    bound: nat,
)
    requires
        u.members@.len() == 0,
        n.members@.len() == 0,
    ensures
        expr_text(types, ns, TypeExpr::Union(u), bound) == docs_text(u.docs) + "never"@,
        expr_text(types, ns, TypeExpr::Intersection(n), bound) == docs_text(n.docs) + "any"@,
{
}

/// Every dependency inside the arena has a lower rank than the type that
/// depends on it: the dependency graph has no cycle.
pub open spec fn ranked(types: Seq<TypeDef>, rank: spec_fn(int) -> nat) -> bool {
    forall|i: int, q: int|
        0 <= i < types.len() && 0 <= q < types[i].deps@.len() && types[i].deps@[q] < types.len()
            ==> rank(types[i].deps@[q] as int) < rank(i)
}

/// Each dependency of a type emitted in `o` was visited before `o` began, or
/// comes earlier in `o`.
pub open spec fn deps_before(types: Seq<TypeDef>, vis: Seq<bool>, o: Seq<int>) -> bool {
    forall|p: int, q: int|
        0 <= p < o.len() && 0 <= q < types[o[p]].deps@.len() && types[o[p]].deps@[q] < types.len()
            ==> vis[types[o[p]].deps@[q] as int] || exists|r: int|
            0 <= r < p && #[trigger] o[r] == types[o[p]].deps@[q]
}

proof fn lemma_visit_ranked(types: Seq<TypeDef>, rank: spec_fn(int) -> nat, vis: Seq<bool>, i: int)
    requires
        vis.len() == types.len(),
        ranked(types, rank),
    ensures
        deps_before(types, vis, visit(types, vis, i).1),
        forall|p: int|
            0 <= p < visit(types, vis, i).1.len() ==> rank(#[trigger] visit(types, vis, i).1[p])
                <= rank(i),
    decreases crate::walk::count_unvisited(vis), 0nat, 0int,
{
    lemma_visit(types, vis, i);
    if 0 <= i < vis.len() && i < types.len() && !vis[i] {
        let v1 = vis.update(i, true);
        crate::walk::lemma_count_update(vis, i);
        let ds = types[i].deps@;
        lemma_visit_list(types, v1, ds, 0);
        lemma_list_ranked(types, rank, v1, ds, 0);
        let (v2, ol) = visit_list(types, v1, ds, 0);
        let o = ol.push(i);
        assert(visit(types, vis, i).1 == o);
        assert forall|p: int| 0 <= p < o.len() implies rank(#[trigger] o[p]) <= rank(i) by {
            if p < ol.len() {
                assert(o[p] == ol[p]);
                let m = choose|m: int| 0 <= m < ds.len() && ds[m] < types.len() && rank(ol[p]) <= rank(
                    ds[m] as int,
                );
                assert(rank(ds[m] as int) < rank(i));
            }
        }
        assert forall|p: int, q: int|
            0 <= p < o.len() && 0 <= q < types[o[p]].deps@.len() && types[o[p]].deps@[q]
                < types.len() implies vis[types[o[p]].deps@[q] as int] || exists|r: int|
            0 <= r < p && #[trigger] o[r] == types[o[p]].deps@[q] by {
            let d = types[o[p]].deps@[q] as int;
            if p < ol.len() {
                assert(o[p] == ol[p]);
                if d == i {
                    let m = choose|m: int| 0 <= m < ds.len() && ds[m] < types.len() && rank(ol[p]) <= rank(
                        ds[m] as int,
                    );
                    assert(rank(ds[m] as int) < rank(i));
                    assert(rank(d) < rank(ol[p]));
                } else if !vis[d] {
                    assert(!v1[d]);
                    let r = choose|r: int| 0 <= r < p && #[trigger] ol[r] == d;
                    assert(o[r] == d);
                }
            } else {
                assert(o[p] == i);
                assert(ds[q] == d);
                assert(rank(d) < rank(i));
                assert(v2[d]);
                if !vis[d] {
                    assert(ol.contains(d));
                    let r = choose|r: int| 0 <= r < ol.len() && ol[r] == d;
                    assert(o[r] == d);
                }
            }
        }
    }
}

proof fn lemma_list_ranked(
    types: Seq<TypeDef>,
    rank: spec_fn(int) -> nat,
    vis: Seq<bool>,
    ds: Seq<usize>,
    k: int,
)
    requires
        vis.len() == types.len(),
        ranked(types, rank),
        0 <= k,
    ensures
        deps_before(types, vis, visit_list(types, vis, ds, k).1),
        forall|p: int|
            0 <= p < visit_list(types, vis, ds, k).1.len() ==> exists|m: int|
                k <= m < ds.len() && ds[m] < types.len() && rank(
                    #[trigger] visit_list(types, vis, ds, k).1[p],
                ) <= rank(ds[m] as int),
    decreases crate::walk::count_unvisited(vis), 1nat, ds.len() - k,
{
    lemma_visit_list(types, vis, ds, k);
    if 0 <= k < ds.len() {
        lemma_visit(types, vis, ds[k] as int);
        lemma_visit_ranked(types, rank, vis, ds[k] as int);
        let (v1, o1) = visit(types, vis, ds[k] as int);
        lemma_visit_list(types, v1, ds, k + 1);
        lemma_list_ranked(types, rank, v1, ds, k + 1);
        let (v2, o2) = visit_list(types, v1, ds, k + 1);
        let o = o1 + o2;
        assert(visit_list(types, vis, ds, k).1 == o);
        assert forall|p: int| 0 <= p < o.len() implies exists|m: int|
            k <= m < ds.len() && ds[m] < types.len() && rank(#[trigger] o[p]) <= rank(
                ds[m] as int,
            ) by {
            if p < o1.len() {
                assert(o[p] == o1[p]);
                assert(ds[k] < types.len());
            } else {
                assert(o[p] == o2[p - o1.len()]);
            }
        }
        assert forall|p: int, q: int|
            0 <= p < o.len() && 0 <= q < types[o[p]].deps@.len() && types[o[p]].deps@[q]
                < types.len() implies vis[types[o[p]].deps@[q] as int] || exists|r: int|
            0 <= r < p && #[trigger] o[r] == types[o[p]].deps@[q] by {
            let d = types[o[p]].deps@[q] as int;
            if p < o1.len() {
                assert(o[p] == o1[p]);
                if !vis[d] {
                    let r = choose|r: int| 0 <= r < p && #[trigger] o1[r] == d;
                    assert(o[r] == d);
                }
            } else {
                let p2 = p - o1.len();
                assert(o[p] == o2[p2]);
                if !vis[d] {
                    if v1[d] {
                        assert(o1.contains(d));
                        let r = choose|r: int| 0 <= r < o1.len() && o1[r] == d;
                        assert(o[r] == d);
                    } else {
                        let r = choose|r: int| 0 <= r < p2 && #[trigger] o2[r] == d;
                        assert(o[r + o1.len()] == d);
                    }
                }
            }
        }
    }
}

/// In a graph without cycles, a type's declaration comes after the
/// declarations of all the types it directly depends on.
pub proof fn law_deps_before_self(types: Seq<TypeDef>, root: int, rank: spec_fn(int) -> nat)
    requires
        ranked(types, rank),
    ensures
        forall|p: int, q: int|
            0 <= p < walk_order(types, root).len() && 0 <= q < types[walk_order(
                types,
                root,
            )[p]].deps@.len() && types[walk_order(types, root)[p]].deps@[q] < types.len()
                ==> exists|r: int|
                0 <= r < p && #[trigger] walk_order(types, root)[r] == types[walk_order(
                    types,
                    root,
                )[p]].deps@[q],
{
    let vis0 = Seq::new(types.len(), |j: int| false);
    lemma_visit_ranked(types, rank, vis0, root);
}

} // verus!
