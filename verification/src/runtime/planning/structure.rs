//! Acyclicity of a directed structure over text ids.

use vstd::prelude::*;
use crate::text::str_eq;
use crate::runtime::orchestration::graph::{contains_str, has_id, lemma_mark, str_views, unmarked};
use crate::runtime::orchestration::queue::{first_index, lemma_first_index};

verus! {

/// The arcs `from -> to` by view.
pub open spec fn arc_views(arcs: Seq<(&str, &str)>) -> Seq<(Seq<char>, Seq<char>)> {
    arcs.map_values(|a: (&str, &str)| (a.0@, a.1@))
}

/// Whether `rank` puts every arc's source strictly above its target.
pub open spec fn ranks_arcs(arcs: Seq<(Seq<char>, Seq<char>)>, rank: spec_fn(Seq<char>) -> int) -> bool {
    forall|k: int| 0 <= k < arcs.len() ==> rank((#[trigger] arcs[k]).0) > rank(arcs[k].1)
}

/// Whether the arcs close no cycle: some ranking puts every source above its target.
pub open spec fn arcs_acyclic(arcs: Seq<(Seq<char>, Seq<char>)>) -> bool {
    exists|rank: spec_fn(Seq<char>) -> int| ranks_arcs(arcs, rank)
}

/// Whether `x` is the source of some arc.
pub open spec fn is_source(arcs: Seq<(Seq<char>, Seq<char>)>, x: Seq<char>) -> bool {
    exists|k: int| 0 <= k < arcs.len() && (#[trigger] arcs[k]).0 == x
}

/// Whether every arc from `x` leads to a placed id or to an id with no arcs of its own.
pub open spec fn placeable(arcs: Seq<(Seq<char>, Seq<char>)>, x: Seq<char>, placed: Seq<Seq<char>>) -> bool {
    forall|k: int|
        0 <= k < arcs.len() && (#[trigger] arcs[k]).0 == x ==> has_id(placed, arcs[k].1) || !is_source(arcs, arcs[k].1)
}

/// Whether every entry of `placed` had its arcs' sourced targets placed before it.
pub open spec fn placed_in_order(arcs: Seq<(Seq<char>, Seq<char>)>, placed: Seq<Seq<char>>) -> bool {
    forall|q: int, k: int|
        0 <= q < placed.len() && 0 <= k < arcs.len() && (#[trigger] arcs[k]).0 == #[trigger] placed[q] && is_source(
            arcs,
            arcs[k].1,
        ) ==> exists|p: int| 0 <= p < q && placed[p] == arcs[k].1
}

proof fn lemma_order_ranks_arcs(arcs: Seq<(Seq<char>, Seq<char>)>, placed: Seq<Seq<char>>)
    requires
        placed_in_order(arcs, placed),
        forall|k: int| 0 <= k < arcs.len() ==> has_id(placed, (#[trigger] arcs[k]).0),
    ensures
        arcs_acyclic(arcs),
{
    let rank = |x: Seq<char>| if is_source(arcs, x) && has_id(placed, x) { first_index(placed, x) + 1 } else { 0int };
    assert forall|k: int| 0 <= k < arcs.len() implies rank((#[trigger] arcs[k]).0) > rank(arcs[k].1) by {
        let s = arcs[k].0;
        let t = arcs[k].1;
        let p0 = choose|p: int| 0 <= p < placed.len() && placed[p] == s;
        lemma_first_index(placed, s, p0);
        let f = first_index(placed, s);
        assert(is_source(arcs, s));
        if is_source(arcs, t) {
            assert(arcs[k].0 == placed[f]);
            let p = choose|p: int| 0 <= p < f && placed[p] == t;
            lemma_first_index(placed, t, p);
        }
    }
    assert(ranks_arcs(arcs, rank));
}

/// Whether `p` is a chain of arc indices, each arc starting where the one before ends.
pub open spec fn arc_chain(arcs: Seq<(Seq<char>, Seq<char>)>, p: Seq<int>) -> bool {
    &&& forall|m: int| 0 <= m < p.len() ==> 0 <= #[trigger] p[m] < arcs.len()
    &&& forall|m: int| 0 <= m < p.len() - 1 ==> arcs[#[trigger] p[m + 1]].0 == arcs[p[m]].1
}

/// Whether arc `j` lies on a cycle: a chain of arcs starting with it ends where it starts.
pub open spec fn arc_on_cycle(arcs: Seq<(Seq<char>, Seq<char>)>, j: int) -> bool {
    exists|p: Seq<int>| #[trigger] arc_chain(arcs, p) && p.len() >= 1 && p[0] == j && arcs[p.last()].1 == arcs[j].0
}

/// Along a chain of ranked arcs, every source ranks no higher than the first.
proof fn lemma_chain_descends(arcs: Seq<(Seq<char>, Seq<char>)>, rank: spec_fn(Seq<char>) -> int, p: Seq<int>, m: int)
    requires
        ranks_arcs(arcs, rank),
        arc_chain(arcs, p),
        0 <= m < p.len(),
    ensures
        rank(arcs[p[0]].0) >= rank(arcs[p[m]].0),
    decreases m,
{
    if m > 0 {
        lemma_chain_descends(arcs, rank, p, m - 1);
        assert(0 <= p[m - 1] < arcs.len());
        assert(rank(arcs[p[m - 1]].0) > rank(arcs[p[m - 1]].1));
        assert(arcs[p[(m - 1) + 1]].0 == arcs[p[m - 1]].1);
    }
}

/// An arc on a cycle can be ranked by no ranking.
pub proof fn lemma_cycle_blocks_ranking(arcs: Seq<(Seq<char>, Seq<char>)>, j: int)
    requires
        arc_on_cycle(arcs, j),
    ensures
        !arcs_acyclic(arcs),
{
    let p = choose|p: Seq<int>| #[trigger] arc_chain(arcs, p) && p.len() >= 1 && p[0] == j && arcs[p.last()].1 == arcs[j].0;
    if arcs_acyclic(arcs) {
        let rank = choose|rank: spec_fn(Seq<char>) -> int| ranks_arcs(arcs, rank);
        lemma_chain_descends(arcs, rank, p, p.len() - 1);
        assert(0 <= p[p.len() - 1] < arcs.len());
        assert(rank(arcs[p.last()].0) > rank(arcs[p.last()].1));
    }
}

/// Whether some arc starts at `x`.
fn starts_an_arc(arcs: &Vec<(&str, &str)>, x: &str) -> (r: bool)
    ensures
        r == is_source(arc_views(arcs@), x@),
{
    let ghost av = arc_views(arcs@);
    let mut j: usize = 0;
    while j < arcs.len()
        invariant
            j <= arcs@.len(),
            av == arc_views(arcs@),
            forall|q: int| 0 <= q < j ==> (#[trigger] av[q]).0 != x@,
        decreases arcs@.len() - j,
    {
        proof {
            assert(av[j as int] == (arcs@[j as int].0@, arcs@[j as int].1@));
        }
        if str_eq(arcs[j].0, x) {
            return true;
        }
        j = j + 1;
    }
    false
}

/// An arc from `x` to an id that is not placed and has arcs of its own; one exists because
/// `x` is not placeable.
fn blocking_arc(arcs: &Vec<(&str, &str)>, x: &str, placed: &Vec<&str>) -> (k: usize)
    requires
        !placeable(arc_views(arcs@), x@, str_views(placed@)),
    ensures
        k < arcs@.len(),
        arc_views(arcs@)[k as int].0 == x@,
        !has_id(str_views(placed@), arc_views(arcs@)[k as int].1),
        is_source(arc_views(arcs@), arc_views(arcs@)[k as int].1),
{
    let ghost av = arc_views(arcs@);
    let mut k: usize = 0;
    while k < arcs.len()
        invariant
            k <= arcs@.len(),
            av == arc_views(arcs@),
            forall|q: int| 0 <= q < k && (#[trigger] av[q]).0 == x@ ==> has_id(str_views(placed@), av[q].1) || !is_source(av, av[q].1),
        decreases arcs@.len() - k,
    {
        proof {
            assert(av[k as int] == (arcs@[k as int].0@, arcs@[k as int].1@));
        }
        if str_eq(arcs[k].0, x) && !contains_str(placed, arcs[k].1) && starts_an_arc(arcs, arcs[k].1) {
            return k;
        }
        k = k + 1;
    }
    proof {
        assert(placeable(av, x@, str_views(placed@)));
    }
    0
}

/// The arc that closes a cycle, found by walking blocking arcs from the stuck arc `start`
/// until the walk returns to an id it has left.
fn closing_arc(arcs: &Vec<(&str, &str)>, placed: &Vec<&str>, start: usize, Ghost(removed): Ghost<Seq<bool>>) -> (r: usize)
    requires
        removed.len() == arcs@.len(),
        start < arcs@.len(),
        !removed[start as int],
        forall|k: int| 0 <= k < arcs@.len() && removed[k] ==> has_id(str_views(placed@), (#[trigger] arc_views(arcs@)[k]).0),
        forall|k: int| 0 <= k < arcs@.len() && !removed[k] ==> !placeable(arc_views(arcs@), (#[trigger] arc_views(arcs@)[k]).0, str_views(placed@)),
    ensures
        r < arcs@.len(),
        arc_on_cycle(arc_views(arcs@), r as int),
{
    let ghost av = arc_views(arcs@);
    let ghost pv = str_views(placed@);
    let n = arcs.len();
    let mut visited: Vec<bool> = Vec::new();
    while visited.len() < n
        invariant
            visited@.len() <= n,
            n == arcs@.len(),
            forall|k: int| 0 <= k < visited@.len() ==> !visited@[k],
        decreases n - visited@.len(),
    {
        visited.push(false);
    }
    proof {
        assert(av[start as int] == (arcs@[start as int].0@, arcs@[start as int].1@));
        assert(!placeable(av, av[start as int].0, pv));
    }
    let first = blocking_arc(arcs, arcs[start].0, placed);
    proof {
        lemma_mark(visited@, first as int);
    }
    visited.set(first, true);
    let mut walk: Vec<&str> = Vec::new();
    walk.push(arcs[start].0);
    proof {
        assert(str_views(walk@)[0] == av[first as int].0);
        assert forall|k: int| 0 <= k < n && #[trigger] visited@[k] implies has_id(str_views(walk@), av[k].0) by {
            assert(k == first as int);
        }
    }
    let ghost mut chain: Seq<int> = seq![first as int];
    let mut current = first;
    loop
        invariant
            n == arcs@.len(),
            av == arc_views(arcs@),
            pv == str_views(placed@),
            removed.len() == n,
            forall|k: int| 0 <= k < n && removed[k] ==> has_id(pv, (#[trigger] av[k]).0),
            forall|k: int| 0 <= k < n && !removed[k] ==> !placeable(av, (#[trigger] av[k]).0, pv),
            visited@.len() == n,
            current < n,
            chain.len() >= 1,
            chain.len() == walk@.len(),
            chain.last() == current as int,
            arc_chain(av, chain),
            forall|q: int| 0 <= q < chain.len() ==> av[#[trigger] chain[q]].0 == str_views(walk@)[q],
            forall|k: int| 0 <= k < n && #[trigger] visited@[k] ==> has_id(str_views(walk@), av[k].0),
            !has_id(pv, av[current as int].1),
            is_source(av, av[current as int].1),
        decreases unmarked(visited@),
    {
        let target = arcs[current].1;
        proof {
            assert(av[current as int] == (arcs@[current as int].0@, arcs@[current as int].1@));
        }
        if contains_str(&walk, target) {
            proof {
                let wv = str_views(walk@);
                let m = chain.len();
                let j = choose|j: int| 0 <= j < wv.len() && wv[j] == target@;
                let p = seq![current as int] + chain.subrange(j, m - 1);
                assert(p[0] == current as int);
                assert forall|q: int| 0 <= q < p.len() implies 0 <= #[trigger] p[q] < av.len() by {
                    if q > 0 {
                        assert(p[q] == chain[j + q - 1]);
                    }
                }
                assert forall|q: int| 0 <= q < p.len() - 1 implies av[#[trigger] p[q + 1]].0 == av[p[q]].1 by {
                    assert(p[q + 1] == chain[j + q]);
                    if q == 0 {
                        assert(p[q] == current as int);
                        assert(av[chain[j]].0 == wv[j]);
                        assert(av[current as int].1 == target@);
                    } else {
                        assert(p[q] == chain[j + q - 1]);
                        assert(av[chain[(j + q - 1) + 1]].0 == av[chain[j + q - 1]].1);
                    }
                }
                assert(arc_chain(av, p));
                if j < m - 1 {
                    assert(p.last() == chain[m - 2]);
                    assert(av[chain[(m - 2) + 1]].0 == av[chain[m - 2]].1);
                } else {
                    assert(p =~= seq![current as int]);
                    assert(av[chain[m - 1]].0 == wv[m - 1]);
                }
                assert(arc_on_cycle(av, current as int));
            }
            return current;
        }
        proof {
            let a = choose|a: int| 0 <= a < av.len() && (#[trigger] av[a]).0 == target@;
            if removed[a] {
                assert(has_id(pv, av[a].0));
            }
        }
        let next = blocking_arc(arcs, target, placed);
        proof {
            if visited@[next as int] {
                assert(has_id(str_views(walk@), av[next as int].0));
            }
            lemma_mark(visited@, next as int);
        }
        let ghost before = walk@;
        visited.set(next, true);
        walk.push(target);
        proof {
            let old_chain = chain;
            chain = chain.push(next as int);
            assert(str_views(walk@) =~= str_views(before).push(target@));
            assert forall|m: int| 0 <= m < chain.len() implies 0 <= #[trigger] chain[m] < av.len() by {
                if m < old_chain.len() {
                    assert(chain[m] == old_chain[m]);
                }
            }
            assert forall|m: int| 0 <= m < chain.len() - 1 implies av[#[trigger] chain[m + 1]].0 == av[chain[m]].1 by {
                if m + 1 < old_chain.len() {
                    assert(chain[m + 1] == old_chain[m + 1]);
                    assert(chain[m] == old_chain[m]);
                } else {
                    assert(chain[m] == old_chain.last());
                }
            }
            assert forall|q: int| 0 <= q < chain.len() implies av[#[trigger] chain[q]].0 == str_views(walk@)[q] by {
                if q < old_chain.len() {
                    assert(chain[q] == old_chain[q]);
                }
            }
            assert forall|k: int| 0 <= k < n && #[trigger] visited@[k] implies has_id(str_views(walk@), av[k].0) by {
                if k == next as int {
                    assert(str_views(walk@)[before.len() as int] == target@);
                } else {
                    let q = choose|q: int| 0 <= q < before.len() && str_views(before)[q] == av[k].0;
                    assert(str_views(walk@)[q] == str_views(before)[q]);
                }
            }
        }
        current = next;
    }
}

/// Whether every arc from `x` leads to a placed id or to an id with no arcs of its own.
fn is_placeable(arcs: &Vec<(&str, &str)>, x: &str, placed: &Vec<&str>) -> (r: bool)
    ensures
        r == placeable(arc_views(arcs@), x@, str_views(placed@)),
{
    let ghost av = arc_views(arcs@);
    let mut k: usize = 0;
    while k < arcs.len()
        invariant
            k <= arcs@.len(),
            av == arc_views(arcs@),
            forall|q: int| 0 <= q < k && (#[trigger] av[q]).0 == x@ ==> has_id(str_views(placed@), av[q].1) || !is_source(av, av[q].1),
        decreases arcs@.len() - k,
    {
        proof {
            assert(av[k as int] == (arcs@[k as int].0@, arcs@[k as int].1@));
        }
        if str_eq(arcs[k].0, x) && !contains_str(placed, arcs[k].1) {
            let mut j: usize = 0;
            while j < arcs.len()
                invariant
                    j <= arcs@.len(),
                    k < arcs@.len(),
                    av == arc_views(arcs@),
                    av[k as int].0 == x@,
                    av[k as int].1 == arcs@[k as int].1@,
                    !has_id(str_views(placed@), av[k as int].1),
                    forall|q: int| 0 <= q < j ==> (#[trigger] av[q]).0 != arcs@[k as int].1@,
                decreases arcs@.len() - j,
            {
                proof {
                    assert(av[j as int] == (arcs@[j as int].0@, arcs@[j as int].1@));
                }
                if str_eq(arcs[j].0, arcs[k].1) {
                    proof {
                        assert(av[j as int].0 == av[k as int].1);
                        assert(is_source(av, av[k as int].1));
                    }
                    return false;
                }
                j = j + 1;
            }
        }
        k = k + 1;
    }
    true
}

/// An arc of a cycle's part when the arcs close a cycle, `None` when they close none.
pub fn cycle_arc(arcs: &Vec<(&str, &str)>) -> (r: Option<usize>)
    ensures
        r is None <==> arcs_acyclic(arc_views(arcs@)),
        r matches Some(j) ==> j < arcs@.len() && arc_on_cycle(arc_views(arcs@), j as int),
{
    let ghost av = arc_views(arcs@);
    let n = arcs.len();
    let mut removed: Vec<bool> = Vec::new();
    while removed.len() < n
        invariant
            removed@.len() <= n,
            n == arcs@.len(),
            forall|k: int| 0 <= k < removed@.len() ==> !removed@[k],
        decreases n - removed@.len(),
    {
        removed.push(false);
    }
    let mut placed: Vec<&str> = Vec::new();
    let mut progress = true;
    while progress
        invariant
            n == arcs@.len(),
            av == arc_views(arcs@),
            removed@.len() == n,
            forall|k: int| 0 <= k < n && removed@[k] ==> has_id(str_views(placed@), (#[trigger] av[k]).0),
            placed_in_order(av, str_views(placed@)),
            !progress ==> forall|k: int| 0 <= k < n && !removed@[k] ==> !placeable(av, (#[trigger] av[k]).0, str_views(placed@)),
        decreases unmarked(removed@) + if progress { 1nat } else { 0nat },
    {
        progress = false;
        let ghost start = unmarked(removed@);
        let mut i: usize = 0;
        while i < n
            invariant
                n == arcs@.len(),
                av == arc_views(arcs@),
                i <= n,
                removed@.len() == n,
                forall|k: int| 0 <= k < n && removed@[k] ==> has_id(str_views(placed@), (#[trigger] av[k]).0),
                placed_in_order(av, str_views(placed@)),
                progress ==> unmarked(removed@) < start,
                !progress ==> unmarked(removed@) == start,
                !progress ==> forall|k: int| 0 <= k < i && !removed@[k] ==> !placeable(av, (#[trigger] av[k]).0, str_views(placed@)),
            decreases n - i,
        {
            if !removed[i] {
                let source = arcs[i].0;
                proof {
                    assert(av[i as int] == (arcs@[i as int].0@, arcs@[i as int].1@));
                }
                if is_placeable(arcs, source, &placed) {
                    let ghost before = str_views(placed@);
                    proof {
                        lemma_mark(removed@, i as int);
                    }
                    removed.set(i, true);
                    placed.push(source);
                    progress = true;
                    proof {
                        let after = str_views(placed@);
                        assert(after =~= before.push(source@));
                        assert forall|k: int| 0 <= k < n && removed@[k] implies has_id(after, (#[trigger] av[k]).0) by {
                            if k == i {
                                assert(after[before.len() as int] == source@);
                            } else {
                                let q = choose|q: int| 0 <= q < before.len() && before[q] == av[k].0;
                                assert(after[q] == before[q]);
                            }
                        }
                        assert forall|q: int, k: int|
                            0 <= q < after.len() && 0 <= k < av.len() && (#[trigger] av[k]).0 == #[trigger] after[q] && is_source(
                                av,
                                av[k].1,
                            ) implies exists|p: int| 0 <= p < q && after[p] == av[k].1 by {
                            if q < before.len() {
                                assert(after[q] == before[q]);
                                let p = choose|p: int| 0 <= p < q && before[p] == av[k].1;
                                assert(after[p] == before[p]);
                            } else {
                                assert(has_id(before, av[k].1));
                                let p = choose|p: int| 0 <= p < before.len() && before[p] == av[k].1;
                                assert(after[p] == before[p]);
                            }
                        }
                    }
                }
            }
            i = i + 1;
        }
    }
    let mut first_left: usize = 0;
    while first_left < n && removed[first_left]
        invariant
            first_left <= n,
            removed@.len() == n,
            forall|j: int| 0 <= j < first_left ==> removed@[j],
        decreases n - first_left,
    {
        first_left = first_left + 1;
    }
    if first_left == n {
        proof {
            assert forall|k: int| 0 <= k < av.len() implies has_id(str_views(placed@), (#[trigger] av[k]).0) by {
                assert(removed@[k]);
            }
            lemma_order_ranks_arcs(av, str_views(placed@));
        }
        None
    } else {
        let closing = closing_arc(arcs, &placed, first_left, Ghost(removed@));
        proof {
            lemma_cycle_blocks_ranking(av, closing as int);
        }
        Some(closing)
    }
}

} // verus!
