//! When a dependency between days is met, when a new dependency would close
//! a cycle, and when an edit makes a new version of a day.

use vstd::prelude::*;
use crate::text::str_eq;

verus! {

/// A prerequisite is met by a best score at or above its minimum; any other
/// dependency does not block.
pub open spec fn spec_dependency_met(
    dependency_type: Seq<char>,
    best_score: Option<i32>,
    minimum_score: i32,
) -> bool {
    if dependency_type == "prerequisite"@ {
        match best_score {
            Some(score) => score >= minimum_score,
            None => false,
        }
    } else {
        true
    }
}

/// Whether a dependency is met, given the best score reached on the day it
/// points to, if that day was attempted.
pub fn dependency_met(dependency_type: &str, best_score: Option<i32>, minimum_score: i32) -> (r:
    bool)
    ensures
        r == spec_dependency_met(dependency_type@, best_score, minimum_score),
{
    if str_eq(dependency_type, "prerequisite") {
        match best_score {
            Some(score) => score >= minimum_score,
            None => false,
        }
    } else {
        true
    }
}

/// The version of a day after an edit: one more where the day is published
/// and its content changes, and the same otherwise. The version stays at the
/// greatest value once it is reached.
pub fn version_after_edit(version: i32, status: &str, content_changes: bool) -> (r: i32)
    ensures
        r == if status@ == "published"@ && content_changes && version < i32::MAX {
            version + 1
        } else {
            version as int
        },
{
    if str_eq(status, "published") && content_changes && version < i32::MAX {
        version + 1
    } else {
        version
    }
}

/// The dependencies of each day, as sequences.
pub open spec fn graph_of(deps: Seq<Vec<usize>>) -> Seq<Seq<usize>> {
    deps.map_values(|d: Vec<usize>| d@)
}

/// Day `u` depends on day `v` directly.
pub open spec fn depends_directly(graph: Seq<Seq<usize>>, u: int, v: int) -> bool {
    &&& 0 <= u < graph.len()
    &&& 0 <= v < graph.len()
    &&& exists|k: int| 0 <= k < graph[u].len() && #[trigger] graph[u][k] == v
}

/// `path` leads along dependencies from its first day to its last.
pub open spec fn is_chain(graph: Seq<Seq<usize>>, path: Seq<int>) -> bool {
    &&& path.len() > 0
    &&& 0 <= path[0] < graph.len()
    &&& forall|i: int|
        0 <= i < path.len() - 1 ==> depends_directly(graph, #[trigger] path[i], path[i + 1])
}

/// Day `from` depends on day `to`, directly or through other days, or is that
/// day.
pub open spec fn depends_transitively(graph: Seq<Seq<usize>>, from: int, to: int) -> bool {
    exists|path: Seq<int>| #[trigger] is_chain(graph, path) && path[0] == from && path.last() == to
}

/// The number of marks that are set.
pub open spec fn marks_set(marks: Seq<bool>) -> nat
    decreases marks.len(),
{
    if marks.len() == 0 {
        0
    } else {
        marks_set(marks.drop_last()) + if marks.last() {
            1nat
        } else {
            0nat
        }
    }
}

/// There are no more marks set than marks.
pub proof fn lemma_marks_set_bound(marks: Seq<bool>)
    ensures
        marks_set(marks) <= marks.len(),
    decreases marks.len(),
{
    if marks.len() > 0 {
        lemma_marks_set_bound(marks.drop_last());
    }
}

/// Setting a mark that was not set makes one more.
pub proof fn lemma_mark_one_more(marks: Seq<bool>, v: int)
    requires
        0 <= v < marks.len(),
        !marks[v],
    ensures
        marks_set(marks.update(v, true)) == marks_set(marks) + 1,
    decreases marks.len(),
{
    let after = marks.update(v, true);
    if v == marks.len() - 1 {
        assert(after.drop_last() =~= marks.drop_last());
    } else {
        lemma_mark_one_more(marks.drop_last(), v);
        assert(after.drop_last() =~= marks.drop_last().update(v, true));
    }
}

/// Every marked day can be reached from `from`.
pub open spec fn marks_sound(graph: Seq<Seq<usize>>, from: int, marks: Seq<bool>) -> bool {
    forall|v: int| 0 <= v < marks.len() && #[trigger] marks[v] ==> depends_transitively(graph, from, v)
}

/// The marked days below `upto` have all their dependencies marked.
pub open spec fn marks_closed(graph: Seq<Seq<usize>>, marks: Seq<bool>, upto: int) -> bool {
    forall|u: int, v: int|
        0 <= u < upto && marks[u] && #[trigger] depends_directly(graph, u, v) ==> marks[v]
}

/// A chain that starts at a marked day, where the marks are closed, runs over
/// marked days only.
pub proof fn lemma_chain_stays_marked(
    graph: Seq<Seq<usize>>,
    marks: Seq<bool>,
    path: Seq<int>,
    i: int,
)
    requires
        marks.len() == graph.len(),
        marks_closed(graph, marks, graph.len() as int),
        is_chain(graph, path),
        marks[path[0]],
        0 <= i < path.len(),
    ensures
        0 <= path[i] < graph.len(),
        marks[path[i]],
    decreases i,
{
    if i > 0 {
        lemma_chain_stays_marked(graph, marks, path, i - 1);
        assert(depends_directly(graph, path[i - 1], path[i]));
    }
}

/// A chain can be made one day longer along a direct dependency.
pub proof fn lemma_chain_extends(graph: Seq<Seq<usize>>, from: int, u: int, v: int)
    requires
        depends_transitively(graph, from, u),
        depends_directly(graph, u, v),
    ensures
        depends_transitively(graph, from, v),
{
    let path = choose|path: Seq<int>| #[trigger]
        is_chain(graph, path) && path[0] == from && path.last() == u;
    let longer = path.push(v);
    assert forall|i: int| 0 <= i < longer.len() - 1 implies depends_directly(
        graph,
        #[trigger] longer[i],
        longer[i + 1],
    ) by {
        if i < path.len() - 1 {
            assert(depends_directly(graph, path[i], path[i + 1]));
        }
    }
    assert(is_chain(graph, longer) && longer[0] == from && longer.last() == v);
}

/// Whether day `from` depends on day `to`, directly or through other days, or
/// is that day. `deps[d]` holds the days that day `d` depends on directly; an
/// entry that is not the position of a day counts for nothing.
pub fn reaches_day(deps: &Vec<Vec<usize>>, from: usize, to: usize) -> (r: bool)
    ensures
        r == depends_transitively(graph_of(deps@), from as int, to as int),
{
    let n = deps.len();
    let ghost graph = graph_of(deps@);
    if from >= n || to >= n {
        proof {
            if depends_transitively(graph, from as int, to as int) {
                let path = choose|path: Seq<int>| #[trigger]
                    is_chain(graph, path) && path[0] == from && path.last() == to;
                if path.len() > 1 {
                    assert(depends_directly(graph, path[path.len() - 2], path[path.len() - 1]));
                }
            }
        }
        return false;
    }
    let mut marks: Vec<bool> = Vec::new();
    let mut i: usize = 0;
    while i < n
        invariant
            i <= n,
            marks@.len() == i,
            forall|k: int| 0 <= k < i ==> !marks@[k],
            marks_set(marks@) == 0,
        decreases n - i,
    {
        let ghost before = marks@;
        marks.push(false);
        assert(marks@.drop_last() =~= before);
        i += 1;
    }
    marks.set(from, true);
    let mut set_count: usize = 1;
    proof {
        let before = marks@.update(from as int, false);
        assert forall|k: int| 0 <= k < n implies !#[trigger] before[k] by {}
        lemma_all_clear(before);
        lemma_mark_one_more(before, from as int);
        assert(before.update(from as int, true) =~= marks@);
        let start = seq![from as int];
        assert(is_chain(graph, start) && start[0] == from && start.last() == from);
    }
    loop
        invariant
            n == deps@.len(),
            graph == graph_of(deps@),
            from < n,
            to < n,
            marks@.len() == n,
            marks@[from as int],
            marks_sound(graph, from as int, marks@),
            set_count == marks_set(marks@),
        decreases n - set_count,
    {
        let mut changed = false;
        let ghost at_start = set_count;
        let mut u: usize = 0;
        while u < n
            invariant
                u <= n,
                n == deps@.len(),
                graph == graph_of(deps@),
                from < n,
                marks@.len() == n,
                marks@[from as int],
                marks_sound(graph, from as int, marks@),
                set_count == marks_set(marks@),
                at_start <= set_count,
                changed ==> at_start < set_count,
                !changed ==> marks_closed(graph, marks@, u as int),
            decreases n - u,
        {
            if marks[u] {
                let row = &deps[u];
                let mut k: usize = 0;
                while k < row.len()
                    invariant
                        k <= row@.len(),
                        u < n,
                        n == deps@.len(),
                        graph == graph_of(deps@),
                        row@ == graph[u as int],
                        from < n,
                        marks@.len() == n,
                        marks@[from as int],
                        marks@[u as int],
                        marks_sound(graph, from as int, marks@),
                        set_count == marks_set(marks@),
                        at_start <= set_count,
                        changed ==> at_start < set_count,
                        !changed ==> marks_closed(graph, marks@, u as int),
                        !changed ==> forall|j: int|
                            0 <= j < k && (#[trigger] row@[j] as int) < n ==> marks@[row@[j] as int],
                    decreases row@.len() - k,
                {
                    let v = row[k];
                    if v < n && !marks[v] {
                        proof {
                            assert(depends_directly(graph, u as int, v as int));
                            lemma_chain_extends(graph, from as int, u as int, v as int);
                            lemma_mark_one_more(marks@, v as int);
                            lemma_marks_set_bound(marks@.update(v as int, true));
                        }
                        marks.set(v, true);
                        set_count = set_count + 1;
                        changed = true;
                    }
                    k += 1;
                }
                proof {
                    if !changed {
                        assert forall|a: int, b: int|
                            0 <= a < u + 1 && marks@[a] && #[trigger] depends_directly(
                                graph,
                                a,
                                b,
                            ) implies marks@[b] by {
                            if a == u {
                                let j = choose|j: int|
                                    0 <= j < graph[a].len() && #[trigger] graph[a][j] == b;
                                assert((row@[j] as int) < n);
                            }
                        }
                    }
                }
            }
            u += 1;
        }
        if !changed {
            proof {
                if depends_transitively(graph, from as int, to as int) {
                    let path = choose|path: Seq<int>| #[trigger]
                        is_chain(graph, path) && path[0] == from && path.last() == to;
                    lemma_chain_stays_marked(graph, marks@, path, path.len() - 1);
                }
            }
            return marks[to];
        }
        proof {
            lemma_marks_set_bound(marks@);
        }
    }
}

/// Where no mark is set, none is counted.
pub proof fn lemma_all_clear(marks: Seq<bool>)
    requires
        forall|k: int| 0 <= k < marks.len() ==> !#[trigger] marks[k],
    ensures
        marks_set(marks) == 0,
    decreases marks.len(),
{
    if marks.len() > 0 {
        assert forall|k: int| 0 <= k < marks.drop_last().len() implies !#[trigger] marks.drop_last()[k] by {
            assert(marks.drop_last()[k] == marks[k]);
        }
        lemma_all_clear(marks.drop_last());
        assert(!marks[marks.len() - 1]);
    }
}

/// Whether making `day` depend on `depends_on` would close a cycle: it would
/// where `depends_on` already depends on `day`, through any number of days, or
/// is `day` itself.
pub fn would_close_cycle(deps: &Vec<Vec<usize>>, day: usize, depends_on: usize) -> (r: bool)
    ensures
        r == depends_transitively(graph_of(deps@), depends_on as int, day as int),
{
    reaches_day(deps, depends_on, day)
}

} // verus!
