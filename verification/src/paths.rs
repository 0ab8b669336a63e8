//! Positions in the task forest. A path names a node by the index of a root,
//! then of a child of that root, and so on down. Every row of the projection
//! has the path of the node it shows; the lemmas here say which paths those
//! are.

use crate::models::TaskView;
use crate::tree::{visible_forest, visible_subtree};
use vstd::prelude::*;

verus! {

/// `path` names a node of `forest`.
pub open spec fn is_path(forest: Seq<TaskView>, path: Seq<int>) -> bool
    decreases path.len(),
{
    &&& path.len() > 0
    &&& 0 <= path.first() < forest.len()
    &&& (path.len() > 1 ==> is_path(forest[path.first()].children, path.drop_first()))
}

/// The node of `forest` that `path` names.
pub open spec fn node_at(forest: Seq<TaskView>, path: Seq<int>) -> TaskView
    recommends
        is_path(forest, path),
    decreases path.len(),
{
    if path.len() <= 1 {
        forest[path.first()]
    } else {
        node_at(forest[path.first()].children, path.drop_first())
    }
}

/// `short` names a node strictly above the node that `long` names.
pub open spec fn is_proper_prefix(short: Seq<int>, long: Seq<int>) -> bool {
    short.len() < long.len() && long.take(short.len() as int) == short
}

/// Every node strictly above the node at `path` has its id expanded.
pub open spec fn ancestors_expanded(
    forest: Seq<TaskView>,
    path: Seq<int>,
    expanded: Set<Seq<char>>,
) -> bool
    decreases path.len(),
{
    path.len() > 1 ==> {
        &&& expanded.contains(forest[path.first()].id)
        &&& ancestors_expanded(forest[path.first()].children, path.drop_first(), expanded)
    }
}

/// The number of nodes strictly above the node at `path` whose id is
/// expanded.
pub open spec fn expanded_ancestors(
    forest: Seq<TaskView>,
    path: Seq<int>,
    expanded: Set<Seq<char>>,
) -> nat
    decreases path.len(),
{
    if path.len() <= 1 {
        0
    } else {
        let above: nat = if expanded.contains(forest[path.first()].id) {
            1
        } else {
            0
        };
        above + expanded_ancestors(forest[path.first()].children, path.drop_first(), expanded)
    }
}

/// The path of the node that row `i` of the projection of `forest` shows.
pub open spec fn row_path(forest: Seq<TaskView>, expanded: Set<Seq<char>>, i: int) -> Seq<int>
    recommends
        0 <= i < visible_forest(forest, 0, expanded).len(),
    decreases forest,
{
    if forest.len() == 0 {
        Seq::empty()
    } else {
        let before = visible_forest(forest.drop_last(), 0, expanded).len() as int;
        if i < before {
            row_path(forest.drop_last(), expanded, i)
        } else if i == before {
            seq![forest.len() - 1]
        } else {
            seq![forest.len() - 1] + row_path(forest.last().children, expanded, i - before - 1)
        }
    }
}

/// Depths are relative: a tree shown from another depth shows the same
/// nodes, every depth shifted alike.
pub proof fn lemma_subtree_depth_shift(
    task: TaskView,
    d1: nat,
    d2: nat,
    expanded: Set<Seq<char>>,
)
    ensures
        visible_subtree(task, d1, expanded).len() == visible_subtree(task, d2, expanded).len(),
        forall|i: int|
            0 <= i < visible_subtree(task, d1, expanded).len() ==> {
                &&& (#[trigger] visible_subtree(task, d1, expanded)[i]).0 == visible_subtree(
                    task,
                    d2,
                    expanded,
                )[i].0
                &&& visible_subtree(task, d1, expanded)[i].1 - d1 == visible_subtree(
                    task,
                    d2,
                    expanded,
                )[i].1 - d2
            },
    decreases task,
{
    if expanded.contains(task.id) {
        lemma_forest_depth_shift(task.children, d1 + 1, d2 + 1, expanded);
    }
}

/// Depths are relative: a forest shown from another depth shows the same
/// nodes, every depth shifted alike.
pub proof fn lemma_forest_depth_shift(
    forest: Seq<TaskView>,
    d1: nat,
    d2: nat,
    expanded: Set<Seq<char>>,
)
    ensures
        visible_forest(forest, d1, expanded).len() == visible_forest(forest, d2, expanded).len(),
        forall|i: int|
            0 <= i < visible_forest(forest, d1, expanded).len() ==> {
                &&& (#[trigger] visible_forest(forest, d1, expanded)[i]).0 == visible_forest(
                    forest,
                    d2,
                    expanded,
                )[i].0
                &&& visible_forest(forest, d1, expanded)[i].1 - d1 == visible_forest(
                    forest,
                    d2,
                    expanded,
                )[i].1 - d2
            },
    decreases forest,
{
    if forest.len() > 0 {
        lemma_forest_depth_shift(forest.drop_last(), d1, d2, expanded);
        lemma_subtree_depth_shift(forest.last(), d1, d2, expanded);
    }
}

/// Row `i` of the projection shows the node at its path, at the depth that
/// is the number of nodes above it, and every node above it is expanded.
pub proof fn lemma_row_shows_node_at_path(
    forest: Seq<TaskView>,
    depth: nat,
    expanded: Set<Seq<char>>,
    i: int,
)
    requires
        0 <= i < visible_forest(forest, depth, expanded).len(),
    ensures
        is_path(forest, row_path(forest, expanded, i)),
        visible_forest(forest, depth, expanded)[i] == (
            node_at(forest, row_path(forest, expanded, i)),
            (depth + row_path(forest, expanded, i).len() - 1) as nat,
        ),
        ancestors_expanded(forest, row_path(forest, expanded, i), expanded),
    decreases forest,
{
    let rest = forest.drop_last();
    let last = forest.last();
    let before = visible_forest(rest, 0, expanded).len() as int;
    lemma_forest_depth_shift(rest, 0, depth, expanded);
    let path = row_path(forest, expanded, i);
    let rows = visible_forest(forest, depth, expanded);
    let shown = visible_subtree(last, depth, expanded);
    assert(rows == visible_forest(rest, depth, expanded) + shown);
    if i < before {
        lemma_row_shows_node_at_path(rest, depth, expanded, i);
        assert(rest[path.first()] == forest[path.first()]);
    } else if i == before {
        assert(path.first() == forest.len() - 1);
    } else {
        let below = row_path(last.children, expanded, i - before - 1);
        assert(rows[i] == shown[i - before]);
        assert(expanded.contains(last.id));
        assert(shown == seq![(last, depth)] + visible_forest(last.children, depth + 1, expanded));
        lemma_row_shows_node_at_path(last.children, depth + 1, expanded, i - before - 1);
        assert(path.drop_first() =~= below);
        assert(path.first() == forest.len() - 1);
    }
}

/// Where every node above a node is expanded, the expanded nodes above it
/// are as many as the nodes above it.
pub proof fn lemma_expanded_ancestors_count(
    forest: Seq<TaskView>,
    path: Seq<int>,
    expanded: Set<Seq<char>>,
)
    requires
        path.len() > 0,
        ancestors_expanded(forest, path, expanded),
    ensures
        expanded_ancestors(forest, path, expanded) == path.len() - 1,
    decreases path.len(),
{
    if path.len() > 1 {
        lemma_expanded_ancestors_count(forest[path.first()].children, path.drop_first(), expanded);
    }
}

/// The depth of a row is the number of expanded nodes strictly above the
/// node it shows, on the way down from its root.
pub proof fn lemma_depth_counts_expanded_ancestors(
    forest: Seq<TaskView>,
    expanded: Set<Seq<char>>,
    i: int,
)
    requires
        0 <= i < visible_forest(forest, 0, expanded).len(),
    ensures
        visible_forest(forest, 0, expanded)[i].0 == node_at(forest, row_path(forest, expanded, i)),
        visible_forest(forest, 0, expanded)[i].1 == expanded_ancestors(
            forest,
            row_path(forest, expanded, i),
            expanded,
        ),
{
    lemma_row_shows_node_at_path(forest, 0, expanded, i);
    lemma_expanded_ancestors_count(forest, row_path(forest, expanded, i), expanded);
}

/// Where every node above the node at `path` is expanded, so is each node
/// that a proper prefix of `path` names.
pub proof fn lemma_prefix_is_expanded(
    forest: Seq<TaskView>,
    path: Seq<int>,
    expanded: Set<Seq<char>>,
    k: int,
)
    requires
        ancestors_expanded(forest, path, expanded),
        1 <= k < path.len(),
    ensures
        expanded.contains(node_at(forest, path.take(k)).id),
    decreases k,
{
    let prefix = path.take(k);
    assert(prefix.first() == path.first());
    if k > 1 {
        lemma_prefix_is_expanded(forest[path.first()].children, path.drop_first(), expanded, k - 1);
        assert(prefix.drop_first() =~= path.drop_first().take(k - 1));
    }
}

/// A node whose id is not expanded hides everything below it: no row of the
/// projection shows a node strictly below it, whatever ids are expanded
/// down there.
pub proof fn lemma_collapsed_node_hides_descendants(
    forest: Seq<TaskView>,
    expanded: Set<Seq<char>>,
    node: Seq<int>,
    i: int,
)
    requires
        is_path(forest, node),
        !expanded.contains(node_at(forest, node).id),
        0 <= i < visible_forest(forest, 0, expanded).len(),
    ensures
        !is_proper_prefix(node, row_path(forest, expanded, i)),
{
    let path = row_path(forest, expanded, i);
    lemma_row_shows_node_at_path(forest, 0, expanded, i);
    if is_proper_prefix(node, path) {
        lemma_prefix_is_expanded(forest, path, expanded, node.len() as int);
    }
}

/// The index of the row that shows the node at `path`, where it is shown.
pub open spec fn row_of_path(forest: Seq<TaskView>, expanded: Set<Seq<char>>, path: Seq<int>) -> int
    recommends
        is_path(forest, path),
        ancestors_expanded(forest, path, expanded),
    decreases path.len(),
{
    let before = visible_forest(forest.take(path.first()), 0, expanded).len() as int;
    if path.len() <= 1 {
        before
    } else {
        before + 1 + row_of_path(forest[path.first()].children, expanded, path.drop_first())
    }
}

/// Every node whose ancestors are all expanded is shown: the row at its
/// index shows it.
pub proof fn lemma_shown_node_has_row(
    forest: Seq<TaskView>,
    expanded: Set<Seq<char>>,
    path: Seq<int>,
)
    requires
        is_path(forest, path),
        ancestors_expanded(forest, path, expanded),
    ensures
        0 <= row_of_path(forest, expanded, path) < visible_forest(forest, 0, expanded).len(),
        row_path(forest, expanded, row_of_path(forest, expanded, path)) == path,
    decreases forest,
{
    let rest = forest.drop_last();
    let last = forest.last();
    let k = path.first();
    let row = row_of_path(forest, expanded, path);
    let before = visible_forest(rest, 0, expanded).len() as int;
    assert(visible_forest(forest, 0, expanded) == visible_forest(rest, 0, expanded)
        + visible_subtree(last, 0, expanded));
    if k == forest.len() - 1 {
        assert(forest.take(k) =~= rest);
        if path.len() > 1 {
            lemma_shown_node_has_row(last.children, expanded, path.drop_first());
            lemma_forest_depth_shift(last.children, 0, 1, expanded);
            assert(seq![k] + path.drop_first() =~= path);
        } else {
            assert(seq![k] =~= path);
        }
    } else {
        assert(rest.take(k) =~= forest.take(k));
        assert(rest[k] == forest[k]);
        lemma_shown_node_has_row(rest, expanded, path);
    }
}

/// No node is shown twice: the node that row `i` shows has its row at `i`
/// and nowhere else.
pub proof fn lemma_row_of_shown_path(forest: Seq<TaskView>, expanded: Set<Seq<char>>, i: int)
    requires
        0 <= i < visible_forest(forest, 0, expanded).len(),
    ensures
        row_of_path(forest, expanded, row_path(forest, expanded, i)) == i,
    decreases forest,
{
    let rest = forest.drop_last();
    let last = forest.last();
    let path = row_path(forest, expanded, i);
    let before = visible_forest(rest, 0, expanded).len() as int;
    let shown = visible_subtree(last, 0, expanded);
    assert(visible_forest(forest, 0, expanded) == visible_forest(rest, 0, expanded) + shown);
    if i < before {
        lemma_row_of_shown_path(rest, expanded, i);
        lemma_row_shows_node_at_path(rest, 0, expanded, i);
        let k = path.first();
        assert(rest.take(k) =~= forest.take(k));
        assert(rest[k] == forest[k]);
    } else if i == before {
        assert(forest.take(forest.len() - 1) =~= rest);
    } else {
        assert(expanded.contains(last.id));
        assert(shown == seq![(last, 0nat)] + visible_forest(last.children, 1, expanded));
        lemma_forest_depth_shift(last.children, 0, 1, expanded);
        lemma_row_of_shown_path(last.children, expanded, i - before - 1);
        lemma_row_shows_node_at_path(last.children, 0, expanded, i - before - 1);
        assert(forest.take(forest.len() - 1) =~= rest);
        assert(path.drop_first() =~= row_path(last.children, expanded, i - before - 1));
        assert(path.first() == forest.len() - 1);
    }
}

/// Two rows show two nodes.
pub proof fn lemma_rows_show_distinct_nodes(
    forest: Seq<TaskView>,
    expanded: Set<Seq<char>>,
    i: int,
    j: int,
)
    requires
        0 <= i < visible_forest(forest, 0, expanded).len(),
        0 <= j < visible_forest(forest, 0, expanded).len(),
        i != j,
    ensures
        row_path(forest, expanded, i) != row_path(forest, expanded, j),
{
    lemma_row_of_shown_path(forest, expanded, i);
    lemma_row_of_shown_path(forest, expanded, j);
}

} // verus!
