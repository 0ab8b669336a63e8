//! The mathematics of the task forest: which nodes are visible under a set of
//! expanded ids, and what advancing the status of a node does to the forest.

use crate::models::{TaskView, forest_view, task_view, lemma_forest_view, Task};
use vstd::prelude::*;

verus! {

/// The rows that the tree under `task` contributes to the projection when
/// `task` itself stands at `depth`: the node, and after it the rows of its
/// children if and only if its id is expanded.
pub open spec fn visible_subtree(task: TaskView, depth: nat, expanded: Set<Seq<char>>) -> Seq<
    (TaskView, nat),
>
    decreases task,
{
    if expanded.contains(task.id) {
        seq![(task, depth)] + visible_forest(task.children, depth + 1, expanded)
    } else {
        seq![(task, depth)]
    }
}

/// The rows of a sequence of sibling trees standing at `depth`, in pre-order.
pub open spec fn visible_forest(tasks: Seq<TaskView>, depth: nat, expanded: Set<Seq<char>>) -> Seq<
    (TaskView, nat),
>
    decreases tasks,
{
    if tasks.len() == 0 {
        Seq::empty()
    } else {
        visible_forest(tasks.drop_last(), depth, expanded) + visible_subtree(
            tasks.last(),
            depth,
            expanded,
        )
    }
}

/// The projection of the first `n + 1` siblings is that of the first `n`
/// followed by the rows of sibling `n`.
pub proof fn lemma_visible_forest_step(
    tasks: Seq<TaskView>,
    n: int,
    depth: nat,
    expanded: Set<Seq<char>>,
)
    requires
        0 <= n < tasks.len(),
    ensures
        visible_forest(tasks.take(n + 1), depth, expanded) == visible_forest(
            tasks.take(n),
            depth,
            expanded,
        ) + visible_subtree(tasks[n], depth, expanded),
{
    assert(tasks.take(n + 1).drop_last() =~= tasks.take(n));
}

/// The value of the first `n` trees of a forest is the first `n` values of
/// the forest.
pub proof fn lemma_forest_view_take(tasks: Seq<Task>, n: int)
    requires
        0 <= n <= tasks.len(),
    ensures
        forest_view(tasks.take(n)) == forest_view(tasks).take(n),
{
    lemma_forest_view(tasks);
    lemma_forest_view(tasks.take(n));
    assert(forest_view(tasks.take(n)) =~= forest_view(tasks).take(n));
}

/// Some node of the tree under `task`, the root included, has the id `id`.
pub open spec fn contains_id(task: TaskView, id: Seq<char>) -> bool
    decreases task,
{
    task.id == id || forest_contains_id(task.children, id)
}

/// Some node of the forest has the id `id`.
pub open spec fn forest_contains_id(tasks: Seq<TaskView>, id: Seq<char>) -> bool
    decreases tasks,
{
    tasks.len() > 0 && (contains_id(tasks.first(), id) || forest_contains_id(
        tasks.drop_first(),
        id,
    ))
}

/// The tree under `task` after the status of the first node with id `id`, in
/// depth-first pre-order, has moved one step along its cycle. A tree without
/// such a node is returned as it is.
pub open spec fn advance_in_tree(task: TaskView, id: Seq<char>) -> TaskView
    decreases task,
{
    if task.id == id {
        TaskView { status: task.status.next(), ..task }
    } else {
        TaskView { children: advance_in_forest(task.children, id), ..task }
    }
}

/// The forest after the status of its first node with id `id`, in depth-first
/// pre-order from the first root, has moved one step along its cycle.
pub open spec fn advance_in_forest(tasks: Seq<TaskView>, id: Seq<char>) -> Seq<TaskView>
    decreases tasks,
{
    if tasks.len() == 0 {
        tasks
    } else if contains_id(tasks.first(), id) {
        seq![advance_in_tree(tasks.first(), id)] + tasks.drop_first()
    } else {
        seq![tasks.first()] + advance_in_forest(tasks.drop_first(), id)
    }
}

/// Advancing an id that a tree does not hold leaves the tree as it is.
pub proof fn lemma_advance_absent_in_tree(task: TaskView, id: Seq<char>)
    requires
        !contains_id(task, id),
    ensures
        advance_in_tree(task, id) == task,
    decreases task,
{
    lemma_advance_absent_in_forest(task.children, id);
}

/// Advancing an id that a forest does not hold leaves the forest as it is.
pub proof fn lemma_advance_absent_in_forest(tasks: Seq<TaskView>, id: Seq<char>)
    requires
        !forest_contains_id(tasks, id),
    ensures
        advance_in_forest(tasks, id) == tasks,
    decreases tasks,
{
    if tasks.len() > 0 {
        lemma_advance_absent_in_forest(tasks.drop_first(), id);
        assert(seq![tasks.first()] + tasks.drop_first() =~= tasks);
    }
}

/// A forest holds an id if and only if one of its trees does.
pub proof fn lemma_forest_contains_id(tasks: Seq<TaskView>, id: Seq<char>)
    ensures
        forest_contains_id(tasks, id) <==> exists|i: int|
            0 <= i < tasks.len() && contains_id(#[trigger] tasks[i], id),
    decreases tasks.len(),
{
    if tasks.len() > 0 {
        let rest = tasks.drop_first();
        lemma_forest_contains_id(rest, id);
        if forest_contains_id(tasks, id) {
            if contains_id(tasks.first(), id) {
                assert(contains_id(tasks[0], id));
            } else {
                let i = choose|i: int| 0 <= i < rest.len() && contains_id(#[trigger] rest[i], id);
                assert(contains_id(tasks[i + 1], id));
            }
        }
        if exists|i: int| 0 <= i < tasks.len() && contains_id(#[trigger] tasks[i], id) {
            let i = choose|i: int| 0 <= i < tasks.len() && contains_id(#[trigger] tasks[i], id);
            if i > 0 {
                assert(contains_id(rest[i - 1], id));
            }
        }
    }
}

/// Where tree `n` is the first of a forest to hold `id`, advancing `id` in
/// the forest advances it in tree `n` and touches no other tree.
pub proof fn lemma_advance_in_forest_at(tasks: Seq<TaskView>, id: Seq<char>, n: int)
    requires
        0 <= n < tasks.len(),
        forall|j: int| 0 <= j < n ==> !contains_id(#[trigger] tasks[j], id),
        contains_id(tasks[n], id),
    ensures
        advance_in_forest(tasks, id) == tasks.update(n, advance_in_tree(tasks[n], id)),
    decreases n,
{
    if n == 0 {
        assert(seq![advance_in_tree(tasks.first(), id)] + tasks.drop_first() =~= tasks.update(
            0,
            advance_in_tree(tasks[0], id),
        ));
    } else {
        let rest = tasks.drop_first();
        assert(!contains_id(tasks[0], id));
        assert forall|j: int| 0 <= j < n - 1 implies !contains_id(#[trigger] rest[j], id) by {
            assert(rest[j] == tasks[j + 1]);
        }
        lemma_advance_in_forest_at(rest, id, n - 1);
        assert(seq![tasks.first()] + rest.update(n - 1, advance_in_tree(rest[n - 1], id))
            =~= tasks.update(n, advance_in_tree(tasks[n], id)));
    }
}

/// Two trees have the same shape: the same id at the root and, child by
/// child, the same shape below.
pub open spec fn same_shape(a: TaskView, b: TaskView) -> bool
    decreases a,
{
    &&& a.id == b.id
    &&& a.children.len() == b.children.len()
    &&& forall|i: int|
        0 <= i < a.children.len() ==> same_shape(#[trigger] a.children[i], b.children[i])
}

/// Two forests have the same shape, tree by tree.
pub open spec fn forest_same_shape(a: Seq<TaskView>, b: Seq<TaskView>) -> bool {
    &&& a.len() == b.len()
    &&& forall|i: int| 0 <= i < a.len() ==> same_shape(#[trigger] a[i], b[i])
}

/// Every tree has the shape of itself.
pub proof fn lemma_same_shape_reflexive(a: TaskView)
    ensures
        same_shape(a, a),
    decreases a,
{
    assert forall|i: int| 0 <= i < a.children.len() implies same_shape(
        #[trigger] a.children[i],
        a.children[i],
    ) by {
        lemma_same_shape_reflexive(a.children[i]);
    }
}

/// Advancing a status changes no id and moves no node.
pub proof fn lemma_advance_keeps_shape(task: TaskView, id: Seq<char>)
    ensures
        same_shape(task, advance_in_tree(task, id)),
    decreases task,
{
    let after = advance_in_tree(task, id);
    if task.id == id {
        lemma_same_shape_reflexive(task);
        assert(same_shape(task, after));
    } else {
        lemma_advance_forest_keeps_shape(task.children, id);
    }
}

/// Advancing a status in a forest changes no id and moves no node.
pub proof fn lemma_advance_forest_keeps_shape(tasks: Seq<TaskView>, id: Seq<char>)
    ensures
        forest_same_shape(tasks, advance_in_forest(tasks, id)),
    decreases tasks,
{
    let after = advance_in_forest(tasks, id);
    if tasks.len() > 0 {
        let rest = tasks.drop_first();
        if contains_id(tasks.first(), id) {
            lemma_advance_keeps_shape(tasks.first(), id);
            assert forall|i: int| 0 <= i < tasks.len() implies same_shape(
                #[trigger] tasks[i],
                after[i],
            ) by {
                if i > 0 {
                    assert(after[i] == tasks[i]);
                    lemma_same_shape_reflexive(tasks[i]);
                }
            }
        } else {
            lemma_advance_forest_keeps_shape(rest, id);
            lemma_same_shape_reflexive(tasks.first());
            let rest_after = advance_in_forest(rest, id);
            assert forall|i: int| 0 <= i < tasks.len() implies same_shape(
                #[trigger] tasks[i],
                after[i],
            ) by {
                if i > 0 {
                    assert(tasks[i] == rest[i - 1]);
                    assert(after[i] == rest_after[i - 1]);
                }
            }
        }
    }
}

/// Trees of the same shape show the same rows: as many, at the same depths,
/// each of the shape of its counterpart.
pub proof fn lemma_same_shape_same_rows(
    a: TaskView,
    b: TaskView,
    depth: nat,
    expanded: Set<Seq<char>>,
)
    requires
        same_shape(a, b),
    ensures
        visible_subtree(a, depth, expanded).len() == visible_subtree(b, depth, expanded).len(),
        forall|i: int|
            0 <= i < visible_subtree(a, depth, expanded).len() ==> {
                &&& (#[trigger] visible_subtree(a, depth, expanded)[i]).1 == visible_subtree(
                    b,
                    depth,
                    expanded,
                )[i].1
                &&& same_shape(
                    visible_subtree(a, depth, expanded)[i].0,
                    visible_subtree(b, depth, expanded)[i].0,
                )
            },
    decreases a,
{
    if expanded.contains(a.id) {
        lemma_forest_same_shape_same_rows(a.children, b.children, depth + 1, expanded);
    }
}

/// Forests of the same shape show the same rows: as many, at the same depths,
/// each of the shape of its counterpart.
pub proof fn lemma_forest_same_shape_same_rows(
    a: Seq<TaskView>,
    b: Seq<TaskView>,
    depth: nat,
    expanded: Set<Seq<char>>,
)
    requires
        forest_same_shape(a, b),
    ensures
        visible_forest(a, depth, expanded).len() == visible_forest(b, depth, expanded).len(),
        forall|i: int|
            0 <= i < visible_forest(a, depth, expanded).len() ==> {
                &&& (#[trigger] visible_forest(a, depth, expanded)[i]).1 == visible_forest(
                    b,
                    depth,
                    expanded,
                )[i].1
                &&& same_shape(
                    visible_forest(a, depth, expanded)[i].0,
                    visible_forest(b, depth, expanded)[i].0,
                )
            },
    decreases a,
{
    if a.len() > 0 {
        assert(forest_same_shape(a.drop_last(), b.drop_last())) by {
            assert forall|i: int| 0 <= i < a.drop_last().len() implies same_shape(
                #[trigger] a.drop_last()[i],
                b.drop_last()[i],
            ) by {
                assert(same_shape(a[i], b[i]));
            }
        }
        assert(same_shape(a[a.len() - 1], b[a.len() - 1]));
        lemma_forest_same_shape_same_rows(a.drop_last(), b.drop_last(), depth, expanded);
        lemma_same_shape_same_rows(a.last(), b.last(), depth, expanded);
    }
}

/// The number of nodes of the tree under `task`, the root included, that
/// have the id `id`.
pub open spec fn tree_occurrences(task: TaskView, id: Seq<char>) -> nat
    decreases task,
{
    let here: nat = if task.id == id {
        1
    } else {
        0
    };
    here + forest_occurrences(task.children, id)
}

/// The number of nodes of the forest that have the id `id`.
pub open spec fn forest_occurrences(tasks: Seq<TaskView>, id: Seq<char>) -> nat
    decreases tasks,
{
    if tasks.len() == 0 {
        0
    } else {
        forest_occurrences(tasks.drop_last(), id) + tree_occurrences(tasks.last(), id)
    }
}

/// The rows that a row has below it: those of the children of its node,
/// where the id of the node is expanded.
pub open spec fn rows_below(row: (TaskView, nat), expanded: Set<Seq<char>>) -> Seq<(TaskView, nat)> {
    if expanded.contains(row.0.id) {
        visible_forest(row.0.children, row.1 + 1, expanded)
    } else {
        Seq::empty()
    }
}

/// A forest shows at least its roots.
pub proof fn lemma_forest_shows_its_roots(
    tasks: Seq<TaskView>,
    depth: nat,
    expanded: Set<Seq<char>>,
)
    ensures
        visible_forest(tasks, depth, expanded).len() >= tasks.len(),
    decreases tasks,
{
    if tasks.len() > 0 {
        lemma_forest_shows_its_roots(tasks.drop_last(), depth, expanded);
        assert(visible_subtree(tasks.last(), depth, expanded)[0] == (tasks.last(), depth));
    }
}

/// The id of a row of a tree is the id of a node of that tree.
pub proof fn lemma_row_id_occurs_in_tree(
    task: TaskView,
    depth: nat,
    expanded: Set<Seq<char>>,
    j: int,
)
    requires
        0 <= j < visible_subtree(task, depth, expanded).len(),
    ensures
        tree_occurrences(task, visible_subtree(task, depth, expanded)[j].0.id) >= 1,
    decreases task,
{
    if j > 0 {
        lemma_row_id_occurs_in_forest(task.children, depth + 1, expanded, j - 1);
    }
}

/// The id of a row of a forest is the id of a node of that forest.
pub proof fn lemma_row_id_occurs_in_forest(
    tasks: Seq<TaskView>,
    depth: nat,
    expanded: Set<Seq<char>>,
    i: int,
)
    requires
        0 <= i < visible_forest(tasks, depth, expanded).len(),
    ensures
        forest_occurrences(tasks, visible_forest(tasks, depth, expanded)[i].0.id) >= 1,
    decreases tasks,
{
    let before = visible_forest(tasks.drop_last(), depth, expanded).len();
    if i < before {
        lemma_row_id_occurs_in_forest(tasks.drop_last(), depth, expanded, i);
    } else {
        lemma_row_id_occurs_in_tree(tasks.last(), depth, expanded, i - before);
    }
}

/// Taking an id that a tree does not hold out of the expanded ids changes
/// no row of the tree.
pub proof fn lemma_absent_id_keeps_tree_rows(
    task: TaskView,
    depth: nat,
    expanded: Set<Seq<char>>,
    id: Seq<char>,
)
    requires
        tree_occurrences(task, id) == 0,
    ensures
        visible_subtree(task, depth, expanded.remove(id)) == visible_subtree(task, depth, expanded),
    decreases task,
{
    lemma_absent_id_keeps_forest_rows(task.children, depth + 1, expanded, id);
}

/// Taking an id that a forest does not hold out of the expanded ids changes
/// no row of the forest.
pub proof fn lemma_absent_id_keeps_forest_rows(
    tasks: Seq<TaskView>,
    depth: nat,
    expanded: Set<Seq<char>>,
    id: Seq<char>,
)
    requires
        forest_occurrences(tasks, id) == 0,
    ensures
        visible_forest(tasks, depth, expanded.remove(id)) == visible_forest(tasks, depth, expanded),
    decreases tasks,
{
    if tasks.len() > 0 {
        lemma_absent_id_keeps_forest_rows(tasks.drop_last(), depth, expanded, id);
        lemma_absent_id_keeps_tree_rows(tasks.last(), depth, expanded, id);
    }
}

/// Collapsing the node of row `j` of a tree, where no other node of the tree
/// has its id, takes away the rows below that row and no other: the rows up
/// to `j` stay, and the rows after the ones below close up.
pub proof fn lemma_collapse_in_tree(task: TaskView, depth: nat, expanded: Set<Seq<char>>, j: int)
    requires
        0 <= j < visible_subtree(task, depth, expanded).len(),
        tree_occurrences(task, visible_subtree(task, depth, expanded)[j].0.id) == 1,
    ensures
        ({
            let rows = visible_subtree(task, depth, expanded);
            let below = rows_below(rows[j], expanded);
            &&& j + 1 + below.len() <= rows.len()
            &&& rows.subrange(j + 1, j + 1 + below.len()) == below
            &&& visible_subtree(task, depth, expanded.remove(rows[j].0.id)) == rows.take(j + 1)
                + rows.skip(j + 1 + below.len())
        }),
    decreases task,
{
    let rows = visible_subtree(task, depth, expanded);
    let id = rows[j].0.id;
    let below = rows_below(rows[j], expanded);
    let after = visible_subtree(task, depth, expanded.remove(id));
    if j == 0 {
        assert(rows =~= seq![(task, depth)] + below);
        assert(rows.subrange(1, 1 + below.len() as int) =~= below);
        assert(after =~= rows.take(1) + rows.skip(1 + below.len() as int));
    } else {
        let shown = visible_forest(task.children, depth + 1, expanded);
        assert(rows == seq![(task, depth)] + shown);
        assert(rows[j] == shown[j - 1]);
        lemma_row_id_occurs_in_forest(task.children, depth + 1, expanded, j - 1);
        lemma_collapse_in_forest(task.children, depth + 1, expanded, j - 1);
        let shown_after = visible_forest(task.children, depth + 1, expanded.remove(id));
        assert(after == seq![(task, depth)] + shown_after);
        assert(rows.subrange(j + 1, j + 1 + below.len()) =~= shown.subrange(
            j,
            j + below.len(),
        ));
        assert(rows.take(j + 1) =~= seq![(task, depth)] + shown.take(j));
        assert(rows.skip(j + 1 + below.len()) =~= shown.skip(j + below.len()));
        assert(after =~= rows.take(j + 1) + rows.skip(j + 1 + below.len()));
    }
}

/// Collapsing the node of row `i` of a forest, where no other node of the
/// forest has its id, takes away the rows below that row and no other: the
/// rows up to `i` stay, and the rows after the ones below close up.
pub proof fn lemma_collapse_in_forest(
    tasks: Seq<TaskView>,
    depth: nat,
    expanded: Set<Seq<char>>,
    i: int,
)
    requires
        0 <= i < visible_forest(tasks, depth, expanded).len(),
        forest_occurrences(tasks, visible_forest(tasks, depth, expanded)[i].0.id) == 1,
    ensures
        ({
            let rows = visible_forest(tasks, depth, expanded);
            let below = rows_below(rows[i], expanded);
            &&& i + 1 + below.len() <= rows.len()
            &&& rows.subrange(i + 1, i + 1 + below.len()) == below
            &&& visible_forest(tasks, depth, expanded.remove(rows[i].0.id)) == rows.take(i + 1)
                + rows.skip(i + 1 + below.len())
        }),
    decreases tasks,
{
    let rows = visible_forest(tasks, depth, expanded);
    let id = rows[i].0.id;
    let below = rows_below(rows[i], expanded);
    let rest = tasks.drop_last();
    let last = tasks.last();
    let first = visible_forest(rest, depth, expanded);
    let second = visible_subtree(last, depth, expanded);
    let first_after = visible_forest(rest, depth, expanded.remove(id));
    let second_after = visible_subtree(last, depth, expanded.remove(id));
    assert(rows == first + second);
    assert(visible_forest(tasks, depth, expanded.remove(id)) == first_after + second_after);
    if i < first.len() {
        lemma_row_id_occurs_in_forest(rest, depth, expanded, i);
        lemma_absent_id_keeps_tree_rows(last, depth, expanded, id);
        lemma_collapse_in_forest(rest, depth, expanded, i);
        assert(rows.subrange(i + 1, i + 1 + below.len()) =~= first.subrange(
            i + 1,
            i + 1 + below.len(),
        ));
        assert(rows.take(i + 1) =~= first.take(i + 1));
        assert(rows.skip(i + 1 + below.len()) =~= first.skip(i + 1 + below.len()) + second);
        assert(first_after + second_after =~= rows.take(i + 1) + rows.skip(i + 1 + below.len()));
    } else {
        let j = i - first.len();
        assert(rows[i] == second[j]);
        lemma_row_id_occurs_in_tree(last, depth, expanded, j);
        lemma_absent_id_keeps_forest_rows(rest, depth, expanded, id);
        lemma_collapse_in_tree(last, depth, expanded, j);
        assert(rows.subrange(i + 1, i + 1 + below.len()) =~= second.subrange(
            j + 1,
            j + 1 + below.len(),
        ));
        assert(rows.take(i + 1) =~= first + second.take(j + 1));
        assert(rows.skip(i + 1 + below.len()) =~= second.skip(j + 1 + below.len()));
        assert(first_after + second_after =~= rows.take(i + 1) + rows.skip(i + 1 + below.len()));
    }
}

} // verus!
