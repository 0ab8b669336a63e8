//! What the screen shows of the state: the entries of the navigation bar and
//! the lines of the task list. Drawing them is left to the caller.

use crate::app::{App, ViewMode, rows_view};
use crate::models::{Task, TaskView};
use vstd::prelude::*;
use vstd::string::StringExecFns;

verus! {

/// Whether a row can be opened further.
#[derive(Debug, Clone, Copy, PartialEq, Eq, Structural)]
pub enum RowMarker {
    /// The task's children are listed below it.
    Expanded,
    /// The task has children that are not listed.
    Collapsed,
    /// The task reports no children.
    Leaf,
}

/// The marker of a task under the expanded ids. Whether a task has children
/// is taken from what the task reports of itself.
pub open spec fn marker_of(task: TaskView, expanded: Set<Seq<char>>) -> RowMarker {
    if !task.has_children {
        RowMarker::Leaf
    } else if expanded.contains(task.id) {
        RowMarker::Expanded
    } else {
        RowMarker::Collapsed
    }
}

/// `n` blanks.
pub open spec fn blanks(n: nat) -> Seq<char> {
    Seq::new(n, |i: int| ' ')
}

impl RowMarker {
    /// The two columns that show the marker.
    pub open spec fn spec_glyph(&self) -> Seq<char> {
        match self {
            RowMarker::Expanded => "▼ "@,
            RowMarker::Collapsed => "▶ "@,
            RowMarker::Leaf => "  "@,
        }
    }

    /// The two columns that show the marker.
    pub fn glyph(&self) -> (r: &'static str)
        ensures
            r@ == self.spec_glyph(),
    {
        match self {
            RowMarker::Expanded => "▼ ",
            RowMarker::Collapsed => "▶ ",
            RowMarker::Leaf => "  ",
        }
    }
}

/// The two columns in front of a row: a pointer on the selected row.
pub open spec fn pointer(selected: bool) -> Seq<char> {
    if selected {
        "► "@
    } else {
        "  "@
    }
}

/// The line of a row: pointer, two blanks for each level of depth, marker,
/// status glyph, a blank and the title.
pub open spec fn row_text(
    task: TaskView,
    depth: nat,
    selected: bool,
    expanded: Set<Seq<char>>,
) -> Seq<char> {
    pointer(selected) + blanks(2 * depth) + marker_of(task, expanded).spec_glyph()
        + task.status.spec_icon() + " "@ + task.title
}

/// The entries of the navigation bar, left to right.
pub open spec fn nav_order() -> Seq<ViewMode> {
    seq![
        ViewMode::Today,
        ViewMode::ThisWeek,
        ViewMode::ThisMonth,
        ViewMode::ThisQuarter,
        ViewMode::ThisYear,
        ViewMode::ExecutionStats,
        ViewMode::CustomTime,
        ViewMode::GlobalTree,
    ]
}

/// The marker of `task` under the expanded ids of `app`.
pub fn row_marker(app: &App, task: &Task) -> (r: RowMarker)
    ensures
        r == marker_of(task@, app.expanded_tasks@),
{
    if !task.has_children {
        RowMarker::Leaf
    } else if app.expanded_tasks.contains(task.id.as_str()) {
        RowMarker::Expanded
    } else {
        RowMarker::Collapsed
    }
}

/// The line of the row that shows `task` at `depth`.
pub fn row_line(app: &App, task: &Task, depth: usize, selected: bool) -> (line: String)
    ensures
        line@ == row_text(task@, depth as nat, selected, app.expanded_tasks@),
{
    let mut line = if selected {
        String::from_str("► ")
    } else {
        String::from_str("  ")
    };
    let mut level: usize = 0;
    assert(line@ =~= pointer(selected) + blanks(0));
    while level < depth
        invariant
            level <= depth,
            line@ == pointer(selected) + blanks(2 * level as nat),
        decreases depth - level,
    {
        proof {
            reveal_strlit("  ");
            assert(blanks(2 * level as nat) + "  "@ =~= blanks(2 * (level + 1) as nat));
        }
        line.append("  ");
        level += 1;
        assert(line@ =~= pointer(selected) + blanks(2 * level as nat));
    }
    line.append(row_marker(app, task).glyph());
    line.append(task.status.icon());
    line.append(" ");
    line.append(task.title.as_str());
    line
}

/// The lines of the task list, top to bottom: one for each row of the
/// projection, the pointer on the row under the cursor.
pub fn task_lines(app: &App) -> (lines: Vec<String>)
    ensures
        lines@.len() == app.projection().len(),
        forall|i: int|
            0 <= i < lines@.len() ==> (#[trigger] lines@[i])@ == row_text(
                app.projection()[i].0,
                app.projection()[i].1,
                i == app.selected_task_index,
                app.expanded_tasks@,
            ),
{
    let rows = app.get_visible_tasks();
    let mut lines: Vec<String> = Vec::new();
    let mut i: usize = 0;
    assert(rows_view(rows@).len() == rows@.len());
    while i < rows.len()
        invariant
            i <= rows.len(),
            rows_view(rows@) == app.projection(),
            rows@.len() == app.projection().len(),
            lines@.len() == i,
            forall|j: int|
                0 <= j < i ==> (#[trigger] lines@[j])@ == row_text(
                    app.projection()[j].0,
                    app.projection()[j].1,
                    j == app.selected_task_index,
                    app.expanded_tasks@,
                ),
        decreases rows.len() - i,
    {
        let row = rows[i];
        assert(rows_view(rows@)[i as int] == (row.0@, row.1 as nat));
        let line = row_line(app, row.0, row.1, i == app.selected_task_index);
        lines.push(line);
        i += 1;
    }
    lines
}

/// The entries of the navigation bar, left to right: the label of each mode
/// and whether it is the mode in view.
pub fn nav_bar(app: &App) -> (bar: Vec<(&'static str, bool)>)
    ensures
        bar@.len() == nav_order().len(),
        forall|i: int|
            0 <= i < bar@.len() ==> (#[trigger] bar@[i]).0@ == nav_order()[i].spec_tab() && bar@[i].1
                == (app.view_mode == nav_order()[i]),
{
    let current = app.view_mode;
    let mut bar: Vec<(&'static str, bool)> = Vec::new();
    bar.push((ViewMode::Today.tab(), current == ViewMode::Today));
    bar.push((ViewMode::ThisWeek.tab(), current == ViewMode::ThisWeek));
    bar.push((ViewMode::ThisMonth.tab(), current == ViewMode::ThisMonth));
    bar.push((ViewMode::ThisQuarter.tab(), current == ViewMode::ThisQuarter));
    bar.push((ViewMode::ThisYear.tab(), current == ViewMode::ThisYear));
    bar.push((ViewMode::ExecutionStats.tab(), current == ViewMode::ExecutionStats));
    bar.push((ViewMode::CustomTime.tab(), current == ViewMode::CustomTime));
    bar.push((ViewMode::GlobalTree.tab(), current == ViewMode::GlobalTree));
    bar
}

/// The share of the screen, in percent, left free on either side of a popup
/// that takes `percent` of it.
pub fn popup_margin(percent: u16) -> (r: u16)
    requires
        percent <= 100,
    ensures
        r == (100 - percent) / 2,
{
    (100 - percent) / 2
}

} // verus!
