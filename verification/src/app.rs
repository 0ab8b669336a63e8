//! The state of the dashboard and the operations that the keyboard drives:
//! the projection of the task forest, the selection cursor, the view modes
//! and the bookkeeping around a load of the forest.

use crate::api::{ApiClient, ApiError, error_text};
use crate::models::{Task, TaskView, forest_view, lemma_forest_view};
use crate::session::Session;
use crate::tree::{
    advance_in_forest, advance_in_tree, contains_id, forest_contains_id, lemma_advance_absent_in_forest,
    lemma_advance_absent_in_tree, lemma_advance_forest_keeps_shape, lemma_advance_in_forest_at,
    forest_occurrences, lemma_collapse_in_forest, lemma_forest_contains_id,
    lemma_forest_same_shape_same_rows, lemma_forest_shows_its_roots, lemma_forest_view_take,
    lemma_visible_forest_step, rows_below, visible_forest, visible_subtree,
};
use vstd::string::StringExecFns;
use vstd::hash_set::StringHashSet;
use vstd::prelude::*;

verus! {

/// What the main area of the screen shows.
#[derive(Debug, Clone, Copy, PartialEq, Eq, Structural)]
pub enum ViewMode {
    Today,
    ThisWeek,
    ThisMonth,
    ThisQuarter,
    ThisYear,
    ExecutionStats,
    CustomTime,
    GlobalTree,
}

/// Whether keys navigate or edit.
#[derive(Debug, Clone, Copy, PartialEq, Eq, Structural)]
pub enum InputMode {
    Normal,
    EditingTaskName,
}

impl ViewMode {
    /// The mode that the view key leads to from `self`: the next of the ring
    /// Today, ThisWeek, ThisMonth, ThisQuarter, ThisYear, ExecutionStats,
    /// CustomTime, GlobalTree, Today.
    pub open spec fn spec_next(&self) -> ViewMode {
        match self {
            ViewMode::Today => ViewMode::ThisWeek,
            ViewMode::ThisWeek => ViewMode::ThisMonth,
            ViewMode::ThisMonth => ViewMode::ThisQuarter,
            ViewMode::ThisQuarter => ViewMode::ThisYear,
            ViewMode::ThisYear => ViewMode::ExecutionStats,
            ViewMode::ExecutionStats => ViewMode::CustomTime,
            ViewMode::CustomTime => ViewMode::GlobalTree,
            ViewMode::GlobalTree => ViewMode::Today,
        }
    }

    /// The mode that the view key leads to from `self`.
    #[verifier::when_used_as_spec(spec_next)]
    pub fn next(&self) -> (r: ViewMode)
        ensures
            r == self.spec_next(),
    {
        match self {
            ViewMode::Today => ViewMode::ThisWeek,
            ViewMode::ThisWeek => ViewMode::ThisMonth,
            ViewMode::ThisMonth => ViewMode::ThisQuarter,
            ViewMode::ThisQuarter => ViewMode::ThisYear,
            ViewMode::ThisYear => ViewMode::ExecutionStats,
            ViewMode::ExecutionStats => ViewMode::CustomTime,
            ViewMode::CustomTime => ViewMode::GlobalTree,
            ViewMode::GlobalTree => ViewMode::Today,
        }
    }

    /// The mode lists tasks; every other mode shows a placeholder.
    pub open spec fn spec_lists_tasks(&self) -> bool {
        *self == ViewMode::GlobalTree || *self == ViewMode::Today
    }

    /// Tells whether the mode lists tasks.
    #[verifier::when_used_as_spec(spec_lists_tasks)]
    pub fn lists_tasks(&self) -> (r: bool)
        ensures
            r == self.spec_lists_tasks(),
    {
        match self {
            ViewMode::GlobalTree => true,
            ViewMode::Today => true,
            _ => false,
        }
    }

    /// The title of the main area in this mode.
    pub open spec fn spec_title(&self) -> Seq<char> {
        match self {
            ViewMode::GlobalTree => "全局任务树"@,
            ViewMode::Today => "今日"@,
            ViewMode::ThisWeek => "本周"@,
            ViewMode::ThisMonth => "本月"@,
            ViewMode::ThisQuarter => "本季度"@,
            ViewMode::ThisYear => "本年"@,
            ViewMode::ExecutionStats => "执行情况"@,
            ViewMode::CustomTime => "自定义时间"@,
        }
    }

    /// The title of the main area in this mode.
    pub fn title(&self) -> (r: &'static str)
        ensures
            r@ == self.spec_title(),
    {
        match self {
            ViewMode::GlobalTree => "全局任务树",
            ViewMode::Today => "今日",
            ViewMode::ThisWeek => "本周",
            ViewMode::ThisMonth => "本月",
            ViewMode::ThisQuarter => "本季度",
            ViewMode::ThisYear => "本年",
            ViewMode::ExecutionStats => "执行情况",
            ViewMode::CustomTime => "自定义时间",
        }
    }

    /// The label of this mode in the navigation bar.
    pub open spec fn spec_tab(&self) -> Seq<char> {
        match self {
            ViewMode::Today => "[今日]"@,
            ViewMode::ThisWeek => "[本周]"@,
            ViewMode::ThisMonth => "[本月]"@,
            ViewMode::ThisQuarter => "[本季度]"@,
            ViewMode::ThisYear => "[本年]"@,
            ViewMode::ExecutionStats => "[执行情况]"@,
            ViewMode::CustomTime => "[自定义时间]"@,
            ViewMode::GlobalTree => "[全局任务]"@,
        }
    }

    /// The label of this mode in the navigation bar.
    pub fn tab(&self) -> (r: &'static str)
        ensures
            r@ == self.spec_tab(),
    {
        match self {
            ViewMode::Today => "[今日]",
            ViewMode::ThisWeek => "[本周]",
            ViewMode::ThisMonth => "[本月]",
            ViewMode::ThisQuarter => "[本季度]",
            ViewMode::ThisYear => "[本年]",
            ViewMode::ExecutionStats => "[执行情况]",
            ViewMode::CustomTime => "[自定义时间]",
            ViewMode::GlobalTree => "[全局任务]",
        }
    }
}

impl Default for ViewMode {
    /// The mode the dashboard starts in.
    fn default() -> (r: ViewMode)
        ensures
            r == ViewMode::GlobalTree,
    {
        ViewMode::GlobalTree
    }
}

impl Default for InputMode {
    fn default() -> (r: InputMode)
        ensures
            r == InputMode::Normal,
    {
        InputMode::Normal
    }
}

/// Eight presses of the view key lead back to the mode one started from, and
/// no fewer do.
pub proof fn lemma_view_ring_closes(m: ViewMode)
    ensures
        m.next().next().next().next().next().next().next().next() == m,
        m.next() != m,
        m.next().next() != m,
        m.next().next().next() != m,
        m.next().next().next().next() != m,
        m.next().next().next().next().next() != m,
        m.next().next().next().next().next().next() != m,
        m.next().next().next().next().next().next().next() != m,
{
}

/// A key as the terminal reports it.
#[derive(Debug, Clone, Copy, PartialEq, Eq, Structural)]
pub enum Key {
    Char(char),
    Tab,
    Up,
    Down,
    Left,
    Right,
    Esc,
    Other,
}

/// What a key asks the dashboard to do.
#[derive(Debug, Clone, Copy, PartialEq, Eq, Structural)]
pub enum Command {
    Quit,
    NextView,
    MoveUp,
    MoveDown,
    ToggleStatus,
    Collapse,
    Expand,
    DismissError,
    Ignore,
}

/// What the caller has to do after a key was handled.
#[derive(Debug, Clone, Copy, PartialEq, Eq, Structural)]
pub enum Action {
    /// Nothing.
    Nothing,
    /// Fetch today's plan and hand the outcome to [`App::finish_load`].
    LoadToday,
}

impl Key {
    /// The command that this key is bound to.
    pub open spec fn spec_command(&self) -> Command {
        match self {
            Key::Char(c) => if *c == 'q' {
                Command::Quit
            } else if *c == ' ' {
                Command::ToggleStatus
            } else {
                Command::Ignore
            },
            Key::Tab => Command::NextView,
            Key::Up => Command::MoveUp,
            Key::Down => Command::MoveDown,
            Key::Left => Command::Collapse,
            Key::Right => Command::Expand,
            Key::Esc => Command::DismissError,
            Key::Other => Command::Ignore,
        }
    }

    /// The command that this key is bound to.
    #[verifier::when_used_as_spec(spec_command)]
    pub fn command(&self) -> (r: Command)
        ensures
            r == self.spec_command(),
    {
        match self {
            Key::Char(c) => if *c == 'q' {
                Command::Quit
            } else if *c == ' ' {
                Command::ToggleStatus
            } else {
                Command::Ignore
            },
            Key::Tab => Command::NextView,
            Key::Up => Command::MoveUp,
            Key::Down => Command::MoveDown,
            Key::Left => Command::Collapse,
            Key::Right => Command::Expand,
            Key::Esc => Command::DismissError,
            Key::Other => Command::Ignore,
        }
    }
}

/// The state of the dashboard.
pub struct App {
    pub view_mode: ViewMode,
    pub input_mode: InputMode,
    pub session: Session,
    pub running: bool,
    pub api_client: ApiClient,
    pub loading: bool,
    pub tasks: Vec<Task>,
    pub selected_task_index: usize,
    pub expanded_tasks: StringHashSet,
    pub error_msg: Option<String>,
    pub show_error: bool,
}

/// The values of the rows of a projection: each node by its value, each depth
/// as a natural number.
pub open spec fn rows_view(rows: Seq<(&Task, usize)>) -> Seq<(TaskView, nat)> {
    Seq::new(rows.len(), |i: int| (rows[i].0@, rows[i].1 as nat))
}

/// The cursor after a step up from `index`.
pub open spec fn step_up(index: usize) -> usize {
    if index > 0 {
        (index - 1) as usize
    } else {
        0
    }
}

/// The cursor after a step down from `index` over `len` rows: the next row,
/// but never past the last; on no rows it stays.
pub open spec fn step_down(index: usize, len: nat) -> usize {
    if len == 0 {
        index
    } else if index + 1 < len {
        (index + 1) as usize
    } else {
        (len - 1) as usize
    }
}

/// The cursor `index` brought back onto `len` rows: the last row where it
/// lay beyond, the first where there is none.
pub open spec fn clamped(index: usize, len: nat) -> usize {
    if len == 0 {
        0
    } else if index >= len {
        (len - 1) as usize
    } else {
        index
    }
}

/// The line shown when a load of today's plan failed with `error`.
pub open spec fn load_failure_text(error: crate::api::ApiErrorView) -> Seq<char> {
    "加载今日任务失败: "@ + error_text(error)
}

impl App {
    /// The projection of the forest under the expanded ids: the rows that
    /// the task list shows, top to bottom.
    pub open spec fn projection(&self) -> Seq<(TaskView, nat)> {
        visible_forest(forest_view(self.tasks@), 0, self.expanded_tasks@)
    }

    /// The row under the cursor, if the cursor lies on one.
    pub open spec fn selected_row(&self) -> Option<(TaskView, nat)> {
        if self.selected_task_index < self.projection().len() {
            Some(self.projection()[self.selected_task_index as int])
        } else {
            None
        }
    }

    /// The cursor lies on a row, or on no rows at the first position.
    pub open spec fn selection_valid(&self) -> bool {
        if self.projection().len() == 0 {
            self.selected_task_index == 0
        } else {
            self.selected_task_index < self.projection().len()
        }
    }

    /// The error on display, if one is.
    pub open spec fn displayed_error(&self) -> Option<Seq<char>> {
        if self.show_error {
            self.error_msg.deep_view()
        } else {
            None
        }
    }

    /// `post` is `pre` after the quit key.
    pub open spec fn quit_step(pre: App, post: App) -> bool {
        post == (App { running: false, ..pre })
    }

    /// `post` is `pre` after the cursor moved up.
    pub open spec fn up_step(pre: App, post: App) -> bool {
        post == (App { selected_task_index: step_up(pre.selected_task_index), ..pre })
    }

    /// `post` is `pre` after the cursor moved down.
    pub open spec fn down_step(pre: App, post: App) -> bool {
        post == (App {
            selected_task_index: step_down(pre.selected_task_index, pre.projection().len()),
            ..pre
        })
    }

    /// `post` is `pre` with the cursor brought back onto the rows.
    pub open spec fn clamp_step(pre: App, post: App) -> bool {
        post == (App {
            selected_task_index: clamped(pre.selected_task_index, pre.projection().len()),
            ..pre
        })
    }

    /// `post` is `pre` after the status of the selected task moved one step:
    /// of the first node of the forest that has the id of the row under the
    /// cursor. Without a row under the cursor nothing changes.
    pub open spec fn toggle_step(pre: App, post: App) -> bool {
        &&& post == (App { tasks: post.tasks, ..pre })
        &&& forest_view(post.tasks@) == match pre.selected_row() {
            Some(row) => advance_in_forest(forest_view(pre.tasks@), row.0.id),
            None => forest_view(pre.tasks@),
        }
    }

    /// `post` is `pre` after the selected task was collapsed: its id has left
    /// the expanded ids, and the cursor is back on the rows.
    pub open spec fn collapse_step(pre: App, post: App) -> bool {
        &&& post == (App {
            expanded_tasks: post.expanded_tasks,
            selected_task_index: post.selected_task_index,
            ..pre
        })
        &&& post.expanded_tasks@ == match pre.selected_row() {
            Some(row) => pre.expanded_tasks@.remove(row.0.id),
            None => pre.expanded_tasks@,
        }
        &&& post.selected_task_index == clamped(pre.selected_task_index, post.projection().len())
    }

    /// `post` is `pre` after the selected task was expanded: its id has
    /// joined the expanded ids, and the cursor is back on the rows.
    pub open spec fn expand_step(pre: App, post: App) -> bool {
        &&& post == (App {
            expanded_tasks: post.expanded_tasks,
            selected_task_index: post.selected_task_index,
            ..pre
        })
        &&& post.expanded_tasks@ == match pre.selected_row() {
            Some(row) => pre.expanded_tasks@.insert(row.0.id),
            None => pre.expanded_tasks@,
        }
        &&& post.selected_task_index == clamped(pre.selected_task_index, post.projection().len())
    }

    /// `post` is `pre` after the error on display, if any, was dismissed.
    pub open spec fn dismiss_step(pre: App, post: App) -> bool {
        post == if pre.show_error {
            App { show_error: false, error_msg: None, ..pre }
        } else {
            pre
        }
    }

    /// `post` is `pre` after the view key: the next mode of the ring, and a
    /// load begun where that mode is Today and no load was under way.
    pub open spec fn view_step(pre: App, post: App) -> bool {
        post == (App {
            view_mode: pre.view_mode.next(),
            loading: pre.loading || pre.view_mode.next() == ViewMode::Today,
            ..pre
        })
    }

    /// `post` is `pre` after a load ended with `outcome`. A forest that was
    /// fetched takes the place of the old one as a whole, the cursor is
    /// brought back onto the rows and no error is on display any more. A
    /// failure leaves forest and cursor as they were and is the error on
    /// display, in place of any earlier one. Either way no load is under way.
    pub open spec fn load_step(pre: App, outcome: Result<Vec<Task>, ApiError>, post: App) -> bool {
        match outcome {
            Ok(tasks) => {
                &&& post == (App {
                    tasks,
                    loading: false,
                    selected_task_index: post.selected_task_index,
                    show_error: false,
                    error_msg: None,
                    ..pre
                })
                &&& post.selected_task_index == clamped(
                    pre.selected_task_index,
                    post.projection().len(),
                )
            },
            Err(error) => {
                &&& post == (App {
                    loading: false,
                    show_error: true,
                    error_msg: post.error_msg,
                    ..pre
                })
                &&& post.error_msg.deep_view() == Some(load_failure_text(error@))
            },
        }
    }

    /// The dashboard as it starts: running, in the global tree, with an
    /// empty forest, nothing expanded, nothing loading and no error.
    pub fn new() -> (r: App)
        ensures
            r.view_mode == ViewMode::GlobalTree,
            r.input_mode == InputMode::Normal,
            r.session.auth_token is None,
            r.running,
            r.api_client.base() == "http://localhost:8081"@,
            !r.loading,
            r.tasks@.len() == 0,
            r.selected_task_index == 0,
            r.expanded_tasks@ == Set::<Seq<char>>::empty(),
            r.error_msg is None,
            !r.show_error,
            r.projection().len() == 0,
            r.selection_valid(),
    {
        let api_client = ApiClient::new(String::from_str("http://localhost:8081"));
        App {
            view_mode: ViewMode::GlobalTree,
            input_mode: InputMode::Normal,
            session: Session::new(),
            running: true,
            api_client,
            loading: false,
            tasks: Vec::new(),
            selected_task_index: 0,
            expanded_tasks: StringHashSet::new(),
            error_msg: None,
            show_error: false,
        }
    }

    /// The row under the cursor: the task and its depth. There is none if
    /// and only if the cursor lies on no row, which for a cursor kept on the
    /// rows means that there are no rows.
    pub fn current(&self) -> (r: Option<(&Task, usize)>)
        ensures
            match r {
                Some(row) => self.selected_row() == Some((row.0@, row.1 as nat)),
                None => self.selected_row() is None,
            },
            self.selection_valid() ==> (r is None <==> self.projection().len() == 0),
    {
        let rows = self.get_visible_tasks();
        if self.selected_task_index < rows.len() {
            let row = rows[self.selected_task_index];
            assert(rows_view(rows@)[self.selected_task_index as int] == (row.0@, row.1 as nat));
            Some(row)
        } else {
            assert(rows_view(rows@).len() == rows@.len());
            None
        }
    }

    /// The task under the cursor.
    pub fn get_current_selected_task(&self) -> (r: Option<&Task>)
        ensures
            match r {
                Some(task) => (self.selected_row() matches Some(row) && row.0 == task@),
                None => self.selected_row() is None,
            },
    {
        match self.current() {
            Some(row) => Some(row.0),
            None => None,
        }
    }

    /// Stops the dashboard.
    pub fn quit(&mut self)
        ensures
            App::quit_step(*old(self), *final(self)),
    {
        self.running = false;
    }

    /// Moves the cursor one row up; on the first row it stays.
    pub fn move_up(&mut self)
        ensures
            App::up_step(*old(self), *final(self)),
            old(self).selection_valid() ==> final(self).selection_valid(),
    {
        if self.selected_task_index > 0 {
            self.selected_task_index -= 1;
        }
    }

    /// Moves the cursor one row down; on the last row it stays, and on no
    /// rows nothing happens.
    pub fn move_down(&mut self)
        ensures
            App::down_step(*old(self), *final(self)),
            old(self).selection_valid() ==> final(self).selection_valid(),
    {
        let rows = self.get_visible_tasks().len();
        assert(rows == self.projection().len()) by {
            assert(forall|v: Seq<(&Task, usize)>| #[trigger] rows_view(v).len() == v.len());
        }
        if rows > 0 {
            if self.selected_task_index < rows - 1 {
                self.selected_task_index += 1;
            } else {
                self.selected_task_index = rows - 1;
            }
        }
    }

    /// Brings the cursor back onto the rows: onto the last row where it lay
    /// beyond, onto the first position where there are no rows.
    pub fn clamp_selection(&mut self)
        ensures
            App::clamp_step(*old(self), *final(self)),
            final(self).selection_valid(),
    {
        let rows = self.get_visible_tasks().len();
        assert(rows == self.projection().len()) by {
            assert(forall|v: Seq<(&Task, usize)>| #[trigger] rows_view(v).len() == v.len());
        }
        if rows == 0 {
            self.selected_task_index = 0;
        } else if self.selected_task_index >= rows {
            self.selected_task_index = rows - 1;
        }
    }

    /// Moves the status of the selected task one step along its cycle. The
    /// rows stay as many as they were.
    pub fn toggle_status(&mut self)
        ensures
            App::toggle_step(*old(self), *final(self)),
            final(self).projection().len() == old(self).projection().len(),
            old(self).selection_valid() ==> final(self).selection_valid(),
    {
        let id = match self.get_current_selected_task() {
            Some(task) => task.id.clone(),
            None => {
                return ;
            },
        };
        proof {
            lemma_advance_forest_keeps_shape(forest_view(self.tasks@), id@);
            lemma_forest_same_shape_same_rows(
                forest_view(self.tasks@),
                advance_in_forest(forest_view(self.tasks@), id@),
                0,
                self.expanded_tasks@,
            );
        }
        advance_status_in_forest(&mut self.tasks, &id);
    }

    /// Collapses the selected task and brings the cursor back onto the rows.
    pub fn collapse_selected(&mut self)
        ensures
            App::collapse_step(*old(self), *final(self)),
            final(self).selection_valid(),
    {
        let id = match self.get_current_selected_task() {
            Some(task) => Some(task.id.clone()),
            None => None,
        };
        if let Some(id) = id {
            self.expanded_tasks.remove(id.as_str());
        }
        self.clamp_selection();
    }

    /// Expands the selected task and brings the cursor back onto the rows.
    pub fn expand_selected(&mut self)
        ensures
            App::expand_step(*old(self), *final(self)),
            final(self).selection_valid(),
    {
        let id = match self.get_current_selected_task() {
            Some(task) => Some(task.id.clone()),
            None => None,
        };
        if let Some(id) = id {
            self.expanded_tasks.insert(id);
        }
        self.clamp_selection();
    }

    /// Takes the error off the display.
    pub fn dismiss_error(&mut self)
        ensures
            App::dismiss_step(*old(self), *final(self)),
            final(self).displayed_error() is None,
    {
        if self.show_error {
            self.show_error = false;
            self.error_msg = None;
        }
    }

    /// Advances the view to the next mode of the ring. Entering Today begins
    /// a load, unless one is under way: then the caller is asked to fetch.
    pub fn advance_view_mode(&mut self) -> (action: Action)
        ensures
            App::view_step(*old(self), *final(self)),
            action == if old(self).view_mode.next() == ViewMode::Today && !old(self).loading {
                Action::LoadToday
            } else {
                Action::Nothing
            },
    {
        self.view_mode = self.view_mode.next();
        match self.view_mode {
            ViewMode::Today => {
                if self.loading {
                    Action::Nothing
                } else {
                    self.loading = true;
                    Action::LoadToday
                }
            },
            _ => Action::Nothing,
        }
    }

    /// Ends a load with its `outcome`. A forest that was fetched replaces
    /// the old one as a whole and clears the error on display. A failure
    /// leaves the old forest untouched, goes on display and is handed back.
    pub fn load_today_tasks(&mut self, outcome: Result<Vec<Task>, ApiError>) -> (r: Result<
        (),
        ApiError,
    >)
        ensures
            App::load_step(*old(self), outcome, *final(self)),
            match outcome {
                Ok(_) => r is Ok,
                Err(error) => r == Err::<(), ApiError>(error),
            },
            !final(self).loading,
            final(self).displayed_error() == match outcome {
                Ok(_) => None,
                Err(error) => Some(load_failure_text(error@)),
            },
            outcome is Ok || old(self).selection_valid() ==> final(self).selection_valid(),
    {
        match outcome {
            Ok(tasks) => {
                self.tasks = tasks;
                self.loading = false;
                self.show_error = false;
                self.error_msg = None;
                self.clamp_selection();
                Ok(())
            },
            Err(error) => {
                self.loading = false;
                let mut line = String::from_str("加载今日任务失败: ");
                let reason = error.display();
                line.append(reason.as_str());
                self.error_msg = Some(line);
                self.show_error = true;
                Err(error)
            },
        }
    }

    /// Ends a load with its `outcome` as [`App::load_today_tasks`] does, for
    /// a caller that has no use for the failure beyond its display.
    pub fn finish_load(&mut self, outcome: Result<Vec<Task>, ApiError>)
        ensures
            App::load_step(*old(self), outcome, *final(self)),
            !final(self).loading,
            final(self).displayed_error() == match outcome {
                Ok(_) => None,
                Err(error) => Some(load_failure_text(error@)),
            },
            outcome is Ok || old(self).selection_valid() ==> final(self).selection_valid(),
    {
        let _ = self.load_today_tasks(outcome);
    }

    /// Handles one key: does what the key is bound to and tells the caller
    /// what is left for it to do.
    pub fn handle_key_event(&mut self, key: Key) -> (action: Action)
        ensures
            match key.command() {
                Command::Quit => App::quit_step(*old(self), *final(self)),
                Command::NextView => App::view_step(*old(self), *final(self)),
                Command::MoveUp => App::up_step(*old(self), *final(self)),
                Command::MoveDown => App::down_step(*old(self), *final(self)),
                Command::ToggleStatus => App::toggle_step(*old(self), *final(self)),
                Command::Collapse => App::collapse_step(*old(self), *final(self)),
                Command::Expand => App::expand_step(*old(self), *final(self)),
                Command::DismissError => App::dismiss_step(*old(self), *final(self)),
                Command::Ignore => *final(self) == *old(self),
            },
            action == if key.command() == Command::NextView && old(self).view_mode.next()
                == ViewMode::Today && !old(self).loading {
                Action::LoadToday
            } else {
                Action::Nothing
            },
            old(self).selection_valid() ==> final(self).selection_valid(),
    {
        match key.command() {
            Command::Quit => {
                self.quit();
                Action::Nothing
            },
            Command::NextView => self.advance_view_mode(),
            Command::MoveUp => {
                self.move_up();
                Action::Nothing
            },
            Command::MoveDown => {
                self.move_down();
                Action::Nothing
            },
            Command::ToggleStatus => {
                self.toggle_status();
                Action::Nothing
            },
            Command::Collapse => {
                self.collapse_selected();
                Action::Nothing
            },
            Command::Expand => {
                self.expand_selected();
                Action::Nothing
            },
            Command::DismissError => {
                self.dismiss_error();
                Action::Nothing
            },
            Command::Ignore => Action::Nothing,
        }
    }

    /// The error to show, if one is on display.
    pub fn error_message(&self) -> (r: Option<&String>)
        ensures
            r.deep_view() == self.displayed_error(),
    {
        if self.show_error {
            self.error_msg.as_ref()
        } else {
            None
        }
    }

    /// The visible tasks in display order, each with its depth.
    pub fn get_visible_tasks(&self) -> (rows: Vec<(&Task, usize)>)
        ensures
            rows_view(rows@) == self.projection(),
    {
        let mut result: Vec<(&Task, usize)> = Vec::new();
        let mut i: usize = 0;
        assert(rows_view(result@) =~= Seq::<(TaskView, nat)>::empty());
        assert(self.tasks@.take(0) =~= Seq::<Task>::empty());
        while i < self.tasks.len()
            invariant
                i <= self.tasks.len(),
                rows_view(result@) == visible_forest(
                    forest_view(self.tasks@.take(i as int)),
                    0,
                    self.expanded_tasks@,
                ),
            decreases self.tasks.len() - i,
        {
            proof {
                lemma_forest_view(self.tasks@);
                lemma_forest_view_take(self.tasks@, i as int);
                lemma_forest_view_take(self.tasks@, i + 1);
                lemma_visible_forest_step(forest_view(self.tasks@), i as int, 0, self.expanded_tasks@);
            }
            self.add_task_if_visible(&self.tasks[i], 0, &mut result);
            i += 1;
        }
        assert(self.tasks@.take(i as int) =~= self.tasks@);
        result
    }

    /// Appends to `result` the rows of the tree under `task`, with `task` at
    /// `depth`.
    pub fn add_task_if_visible<'a>(
        &self,
        task: &'a Task,
        depth: usize,
        result: &mut Vec<(&'a Task, usize)>,
    )
        requires
            depth <= old(result).len(),
        ensures
            rows_view(final(result)@) == rows_view(old(result)@) + visible_subtree(
                task@,
                depth as nat,
                self.expanded_tasks@,
            ),
            old(result).len() < final(result).len(),
        decreases task,
    {
        result.push((task, depth));
        assert(rows_view(result@) =~= rows_view(old(result)@) + seq![(task@, depth as nat)]);
        if self.expanded_tasks.contains(task.id.as_str()) {
            // The rows listed so far are more than `depth`, and a vector's
            // length fits the machine word: the depth below does too.
            let listed = result.len();
            assert(depth < listed);
            let below = depth + 1;
            let mut i: usize = 0;
            assert(task.children@.take(0) =~= Seq::<Task>::empty());
            assert(rows_view(result@) =~= rows_view(old(result)@) + (seq![(task@, depth as nat)]
                + Seq::<(TaskView, nat)>::empty()));
            while i < task.children.len()
                invariant
                    i <= task.children.len(),
                    below == depth + 1,
                    below <= result.len(),
                    rows_view(result@) == rows_view(old(result)@) + (seq![(task@, depth as nat)]
                        + visible_forest(
                        forest_view(task.children@.take(i as int)),
                        below as nat,
                        self.expanded_tasks@,
                    )),
                decreases task.children.len() - i,
            {
                proof {
                    lemma_forest_view(task.children@);
                    lemma_forest_view_take(task.children@, i as int);
                    lemma_forest_view_take(task.children@, i + 1);
                    lemma_visible_forest_step(
                        forest_view(task.children@),
                        i as int,
                        below as nat,
                        self.expanded_tasks@,
                    );
                }
                self.add_task_if_visible(&task.children[i], below, result);
                i += 1;
            }
            assert(task.children@.take(i as int) =~= task.children@);
        }
    }
}

/// Moves the status of the first node with id `id` in the tree under `task`,
/// in depth-first pre-order, one step along its cycle. Tells whether there
/// was such a node.
pub fn advance_status_in_tree(task: &mut Task, id: &String) -> (found: bool)
    ensures
        found == contains_id(old(task)@, id@),
        final(task)@ == advance_in_tree(old(task)@, id@),
    decreases *old(task),
{
    if task.id == *id {
        task.status = task.status.next();
        return true;
    }
    let mut i: usize = 0;
    proof {
        lemma_forest_view(old(task).children@);
    }
    while i < task.children.len()
        invariant
            i <= task.children.len(),
            *task == (Task { children: task.children, ..*old(task) }),
            task.children@.len() == old(task).children@.len(),
            forall|j: int|
                i <= j < task.children@.len() ==> task.children@[j] == old(task).children@[j],
            forall|j: int|
                0 <= j < i ==> (#[trigger] task.children@[j])@ == old(task).children@[j]@,
            forall|j: int|
                0 <= j < i ==> !contains_id(#[trigger] forest_view(old(task).children@)[j], id@),
            old(task).id@ != id@,
        decreases task.children.len() - i,
    {
        proof {
            lemma_forest_view(old(task).children@);
        }
        let hit = advance_status_in_tree(&mut task.children[i], id);
        if hit {
            proof {
                let was = forest_view(old(task).children@);
                lemma_forest_view(task.children@);
                assert(forest_view(task.children@) =~= was.update(
                    i as int,
                    advance_in_tree(was[i as int], id@),
                ));
                lemma_advance_in_forest_at(was, id@, i as int);
                lemma_forest_contains_id(was, id@);
            }
            return true;
        }
        proof {
            lemma_advance_absent_in_tree(old(task).children@[i as int]@, id@);
        }
        i += 1;
    }
    proof {
        let was = forest_view(old(task).children@);
        lemma_forest_view(old(task).children@);
        lemma_forest_view(task.children@);
        assert(forest_view(task.children@) =~= was);
        lemma_forest_contains_id(was, id@);
        lemma_advance_absent_in_forest(was, id@);
    }
    false
}

/// Moves the status of the first node with id `id` in the forest, in
/// depth-first pre-order from the first root, one step along its cycle.
/// Tells whether there was such a node.
pub fn advance_status_in_forest(tasks: &mut Vec<Task>, id: &String) -> (found: bool)
    ensures
        found == forest_contains_id(forest_view(old(tasks)@), id@),
        forest_view(final(tasks)@) == advance_in_forest(forest_view(old(tasks)@), id@),
{
    let mut i: usize = 0;
    while i < tasks.len()
        invariant
            i <= tasks.len(),
            tasks@.len() == old(tasks)@.len(),
            forall|j: int| i <= j < tasks@.len() ==> tasks@[j] == old(tasks)@[j],
            forall|j: int| 0 <= j < i ==> (#[trigger] tasks@[j])@ == old(tasks)@[j]@,
            forall|j: int|
                0 <= j < i ==> !contains_id(#[trigger] forest_view(old(tasks)@)[j], id@),
        decreases tasks.len() - i,
    {
        proof {
            lemma_forest_view(old(tasks)@);
        }
        let hit = advance_status_in_tree(&mut tasks[i], id);
        if hit {
            proof {
                let was = forest_view(old(tasks)@);
                lemma_forest_view(tasks@);
                assert(forest_view(tasks@) =~= was.update(
                    i as int,
                    advance_in_tree(was[i as int], id@),
                ));
                lemma_advance_in_forest_at(was, id@, i as int);
                lemma_forest_contains_id(was, id@);
            }
            return true;
        }
        proof {
            lemma_advance_absent_in_tree(old(tasks)@[i as int]@, id@);
        }
        i += 1;
    }
    proof {
        let was = forest_view(old(tasks)@);
        lemma_forest_view(old(tasks)@);
        lemma_forest_view(tasks@);
        assert(forest_view(tasks@) =~= was);
        lemma_forest_contains_id(was, id@);
        lemma_advance_absent_in_forest(was, id@);
    }
    false
}

/// The projection is a function of the forest and the expanded ids alone:
/// two states that agree on both show the same rows, and any two lists of
/// rows computed for one state are the same list.
pub proof fn lemma_projection_deterministic(
    a: App,
    b: App,
    first: Seq<(&Task, usize)>,
    second: Seq<(&Task, usize)>,
)
    requires
        forest_view(a.tasks@) == forest_view(b.tasks@),
        a.expanded_tasks@ == b.expanded_tasks@,
        rows_view(first) == a.projection(),
        rows_view(second) == b.projection(),
    ensures
        a.projection() == b.projection(),
        first.len() == second.len(),
        forall|i: int|
            0 <= i < first.len() ==> (#[trigger] first[i]).0@ == second[i].0@ && first[i].1
                == second[i].1,
{
    assert(rows_view(first).len() == first.len());
    assert(rows_view(second).len() == second.len());
    assert forall|i: int| 0 <= i < first.len() implies (#[trigger] first[i]).0@ == second[i].0@
        && first[i].1 == second[i].1 by {
        assert(rows_view(first)[i] == (first[i].0@, first[i].1 as nat));
        assert(rows_view(second)[i] == (second[i].0@, second[i].1 as nat));
    }
}

/// The cursor stays on the rows. Brought back onto `len` rows it lies on
/// one of them, or at the first position where there are none; from the
/// first row a step up stays there, from the last a step down stays there,
/// and from any row either step leads to a row.
pub proof fn lemma_cursor_stays_on_rows(index: usize, len: nat)
    ensures
        len > 0 ==> clamped(index, len) < len,
        len == 0 ==> clamped(index, len) == 0,
        index < len ==> clamped(index, len) == index,
        step_up(0) == 0,
        len > 0 && index == len - 1 ==> step_down(index, len) == index,
        len == 0 ==> step_down(index, len) == index,
        index < len ==> step_up(index) < len && step_down(index, len) < len,
        step_up(index) <= index,
{
}

/// Collapsing with the cursor on a row leaves rows to show and the cursor on
/// one of them, and takes the id of that row out of the expanded ids.
pub proof fn lemma_collapse_leaves_a_row(pre: App, post: App)
    requires
        App::collapse_step(pre, post),
        pre.selected_task_index < pre.projection().len(),
    ensures
        post.projection().len() >= 1,
        post.selected_task_index < post.projection().len(),
        post.expanded_tasks@ == pre.expanded_tasks@.remove(
            pre.projection()[pre.selected_task_index as int].0.id,
        ),
{
    lemma_forest_shows_its_roots(forest_view(post.tasks@), 0, post.expanded_tasks@);
}

/// Collapsing a task whose id no other task of the forest has keeps the
/// cursor where it is, on the same row, and hides the rows below that row
/// and no other: every row up to the cursor stays, the rows that showed what
/// is below the task leave, and the rows after them close up.
pub proof fn lemma_collapse_hides_only_what_is_below(pre: App, post: App)
    requires
        App::collapse_step(pre, post),
        pre.selected_task_index < pre.projection().len(),
        forest_occurrences(
            forest_view(pre.tasks@),
            pre.projection()[pre.selected_task_index as int].0.id,
        ) == 1,
    ensures
        post.selected_task_index == pre.selected_task_index,
        post.selected_row() == pre.selected_row(),
        ({
            let at = pre.selected_task_index as int;
            let rows = pre.projection();
            let below = rows_below(rows[at], pre.expanded_tasks@);
            &&& at + 1 + below.len() <= rows.len()
            &&& rows.subrange(at + 1, at + 1 + below.len()) == below
            &&& post.projection() == rows.take(at + 1) + rows.skip(at + 1 + below.len())
        }),
{
    lemma_collapse_in_forest(
        forest_view(pre.tasks@),
        0,
        pre.expanded_tasks@,
        pre.selected_task_index as int,
    );
}

} // verus!
