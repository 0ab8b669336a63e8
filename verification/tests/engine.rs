use luna_dial_client::api::ApiError;
use luna_dial_client::app::{Action, App, Key, ViewMode};
use luna_dial_client::models::{Period, PeriodType, Task, TaskPriority, TaskStatus, Timestamp};

fn leaf(id: &str) -> Task {
    Task {
        id: id.to_string(),
        title: format!("task {}", id),
        task_type: PeriodType::Daily,
        time_period: Period {
            start: Timestamp { secs: 0, nanos: 0 },
            end: Timestamp { secs: 86_400, nanos: 0 },
        },
        status: TaskStatus::NotStarted,
        tags: vec!["home".to_string()],
        icon: "*".to_string(),
        score: 1,
        priority: TaskPriority::Medium,
        parent_id: None,
        user_id: "u".to_string(),
        created_at: Timestamp { secs: 1, nanos: 2 },
        updated_at: Timestamp { secs: 3, nanos: 4 },
        has_children: false,
        children_count: 0,
        tree_depth: 0,
        root_task_id: None,
        children: vec![],
    }
}

fn node(id: &str, children: Vec<Task>) -> Task {
    let mut task = leaf(id);
    task.has_children = !children.is_empty();
    task.children_count = children.len() as u32;
    task.children = children;
    task
}

fn shown(app: &App) -> Vec<(String, usize)> {
    app.get_visible_tasks().iter().map(|(task, depth)| (task.id.clone(), *depth)).collect()
}

fn row(id: &str, depth: usize) -> (String, usize) {
    (id.to_string(), depth)
}

fn sample() -> Vec<Task> {
    vec![
        node("1", vec![node("2", vec![leaf("3"), leaf("4")]), leaf("5")]),
        leaf("6"),
        node("7", vec![leaf("8")]),
    ]
}

#[test]
fn new_app_starts_in_global_tree_with_nothing_loaded() {
    let app = App::new();
    assert_eq!(app.view_mode, ViewMode::GlobalTree);
    assert!(app.running);
    assert!(!app.loading);
    assert!(app.tasks.is_empty());
    assert_eq!(app.selected_task_index, 0);
    assert!(app.expanded_tasks.is_empty());
    assert!(app.error_message().is_none());
    assert_eq!(app.api_client.base_url(), "http://localhost:8081");
    assert!(app.session.auth_token.is_none());
}

#[test]
fn projection_of_collapsed_forest_lists_roots_only() {
    let mut app = App::new();
    app.tasks = sample();
    assert_eq!(shown(&app), vec![row("1", 0), row("6", 0), row("7", 0)]);
}

#[test]
fn projection_follows_expanded_ids_in_pre_order() {
    let mut app = App::new();
    app.tasks = sample();
    app.expanded_tasks.insert("1".to_string());
    app.expanded_tasks.insert("2".to_string());
    app.expanded_tasks.insert("7".to_string());
    assert_eq!(
        shown(&app),
        vec![
            row("1", 0),
            row("2", 1),
            row("3", 2),
            row("4", 2),
            row("5", 1),
            row("6", 0),
            row("7", 0),
            row("8", 1),
        ]
    );
}

#[test]
fn collapsed_parent_hides_expanded_descendants() {
    let mut app = App::new();
    app.tasks = sample();
    app.expanded_tasks.insert("2".to_string());
    assert_eq!(shown(&app), vec![row("1", 0), row("6", 0), row("7", 0)]);
}

#[test]
fn projection_is_the_same_when_computed_twice() {
    let mut app = App::new();
    app.tasks = sample();
    app.expanded_tasks.insert("1".to_string());
    let first = shown(&app);
    let second = shown(&app);
    assert_eq!(first, second);
    assert_eq!(first, vec![row("1", 0), row("2", 1), row("5", 1), row("6", 0), row("7", 0)]);
}

#[test]
fn expanded_ids_of_missing_tasks_are_inert() {
    let mut app = App::new();
    app.tasks = sample();
    app.expanded_tasks.insert("no such id".to_string());
    assert_eq!(shown(&app), vec![row("1", 0), row("6", 0), row("7", 0)]);
}

#[test]
fn collapse_clamps_cursor_from_hidden_child_to_parent() {
    let mut app = App::new();
    app.tasks = vec![node("1", vec![leaf("2")])];
    app.expanded_tasks.insert("1".to_string());
    assert_eq!(shown(&app), vec![row("1", 0), row("2", 1)]);
    app.selected_task_index = 1;
    app.expanded_tasks.remove("1");
    app.clamp_selection();
    assert_eq!(shown(&app), vec![row("1", 0)]);
    assert_eq!(app.selected_task_index, 0);
}

#[test]
fn collapse_key_on_parent_row_hides_children() {
    let mut app = App::new();
    app.tasks = vec![node("1", vec![leaf("2")])];
    app.expanded_tasks.insert("1".to_string());
    app.selected_task_index = 0;
    let action = app.handle_key_event(Key::Left);
    assert_eq!(action, Action::Nothing);
    assert!(!app.expanded_tasks.contains("1"));
    assert_eq!(shown(&app), vec![row("1", 0)]);
    assert_eq!(app.selected_task_index, 0);
}

#[test]
fn collapse_key_on_child_row_removes_only_its_own_id() {
    let mut app = App::new();
    app.tasks = vec![node("1", vec![leaf("2")])];
    app.expanded_tasks.insert("1".to_string());
    app.selected_task_index = 1;
    app.handle_key_event(Key::Left);
    assert!(app.expanded_tasks.contains("1"));
    assert_eq!(shown(&app), vec![row("1", 0), row("2", 1)]);
    assert_eq!(app.selected_task_index, 1);
}

#[test]
fn expand_key_shows_children_of_selected_task() {
    let mut app = App::new();
    app.tasks = sample();
    app.handle_key_event(Key::Right);
    assert!(app.expanded_tasks.contains("1"));
    assert_eq!(shown(&app), vec![row("1", 0), row("2", 1), row("5", 1), row("6", 0), row("7", 0)]);
    assert_eq!(app.selected_task_index, 0);
}

#[test]
fn empty_projection_has_no_current_and_moves_are_no_ops() {
    let mut app = App::new();
    app.tasks = sample();
    app.selected_task_index = 0;
    app.loading = true;
    app.finish_load(Ok(vec![]));
    assert!(app.tasks.is_empty());
    assert!(app.current().is_none());
    assert!(app.get_current_selected_task().is_none());
    app.move_down();
    assert_eq!(app.selected_task_index, 0);
    app.move_up();
    assert_eq!(app.selected_task_index, 0);
    app.handle_key_event(Key::Down);
    assert_eq!(app.selected_task_index, 0);
    app.handle_key_event(Key::Up);
    assert_eq!(app.selected_task_index, 0);
}

#[test]
fn move_up_stops_at_first_row() {
    let mut app = App::new();
    app.tasks = sample();
    app.selected_task_index = 1;
    app.move_up();
    assert_eq!(app.selected_task_index, 0);
    app.move_up();
    assert_eq!(app.selected_task_index, 0);
}

#[test]
fn move_down_stops_at_last_row() {
    let mut app = App::new();
    app.tasks = sample();
    app.move_down();
    assert_eq!(app.selected_task_index, 1);
    app.move_down();
    assert_eq!(app.selected_task_index, 2);
    app.move_down();
    assert_eq!(app.selected_task_index, 2);
}

#[test]
fn move_down_brings_a_stray_cursor_to_the_last_row() {
    let mut app = App::new();
    app.tasks = sample();
    app.selected_task_index = 40;
    app.move_down();
    assert_eq!(app.selected_task_index, 2);
}

#[test]
fn clamp_selection_brings_cursor_onto_rows() {
    let mut app = App::new();
    app.tasks = sample();
    app.selected_task_index = 9;
    app.clamp_selection();
    assert_eq!(app.selected_task_index, 2);
    app.selected_task_index = 1;
    app.clamp_selection();
    assert_eq!(app.selected_task_index, 1);
    app.tasks = vec![];
    app.selected_task_index = 5;
    app.clamp_selection();
    assert_eq!(app.selected_task_index, 0);
}

#[test]
fn current_gives_task_and_depth_under_cursor() {
    let mut app = App::new();
    app.tasks = sample();
    app.expanded_tasks.insert("1".to_string());
    app.selected_task_index = 2;
    let (task, depth) = app.current().unwrap();
    assert_eq!(task.id, "5");
    assert_eq!(depth, 1);
    assert_eq!(app.get_current_selected_task().unwrap().id, "5");
    app.selected_task_index = 5;
    assert!(app.current().is_none());
}

#[test]
fn space_key_toggles_status_through_cycle() {
    let mut app = App::new();
    app.tasks = vec![leaf("1")];
    assert_eq!(app.tasks[0].status, TaskStatus::NotStarted);
    app.handle_key_event(Key::Char(' '));
    app.handle_key_event(Key::Char(' '));
    app.handle_key_event(Key::Char(' '));
    assert_eq!(app.tasks[0].status, TaskStatus::Cancelled);
    app.handle_key_event(Key::Char(' '));
    assert_eq!(app.tasks[0].status, TaskStatus::NotStarted);
}

#[test]
fn toggle_changes_only_the_selected_nested_task() {
    let mut app = App::new();
    app.tasks = sample();
    app.expanded_tasks.insert("1".to_string());
    app.expanded_tasks.insert("2".to_string());
    app.selected_task_index = 3;
    app.toggle_status();
    let mut expected = sample();
    expected[0].children[0].children[1].status = TaskStatus::InProgress;
    assert_eq!(app.tasks, expected);
    assert_eq!(app.selected_task_index, 3);
    assert_eq!(shown(&app).len(), 7);
}

#[test]
fn toggle_with_duplicate_ids_changes_the_first_in_pre_order() {
    let mut app = App::new();
    app.tasks = vec![node("a", vec![leaf("x")]), leaf("x")];
    app.selected_task_index = 1;
    app.toggle_status();
    assert_eq!(app.tasks[0].children[0].status, TaskStatus::InProgress);
    assert_eq!(app.tasks[1].status, TaskStatus::NotStarted);
}

#[test]
fn toggle_without_rows_changes_nothing() {
    let mut app = App::new();
    app.toggle_status();
    assert!(app.tasks.is_empty());
    assert_eq!(app.selected_task_index, 0);
}

#[test]
fn quit_key_stops_the_dashboard() {
    let mut app = App::new();
    assert_eq!(app.handle_key_event(Key::Char('q')), Action::Nothing);
    assert!(!app.running);
}

#[test]
fn unbound_keys_change_nothing() {
    let mut app = App::new();
    app.tasks = sample();
    app.selected_task_index = 1;
    assert_eq!(app.handle_key_event(Key::Char('x')), Action::Nothing);
    assert_eq!(app.handle_key_event(Key::Other), Action::Nothing);
    assert!(app.running);
    assert_eq!(app.view_mode, ViewMode::GlobalTree);
    assert_eq!(app.selected_task_index, 1);
    assert_eq!(app.tasks, sample());
}

#[test]
fn view_key_walks_the_ring_and_returns_after_eight_presses() {
    let mut app = App::new();
    let expected = [
        ViewMode::Today,
        ViewMode::ThisWeek,
        ViewMode::ThisMonth,
        ViewMode::ThisQuarter,
        ViewMode::ThisYear,
        ViewMode::ExecutionStats,
        ViewMode::CustomTime,
        ViewMode::GlobalTree,
    ];
    for mode in expected {
        app.handle_key_event(Key::Tab);
        assert_eq!(app.view_mode, mode);
    }
    for start in expected {
        let mut mode = start;
        for _ in 0..8 {
            mode = mode.next();
        }
        assert_eq!(mode, start);
    }
}

#[test]
fn entering_today_asks_for_a_load_once() {
    let mut app = App::new();
    assert_eq!(app.handle_key_event(Key::Tab), Action::LoadToday);
    assert_eq!(app.view_mode, ViewMode::Today);
    assert!(app.loading);
    for _ in 0..7 {
        assert_eq!(app.handle_key_event(Key::Tab), Action::Nothing);
    }
    assert_eq!(app.view_mode, ViewMode::GlobalTree);
    assert_eq!(app.handle_key_event(Key::Tab), Action::Nothing);
    assert_eq!(app.view_mode, ViewMode::Today);
    assert!(app.loading);
    app.finish_load(Ok(vec![]));
    assert!(!app.loading);
    for _ in 0..7 {
        app.handle_key_event(Key::Tab);
    }
    assert_eq!(app.handle_key_event(Key::Tab), Action::LoadToday);
}

#[test]
fn other_keys_are_handled_while_a_load_is_under_way() {
    let mut app = App::new();
    app.tasks = sample();
    assert_eq!(app.handle_key_event(Key::Tab), Action::LoadToday);
    app.handle_key_event(Key::Down);
    assert_eq!(app.selected_task_index, 1);
    app.handle_key_event(Key::Char(' '));
    assert_eq!(app.tasks[1].status, TaskStatus::InProgress);
    assert!(app.loading);
    app.handle_key_event(Key::Char('q'));
    assert!(!app.running);
}

#[test]
fn successful_load_replaces_the_forest_and_clears_the_error() {
    let mut app = App::new();
    app.tasks = sample();
    app.selected_task_index = 2;
    app.loading = true;
    app.finish_load(Err(ApiError::Auth));
    assert!(app.error_message().is_some());
    app.loading = true;
    app.finish_load(Ok(vec![leaf("9")]));
    assert_eq!(app.tasks, vec![leaf("9")]);
    assert!(!app.loading);
    assert!(app.error_message().is_none());
    assert!(app.error_msg.is_none());
    assert!(!app.show_error);
    assert_eq!(app.selected_task_index, 0);
}

#[test]
fn failed_load_with_business_error_401_shows_it_and_keeps_forest() {
    let mut app = App::new();
    app.tasks = sample();
    app.selected_task_index = 1;
    assert_eq!(app.handle_key_event(Key::Tab), Action::LoadToday);
    app.finish_load(Err(ApiError::Business { code: 401, message: "unauthorized".to_string() }));
    assert_eq!(
        app.error_message().unwrap(),
        "加载今日任务失败: API错误 401: unauthorized"
    );
    assert_eq!(app.tasks, sample());
    assert!(!app.loading);
    assert_eq!(app.selected_task_index, 1);
}

#[test]
fn load_today_tasks_hands_the_failure_back_and_shows_it() {
    let mut app = App::new();
    app.tasks = sample();
    app.selected_task_index = 2;
    app.loading = true;
    let r = app.load_today_tasks(Err(ApiError::Network("connection refused".to_string())));
    assert_eq!(r, Err(ApiError::Network("connection refused".to_string())));
    assert!(!app.loading);
    assert_eq!(app.tasks, sample());
    assert_eq!(app.selected_task_index, 2);
    assert_eq!(app.error_message().unwrap(), "加载今日任务失败: 网络错误: connection refused");
    assert!(app.show_error);
}

#[test]
fn load_today_tasks_clears_an_earlier_error_on_success() {
    let mut app = App::new();
    app.tasks = sample();
    app.selected_task_index = 2;
    let r = app.load_today_tasks(Err(ApiError::Auth));
    assert_eq!(r, Err(ApiError::Auth));
    assert!(app.show_error);
    assert!(app.error_msg.is_some());
    app.loading = true;
    let r = app.load_today_tasks(Ok(vec![leaf("1")]));
    assert_eq!(r, Ok(()));
    assert_eq!(app.tasks, vec![leaf("1")]);
    assert!(!app.loading);
    assert!(!app.show_error);
    assert!(app.error_msg.is_none());
    assert!(app.error_message().is_none());
    assert_eq!(app.selected_task_index, 0);
}

#[test]
fn a_new_failure_replaces_the_error_on_display() {
    let mut app = App::new();
    app.finish_load(Err(ApiError::Auth));
    assert_eq!(app.error_message().unwrap(), "加载今日任务失败: 认证错误");
    app.finish_load(Err(ApiError::Parse("missing field".to_string())));
    assert_eq!(app.error_message().unwrap(), "加载今日任务失败: 解析错误: missing field");
}

#[test]
fn escape_dismisses_the_error() {
    let mut app = App::new();
    app.finish_load(Err(ApiError::Network("timed out".to_string())));
    assert_eq!(app.error_message().unwrap(), "加载今日任务失败: 网络错误: timed out");
    assert_eq!(app.handle_key_event(Key::Esc), Action::Nothing);
    assert!(app.error_message().is_none());
    assert!(app.error_msg.is_none());
    app.handle_key_event(Key::Esc);
    assert!(app.error_message().is_none());
}

#[test]
fn clone_of_a_task_copies_the_whole_tree() {
    let tree = node("1", vec![node("2", vec![leaf("3")]), leaf("4")]);
    let copy = tree.clone();
    assert_eq!(copy, tree);
}

#[test]
fn collapse_keeps_the_cursor_row_and_hides_only_what_is_below_it() {
    let mut app = App::new();
    app.tasks = sample();
    app.expanded_tasks.insert("1".to_string());
    app.expanded_tasks.insert("2".to_string());
    app.expanded_tasks.insert("7".to_string());
    app.selected_task_index = 1;
    let before = shown(&app);
    assert_eq!(before[1], row("2", 1));
    app.handle_key_event(Key::Left);
    assert_eq!(app.selected_task_index, 1);
    assert_eq!(app.current().unwrap().0.id, "2");
    let mut expected = before.clone();
    expected.drain(2..4);
    assert_eq!(shown(&app), expected);
    assert_eq!(
        shown(&app),
        vec![row("1", 0), row("2", 1), row("5", 1), row("6", 0), row("7", 0), row("8", 1)]
    );
    assert!(app.expanded_tasks.contains("1"));
    assert!(app.expanded_tasks.contains("7"));
}

#[test]
fn collapse_of_a_row_with_nothing_below_changes_no_row() {
    let mut app = App::new();
    app.tasks = sample();
    app.expanded_tasks.insert("1".to_string());
    app.selected_task_index = 2;
    let before = shown(&app);
    app.handle_key_event(Key::Left);
    assert_eq!(shown(&app), before);
    assert_eq!(app.selected_task_index, 2);
}
