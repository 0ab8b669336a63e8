use luna_dial_client::app::{App, Key, ViewMode};
use luna_dial_client::models::{Period, PeriodType, Task, TaskPriority, TaskStatus, Timestamp};
use luna_dial_client::screen::{nav_bar, popup_margin, row_line, row_marker, task_lines, RowMarker};
use luna_dial_client::session::Session;

fn item(id: &str, status: TaskStatus, children: Vec<Task>) -> Task {
    Task {
        id: id.to_string(),
        title: format!("task {}", id),
        task_type: PeriodType::Daily,
        time_period: Period {
            start: Timestamp { secs: 0, nanos: 0 },
            end: Timestamp { secs: 86_400, nanos: 0 },
        },
        status,
        tags: vec![],
        icon: String::new(),
        score: 0,
        priority: TaskPriority::Low,
        parent_id: None,
        user_id: String::new(),
        created_at: Timestamp { secs: 0, nanos: 0 },
        updated_at: Timestamp { secs: 0, nanos: 0 },
        has_children: !children.is_empty(),
        children_count: children.len() as u32,
        tree_depth: 0,
        root_task_id: None,
        children,
    }
}

fn forest() -> Vec<Task> {
    vec![
        item(
            "1",
            TaskStatus::NotStarted,
            vec![
                item("2", TaskStatus::InProgress, vec![item("3", TaskStatus::Completed, vec![])]),
                item("5", TaskStatus::Cancelled, vec![]),
            ],
        ),
        item("6", TaskStatus::Completed, vec![]),
    ]
}

#[test]
fn task_lines_show_pointer_indent_marker_icon_and_title() {
    let mut app = App::new();
    app.tasks = forest();
    app.expanded_tasks.insert("1".to_string());
    app.selected_task_index = 1;
    assert_eq!(
        task_lines(&app),
        vec![
            "  ▼ ⭕ task 1".to_string(),
            "►   ▶ ⏳ task 2".to_string(),
            "      ⛔ task 5".to_string(),
            "    ✓ task 6".to_string(),
        ]
    );
}

#[test]
fn task_lines_indent_two_blanks_per_level() {
    let mut app = App::new();
    app.tasks = forest();
    app.expanded_tasks.insert("1".to_string());
    app.expanded_tasks.insert("2".to_string());
    app.selected_task_index = 2;
    let lines = task_lines(&app);
    assert_eq!(lines.len(), 5);
    assert_eq!(lines[1], "    ▼ ⏳ task 2");
    assert_eq!(lines[2], "►       ✓ task 3");
}

#[test]
fn task_lines_of_an_empty_forest_are_none() {
    let app = App::new();
    assert!(task_lines(&app).is_empty());
}

#[test]
fn row_marker_goes_by_the_reported_children() {
    let mut app = App::new();
    let mut parent = item("1", TaskStatus::NotStarted, vec![item("2", TaskStatus::NotStarted, vec![])]);
    assert_eq!(row_marker(&app, &parent), RowMarker::Collapsed);
    app.expanded_tasks.insert("1".to_string());
    assert_eq!(row_marker(&app, &parent), RowMarker::Expanded);
    parent.has_children = false;
    assert_eq!(row_marker(&app, &parent), RowMarker::Leaf);
    assert_eq!(RowMarker::Expanded.glyph(), "▼ ");
    assert_eq!(RowMarker::Collapsed.glyph(), "▶ ");
    assert_eq!(RowMarker::Leaf.glyph(), "  ");
}

#[test]
fn row_line_matches_the_formatted_row() {
    let app = App::new();
    let task = item("9", TaskStatus::InProgress, vec![]);
    for depth in [0usize, 1, 4] {
        for selected in [false, true] {
            let expected = format!(
                "{}{}{}{} {}",
                if selected { "► " } else { "  " },
                " ".repeat(depth * 2),
                "  ",
                "⏳",
                "task 9"
            );
            assert_eq!(row_line(&app, &task, depth, selected), expected);
        }
    }
}

#[test]
fn nav_bar_highlights_the_mode_in_view() {
    let mut app = App::new();
    assert_eq!(
        nav_bar(&app),
        vec![
            ("[今日]", false),
            ("[本周]", false),
            ("[本月]", false),
            ("[本季度]", false),
            ("[本年]", false),
            ("[执行情况]", false),
            ("[自定义时间]", false),
            ("[全局任务]", true),
        ]
    );
    app.handle_key_event(Key::Tab);
    let bar = nav_bar(&app);
    assert_eq!(bar[0], ("[今日]", true));
    assert_eq!(bar.iter().filter(|entry| entry.1).count(), 1);
}

#[test]
fn view_mode_titles_and_lists() {
    assert_eq!(ViewMode::GlobalTree.title(), "全局任务树");
    assert_eq!(ViewMode::Today.title(), "今日");
    assert_eq!(ViewMode::ThisWeek.title(), "本周");
    assert_eq!(ViewMode::ThisMonth.title(), "本月");
    assert_eq!(ViewMode::ThisQuarter.title(), "本季度");
    assert_eq!(ViewMode::ThisYear.title(), "本年");
    assert_eq!(ViewMode::ExecutionStats.title(), "执行情况");
    assert_eq!(ViewMode::CustomTime.title(), "自定义时间");
    assert!(ViewMode::GlobalTree.lists_tasks());
    assert!(ViewMode::Today.lists_tasks());
    assert!(!ViewMode::ThisWeek.lists_tasks());
    assert!(!ViewMode::CustomTime.lists_tasks());
    assert_eq!(ViewMode::default(), ViewMode::GlobalTree);
}

#[test]
fn popup_margin_splits_what_is_left() {
    assert_eq!(popup_margin(60), 20);
    assert_eq!(popup_margin(20), 40);
    assert_eq!(popup_margin(100), 0);
    assert_eq!(popup_margin(0), 50);
    assert_eq!(popup_margin(99), 0);
}

#[test]
fn session_holds_at_most_one_token() {
    let mut session = Session::new();
    assert!(session.auth_token.is_none());
    session.set_auth_token("abc".to_string());
    assert_eq!(session.auth_token.as_deref(), Some("abc"));
    session.set_auth_token("def".to_string());
    assert_eq!(session.auth_token.as_deref(), Some("def"));
    session.clear_auth_token();
    assert!(session.auth_token.is_none());
    assert!(Session::default().auth_token.is_none());
}
