use luna_dial_client::models::{TaskPriority, TaskStatus};

#[test]
fn status_cycle_from_not_started() {
    let s = TaskStatus::NotStarted;
    let s = s.next();
    assert_eq!(s, TaskStatus::InProgress);
    let s = s.next();
    assert_eq!(s, TaskStatus::Completed);
    let s = s.next();
    assert_eq!(s, TaskStatus::Cancelled);
    let s = s.next();
    assert_eq!(s, TaskStatus::NotStarted);
}

#[test]
fn status_cycle_closes_after_four_steps_from_every_status() {
    for start in [
        TaskStatus::NotStarted,
        TaskStatus::InProgress,
        TaskStatus::Completed,
        TaskStatus::Cancelled,
    ] {
        assert_eq!(start.next().next().next().next(), start);
        assert_ne!(start.next(), start);
    }
}

#[test]
fn status_icons() {
    assert_eq!(TaskStatus::NotStarted.icon(), "⭕");
    assert_eq!(TaskStatus::InProgress.icon(), "⏳");
    assert_eq!(TaskStatus::Completed.icon(), "✓");
    assert_eq!(TaskStatus::Cancelled.icon(), "⛔");
}

#[test]
fn priority_labels() {
    assert_eq!(TaskPriority::Low.display(), "[低]");
    assert_eq!(TaskPriority::Medium.display(), "[中]");
    assert_eq!(TaskPriority::High.display(), "[高]");
    assert_eq!(TaskPriority::Urgent.display(), "[急]");
}
