use nagger::progress::Completion;
use nagger::task::{Task, TaskBuilder, TaskImportance, TaskStatus};

const DAY_MS: i64 = 24 * 60 * 60 * 1000;

#[test]
fn task_importance_ord() {
    assert!(TaskImportance::Critical > TaskImportance::Important);
}

#[test]
fn task_build_new() {
    let deadline = chrono::Local::now().timestamp_millis() + 10 * DAY_MS;
    let task = Task::new(
        TaskBuilder::new()
            .name("test")
            .deadline(deadline)
            .importance(TaskImportance::Critical)
            .status(TaskStatus::OnHold),
    );
    assert_eq!("test", task.name());
    assert_eq!(deadline, task.deadline().unwrap());
    assert_eq!(TaskImportance::Critical, task.importance());
    assert_eq!(TaskStatus::OnHold, task.status());
}

#[test]
fn task_completed_basic() {
    let mut task = Task::default();
    task.add_note(String::new(), Some(40));
    assert_eq!(Completion::new(40), task.completion());
}

fn tree() -> Task {
    Task::new(
        TaskBuilder::new()
            .name("root")
            .add_subtask(TaskBuilder::new().name("a"))
            .add_subtask(TaskBuilder::new().name("b").add_subtask(TaskBuilder::new().name("b1"))),
    )
}

#[test]
fn defaults_of_an_empty_builder() {
    let t = Task::default();
    assert_eq!(t.name(), "new task...");
    assert_eq!(t.deadline(), None);
    assert_eq!(t.importance(), TaskImportance::Normal);
    assert_eq!(t.status(), TaskStatus::InProgress);
    assert_eq!(t.subtasks_iter().count(), 0);
    assert_ne!(t.id(), Task::default().id());
}

#[test]
fn subtasks_are_built_in_order() {
    let t = tree();
    let names: Vec<&str> = t.subtasks_iter().map(|s| s.name()).collect();
    assert_eq!(names, vec!["a", "b"]);
}

#[test]
fn pause_and_resume_whole_tree() {
    let mut t = tree();
    assert!(t.pause().is_ok());
    assert_eq!(t.status(), TaskStatus::OnHold);
    assert!(t.subtasks_iter().all(|s| s.status() == TaskStatus::OnHold));
    assert!(t.pause().is_err());
    assert!(t.resume().is_ok());
    assert_eq!(t.status(), TaskStatus::InProgress);
    assert!(t.subtasks_iter().all(|s| s.status() == TaskStatus::InProgress));
    assert!(t.resume().is_ok());
}

#[test]
fn pause_with_a_subtask_not_in_progress_changes_nothing() {
    let mut t = Task::new(
        TaskBuilder::new()
            .name("root")
            .add_subtask(TaskBuilder::new().name("done").status(TaskStatus::Completed)),
    );
    let err = t.pause().unwrap_err();
    assert_eq!(err.to_string(), "Invalid status: Task root is not currently in progress!");
    assert_eq!(t.status(), TaskStatus::InProgress);
}

#[test]
fn complete_then_restart() {
    let mut t = tree();
    t.add_note("half".to_string(), Some(50));
    assert!(t.complete().is_ok());
    assert_eq!(t.completion().val(), 100);
    assert!(t.subtasks_iter().all(|s| s.status() == TaskStatus::Completed));
    let err = t.complete().unwrap_err();
    assert_eq!(err.to_string(), "Invalid status: Task root is already complete!");
    assert!(t.resume().is_err());
    assert!(t.restart().is_ok());
    assert_eq!(t.status(), TaskStatus::InProgress);
    assert_eq!(t.completion().val(), 0);
    let err = t.restart().unwrap_err();
    assert_eq!(err.to_string(), "Invalid status: Task root has not been completed yet!");
}

#[test]
fn completion_averages_notes_and_subtasks() {
    let mut t = Task::new(
        TaskBuilder::new()
            .name("root")
            .add_subtask(TaskBuilder::new().name("done").status(TaskStatus::Completed))
            .add_subtask(TaskBuilder::new().name("open")),
    );
    t.add_note(String::new(), Some(30));
    t.add_note(String::new(), None);
    t.add_note(String::new(), Some(20));
    // (50 + 100 + 0) / 3
    assert_eq!(t.completion().val(), 50);
    let (parts, breakdown) = t.completion_breakdown();
    assert_eq!(parts, 3);
    assert_eq!(breakdown[0], ("notes_only", Completion::new(50)));
    assert_eq!(breakdown[1], ("done", Completion::full()));
    assert_eq!(breakdown[2], ("open", Completion::zero()));
}

#[test]
fn notes_stop_at_full() {
    let mut t = Task::default();
    t.add_note(String::new(), Some(70));
    t.add_note(String::new(), Some(70));
    assert_eq!(t.completion().val(), 100);
}

#[test]
fn reset_clears_notes_and_status() {
    let mut t = tree();
    t.add_note("x".to_string(), Some(10));
    t.complete().unwrap();
    t.reset();
    assert_eq!(t.status(), TaskStatus::InProgress);
    assert_eq!(t.completion().val(), 0);
    assert!(t.subtasks_iter().all(|s| s.status() == TaskStatus::InProgress));
}

#[test]
fn importance_and_deadline_changes() {
    let mut t = Task::default();
    assert_eq!(t.change_importance(TaskImportance::Normal), None);
    assert_eq!(t.change_importance(TaskImportance::Casual), Some(TaskImportance::Normal));
    assert_eq!(t.importance(), TaskImportance::Casual);
    assert_eq!(t.extend_deadline(DAY_MS), None);
    assert_eq!(t.deadline(), None);
    assert_eq!(t.change_deadline(1_000), None);
    assert_eq!(t.extend_deadline(DAY_MS), Some(1_000));
    assert_eq!(t.deadline(), Some(1_000 + DAY_MS));
    assert_eq!(t.change_deadline(5), Some(1_000 + DAY_MS));
    assert_eq!(t.remove_deadline(), Some(5));
    assert_eq!(t.deadline(), None);
}
