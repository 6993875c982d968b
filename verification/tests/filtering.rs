use dooit_tasks::Task;
use dooit_tasks::filter_tasks;

const NOW: i64 = 1704067200;

#[test]
fn completed_task_is_excluded_by_default() {
    let tasks = vec![Task::new("done").complete(), Task::new("open")];
    let kept = filter_tasks(tasks, NOW, false, false);
    assert_eq!(kept, vec![Task::new("open")]);
}

#[test]
fn completed_task_is_included_with_the_completed_flag() {
    let tasks = vec![Task::new("done").complete(), Task::new("open")];
    let kept = filter_tasks(tasks.clone(), NOW, true, false);
    assert_eq!(kept, tasks);
}

#[test]
fn overdue_task_is_excluded_by_default() {
    let yesterday = NOW - 86400;
    let tasks = vec![Task::new("late").with_due_date(yesterday), Task::new("open")];
    let kept = filter_tasks(tasks, NOW, false, false);
    assert_eq!(kept, vec![Task::new("open")]);
}

#[test]
fn overdue_task_is_included_with_the_overdue_flag() {
    let yesterday = NOW - 86400;
    let tasks = vec![Task::new("late").with_due_date(yesterday), Task::new("open")];
    let kept = filter_tasks(tasks.clone(), NOW, false, true);
    assert_eq!(kept, tasks);
}

#[test]
fn task_without_due_date_is_never_excluded_by_the_overdue_rule() {
    let tasks = vec![Task::new("whenever")];
    let kept = filter_tasks(tasks.clone(), NOW, false, false);
    assert_eq!(kept, tasks);
}

#[test]
fn task_due_exactly_now_is_kept() {
    let tasks = vec![Task::new("deadline").with_due_date(NOW)];
    let kept = filter_tasks(tasks.clone(), NOW, false, false);
    assert_eq!(kept, tasks);
}
