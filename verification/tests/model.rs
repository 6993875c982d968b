use dooit_tasks::SortMode;
use dooit_tasks::Task;
use dooit_tasks::Urgency;

#[test]
fn new_task_has_defaults() {
    let t = Task::new("plants/water");
    assert_eq!(t.name, "plants/water");
    assert_eq!(t.description, None);
    assert_eq!(t.due, None);
    assert_eq!(t.urgency, Urgency::Low);
    assert!(!t.completed);
}

#[test]
fn builders_set_each_field() {
    let t = Task::new("errand")
        .with_description(String::from("buy milk"))
        .with_due_date(42)
        .with_ugency(Urgency::High)
        .complete();
    assert_eq!(t.name, "errand");
    assert_eq!(t.description.as_deref(), Some("buy milk"));
    assert_eq!(t.due, Some(42));
    assert_eq!(t.urgency, Urgency::High);
    assert!(t.completed);
}

#[test]
fn task_equality_compares_every_field() {
    let a = Task::new("a").with_due_date(1);
    let b = Task::new("a").with_due_date(1);
    assert_eq!(a, b);
    assert_ne!(a, Task::new("a"));
    assert_ne!(a, Task::new("b").with_due_date(1));
    assert_ne!(a, Task::new("a").with_due_date(2));
    assert_ne!(a, a.clone().complete());
    assert_ne!(a, a.clone().with_ugency(Urgency::Medium));
    assert_ne!(a, a.clone().with_description(String::from("x")));
}

#[test]
fn default_sort_mode_is_urgency_descending() {
    assert_eq!(SortMode::default(), SortMode::UrgencyDescending);
}

#[test]
fn default_urgency_is_low() {
    assert_eq!(Urgency::default(), Urgency::Low);
}
