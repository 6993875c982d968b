use dooit_tasks::SortMode;
use dooit_tasks::Task;
use dooit_tasks::Urgency;
use dooit_tasks::sort_tasks;

#[test]
fn test_task_name_sorting_asc() {
    let tasks = vec![
        Task::new("c").with_ugency(Urgency::Medium),
        Task::new("b").with_ugency(Urgency::High),
        Task::new("b").with_ugency(Urgency::Low),
        Task::new("a").with_ugency(Urgency::Medium),
        Task::new("a"),
    ];
    let expect = vec![
        Task::new("a").with_ugency(Urgency::Medium),
        Task::new("a"),
        Task::new("b").with_ugency(Urgency::High),
        Task::new("b").with_ugency(Urgency::Low),
        Task::new("c").with_ugency(Urgency::Medium),
    ];
    let tasks = sort_tasks(tasks, SortMode::NameAscending);
    assert_eq!(tasks, expect);
}

#[test]
fn test_task_name_sorting_des() {
    let tasks = vec![
        Task::new("a").with_ugency(Urgency::Medium),
        Task::new("a"),
        Task::new("b").with_ugency(Urgency::High),
        Task::new("b").with_ugency(Urgency::Low),
        Task::new("c").with_ugency(Urgency::Medium),
    ];
    let expect = vec![
        Task::new("c").with_ugency(Urgency::Medium),
        Task::new("b").with_ugency(Urgency::High),
        Task::new("b").with_ugency(Urgency::Low),
        Task::new("a").with_ugency(Urgency::Medium),
        Task::new("a"),
    ];
    let tasks = sort_tasks(tasks, SortMode::NameDescending);
    assert_eq!(tasks, expect);
}

#[test]
fn urgency_descending_orders_most_urgent_first() {
    let tasks = vec![
        Task::new("A").with_ugency(Urgency::Medium),
        Task::new("B").with_ugency(Urgency::High),
        Task::new("C").with_ugency(Urgency::Low),
    ];
    let expect = vec![
        Task::new("B").with_ugency(Urgency::High),
        Task::new("A").with_ugency(Urgency::Medium),
        Task::new("C").with_ugency(Urgency::Low),
    ];
    assert_eq!(sort_tasks(tasks, SortMode::UrgencyDescending), expect);
}

#[test]
fn urgency_ascending_orders_least_urgent_first() {
    let tasks = vec![
        Task::new("A").with_ugency(Urgency::Medium),
        Task::new("B").with_ugency(Urgency::High),
        Task::new("C").with_ugency(Urgency::Low),
    ];
    let expect = vec![
        Task::new("C").with_ugency(Urgency::Low),
        Task::new("A").with_ugency(Urgency::Medium),
        Task::new("B").with_ugency(Urgency::High),
    ];
    assert_eq!(sort_tasks(tasks, SortMode::UrgencyAscending), expect);
}

#[test]
fn days_left_ascending_puts_earliest_date_first_and_undated_last() {
    let jan_first: i64 = 1704067200;
    let jan_second: i64 = 1704153600;
    let tasks = vec![
        Task::new("A"),
        Task::new("B").with_due_date(jan_second),
        Task::new("C").with_due_date(jan_first),
    ];
    let expect = vec![
        Task::new("C").with_due_date(jan_first),
        Task::new("B").with_due_date(jan_second),
        Task::new("A"),
    ];
    assert_eq!(sort_tasks(tasks, SortMode::DaysLeftAscending), expect);
}

#[test]
fn days_left_descending_puts_undated_first_then_latest_date() {
    let jan_first: i64 = 1704067200;
    let jan_second: i64 = 1704153600;
    let tasks = vec![
        Task::new("A"),
        Task::new("B").with_due_date(jan_second),
        Task::new("C").with_due_date(jan_first),
    ];
    let expect = vec![
        Task::new("A"),
        Task::new("B").with_due_date(jan_second),
        Task::new("C").with_due_date(jan_first),
    ];
    assert_eq!(sort_tasks(tasks, SortMode::DaysLeftDescending), expect);
}

#[test]
fn sorting_twice_gives_the_same_sequence() {
    let tasks = vec![
        Task::new("c").with_ugency(Urgency::Medium).with_due_date(5),
        Task::new("a").with_due_date(9),
        Task::new("b").with_ugency(Urgency::High),
        Task::new("a").with_ugency(Urgency::Low),
    ];
    for mode in [
        SortMode::UrgencyAscending,
        SortMode::UrgencyDescending,
        SortMode::DaysLeftAscending,
        SortMode::DaysLeftDescending,
        SortMode::NameAscending,
        SortMode::NameDescending,
    ] {
        let once = sort_tasks(tasks.clone(), mode);
        let twice = sort_tasks(once.clone(), mode);
        assert_eq!(once, twice);
    }
}

#[test]
fn sorted_output_is_a_permutation_of_the_input() {
    let tasks = vec![
        Task::new("b").with_due_date(7),
        Task::new("a").with_ugency(Urgency::High),
        Task::new("b").with_due_date(7),
        Task::new("c").complete(),
    ];
    for mode in [
        SortMode::UrgencyAscending,
        SortMode::UrgencyDescending,
        SortMode::DaysLeftAscending,
        SortMode::DaysLeftDescending,
        SortMode::NameAscending,
        SortMode::NameDescending,
    ] {
        let sorted = sort_tasks(tasks.clone(), mode);
        assert_eq!(sorted.len(), tasks.len());
        for t in &tasks {
            let in_input = tasks.iter().filter(|u| *u == t).count();
            let in_output = sorted.iter().filter(|u| *u == t).count();
            assert_eq!(in_input, in_output);
        }
    }
}

#[test]
fn empty_input_yields_empty_output_for_every_mode() {
    for mode in [
        SortMode::UrgencyAscending,
        SortMode::UrgencyDescending,
        SortMode::DaysLeftAscending,
        SortMode::DaysLeftDescending,
        SortMode::NameAscending,
        SortMode::NameDescending,
    ] {
        let sorted = sort_tasks(Vec::new(), mode);
        assert!(sorted.is_empty());
    }
}

#[test]
fn urgency_descending_breaks_urgency_ties_by_due_then_name() {
    let tasks = vec![
        Task::new("z").with_ugency(Urgency::High),
        Task::new("a").with_ugency(Urgency::High).with_due_date(3),
        Task::new("m").with_ugency(Urgency::High).with_due_date(1),
    ];
    let expect = vec![
        Task::new("m").with_ugency(Urgency::High).with_due_date(1),
        Task::new("a").with_ugency(Urgency::High).with_due_date(3),
        Task::new("z").with_ugency(Urgency::High),
    ];
    assert_eq!(sort_tasks(tasks, SortMode::UrgencyDescending), expect);
}
