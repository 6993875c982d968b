//! The task record model: urgency tiers, sort mode selectors, and the task
//! value itself with its builder methods.

use vstd::prelude::*;

verus! {

/// The six ordering policies the sorting engine offers.
#[derive(Debug, Clone, Copy, PartialEq, Eq, Structural)]
pub enum SortMode {
    /// Least urgent first; ties by due date (dated first, earliest first),
    /// then by name.
    UrgencyAscending,
    /// Most urgent first; ties by due date (dated first, earliest first),
    /// then by name.
    UrgencyDescending,
    /// Nearest due date first, undated tasks last; ties by urgency
    /// (most urgent first), then by name.
    DaysLeftAscending,
    /// Undated tasks first, then latest due date first; ties by urgency
    /// (most urgent first), then by name.
    DaysLeftDescending,
    /// Name ascending; ties by urgency (most urgent first), then by due date.
    NameAscending,
    /// Name descending; ties by urgency (most urgent first), then by due date.
    NameDescending,
}

impl Default for SortMode {
    fn default() -> (r: Self)
        ensures
            r == SortMode::UrgencyDescending,
    {
        SortMode::UrgencyDescending
    }
}

/// A closed three-tier priority, ordered `Low < Medium < High`.
#[derive(Debug, Clone, Copy, PartialEq, Eq, Structural)]
pub enum Urgency {
    Low,
    Medium,
    High,
}

impl Default for Urgency {
    fn default() -> (r: Self)
        ensures
            r == Urgency::Low,
    {
        Urgency::Low
    }
}

/// The position of an urgency tier in the `Low < Medium < High` order.
pub open spec fn urgency_rank(u: Urgency) -> int {
    match u {
        Urgency::Low => 0,
        Urgency::Medium => 1,
        Urgency::High => 2,
    }
}

impl Urgency {
    /// The rank of this tier, as executable code: `Low` is 0, `High` is 2.
    pub fn rank(&self) -> (r: u8)
        ensures
            r as int == urgency_rank(*self),
    {
        match self {
            Urgency::Low => 0,
            Urgency::Medium => 1,
            Urgency::High => 2,
        }
    }
}

/// One actionable item. A `/`-separated name groups subtasks under a parent
/// by convention; the due instant, when present, is an absolute timestamp in
/// seconds from the Unix epoch (UTC).
#[derive(Debug, Clone)]
pub struct Task {
    /// Hierarchical identifier; never empty.
    pub name: String,
    /// Optional free text.
    pub description: Option<String>,
    /// Optional absolute due instant, seconds from the Unix epoch (UTC).
    pub due: Option<i64>,
    /// Priority tier, independent of the due date.
    pub urgency: Urgency,
    /// Whether the task is done.
    pub completed: bool,
}

impl Task {
    /// Well-formedness: the name is never empty.
    pub open spec fn wf(self) -> bool {
        self.name@.len() > 0
    }

    /// A fresh task with the given name and every other field defaulted.
    pub fn new(name: &str) -> (r: Self)
        requires
            name@.len() > 0,
        ensures
            r.name@ == name@,
            r.description is None,
            r.due is None,
            r.urgency == Urgency::Low,
            r.completed == false,
            r.wf(),
    {
        Task {
            name: String::from_str(name),
            description: None,
            due: None,
            urgency: Urgency::Low,
            completed: false,
        }
    }

    /// The same task with the due instant set.
    pub fn with_due_date(self, due: i64) -> (r: Self)
        ensures
            r == (Task { due: Some(due), ..self }),
    {
        Task { due: Some(due), ..self }
    }

    /// The same task with the description set.
    pub fn with_description(self, description: String) -> (r: Self)
        ensures
            r == (Task { description: Some(description), ..self }),
    {
        Task { description: Some(description), ..self }
    }

    /// The same task with the urgency replaced.
    pub fn with_ugency(self, urgency: Urgency) -> (r: Self)
        ensures
            r == (Task { urgency, ..self }),
    {
        Task { urgency, ..self }
    }

    /// The same task, marked done.
    pub fn complete(self) -> (r: Self)
        ensures
            r == (Task { completed: true, ..self }),
    {
        Task { completed: true, ..self }
    }
}

/// Value equality over every field, with strings compared by their text.
pub open spec fn task_eq(a: Task, b: Task) -> bool {
    &&& a.name@ == b.name@
    &&& match (a.description, b.description) {
        (Some(x), Some(y)) => x@ == y@,
        (None, None) => true,
        _ => false,
    }
    &&& a.due == b.due
    &&& a.urgency == b.urgency
    &&& a.completed == b.completed
}

impl PartialEq for Task {
    fn eq(&self, other: &Self) -> (r: bool)
        ensures
            r == task_eq(*self, *other),
    {
        let desc_eq = match (&self.description, &other.description) {
            (Some(x), Some(y)) => *x == *y,
            (None, None) => true,
            _ => false,
        };
        let due_eq = match (self.due, other.due) {
            (Some(x), Some(y)) => x == y,
            (None, None) => true,
            _ => false,
        };
        self.name == other.name && desc_eq && due_eq && self.urgency == other.urgency
            && self.completed == other.completed
    }
}

impl vstd::std_specs::cmp::PartialEqSpecImpl for Task {
    open spec fn obeys_eq_spec() -> bool {
        true
    }

    open spec fn eq_spec(&self, other: &Task) -> bool {
        task_eq(*self, *other)
    }
}

} // verus!
