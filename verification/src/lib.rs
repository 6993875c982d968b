//! A personal task tracker's core: the task record model, the filter stage,
//! and a sorting engine that orders tasks by one of six multi-key policies.
//! Reading and writing the on-disk store, the command line and the editor
//! launcher live outside this library; it works on plain in-memory values.

pub mod dates;
pub mod filter;
pub mod order;
pub mod render;
pub mod sorting;
pub mod tasks;

pub use dates::parse_date;
pub use filter::filter_tasks;
pub use sorting::sort_tasks;
pub use tasks::SortMode;
pub use tasks::Task;
pub use tasks::Urgency;
