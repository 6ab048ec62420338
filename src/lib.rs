//! Task tracking core: task records and their status lifecycle, partial
//! updates through change sets, list ordering, an in-memory task store, and
//! the resolution of named timeframes into timestamp windows.
pub mod error;
pub mod text;
pub mod status;
pub mod date;
pub mod timeframe;
pub mod window;
pub mod task;
pub mod changeset;
pub mod store;
pub mod settings;

pub use changeset::TaskChangeSet;
pub use date::LocalDate;
pub use error::SuaideError;
pub use settings::Settings;
pub use status::Status;
pub use store::{Selection, TaskStore};
pub use task::{sort_tasks, Task};
pub use timeframe::Timeframe;
pub use window::{
    calculate_duration_from_dates, calculate_duration_from_timeframe, local_window,
    list_window, local_window_between, local_window_from_dates, parse_local_date,
};
