use vstd::prelude::*;

verus! {

/// The kinds of failure that the task operations report.
#[derive(Debug, Clone, Copy, PartialEq, Eq, Structural)]
pub enum SuaideError {
    /// No known sub-command was requested.
    SubCommandNotFound,
    /// A required argument or token is missing or malformed.
    IncorrectArgs,
    /// A lookup by ticket or id matched no task.
    NotFound,
    /// An insert or update would give two tasks the same ticket.
    TicketAlreadyExistsError,
    /// A date matched neither accepted input format.
    DateFormatError,
    /// A wall-clock time does not exist, or cannot be represented, in the local time zone.
    InvalidLocalTime,
    /// The store cannot take another task.
    StorageError,
}

impl SuaideError {
    /// A short human-readable description of the error.
    pub fn message(&self) -> (r: &'static str)
        ensures
            r@ == (match self {
                SuaideError::SubCommandNotFound => "Sub-command not found"@,
                SuaideError::IncorrectArgs => "Incorrect arguments passed"@,
                SuaideError::NotFound => "Task not found"@,
                SuaideError::TicketAlreadyExistsError => "Ticket already exists"@,
                SuaideError::DateFormatError => "Expected date in either format DD MMM YYYY or YYYY-MM-DD"@,
                SuaideError::InvalidLocalTime => "Time does not exist in the local time zone"@,
                SuaideError::StorageError => "Task store is full"@,
            }),
    {
        match self {
            SuaideError::SubCommandNotFound => "Sub-command not found",
            SuaideError::IncorrectArgs => "Incorrect arguments passed",
            SuaideError::NotFound => "Task not found",
            SuaideError::TicketAlreadyExistsError => "Ticket already exists",
            SuaideError::DateFormatError => "Expected date in either format DD MMM YYYY or YYYY-MM-DD",
            SuaideError::InvalidLocalTime => "Time does not exist in the local time zone",
            SuaideError::StorageError => "Task store is full",
        }
    }
}

} // verus!
