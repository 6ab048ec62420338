//! The lifecycle state of a task.
use vstd::prelude::*;

use crate::error::SuaideError;
use crate::text::str_eq;

verus! {

/// Where a task stands. Any state may be set from any other; the order of
/// declaration is the display precedence (`Open` first).
#[derive(Debug, Clone, Copy, PartialEq, Eq, Hash, Structural)]
pub enum Status {
    Open,
    InProgress,
    Closed,
    Cancelled,
}

/// The status named by one of the accepted words, if any.
pub open spec fn status_named(s: Seq<char>) -> Option<Status> {
    if s == "open"@ || s == "o"@ {
        Some(Status::Open)
    } else if s == "in-progress"@ || s == "inprogress"@ || s == "progress"@ || s == "ip"@ {
        Some(Status::InProgress)
    } else if s == "closed"@ || s == "close"@ || s == "c"@ {
        Some(Status::Closed)
    } else if s == "cancel"@ || s == "cancelled"@ {
        Some(Status::Cancelled)
    } else {
        None
    }
}

impl Status {
    /// Position in the display order, which is also the stored code.
    pub open spec fn rank(self) -> int {
        match self {
            Status::Open => 0,
            Status::InProgress => 1,
            Status::Closed => 2,
            Status::Cancelled => 3,
        }
    }

    /// Closed and Cancelled carry a closing timestamp; the others do not.
    pub open spec fn terminal(self) -> bool {
        self == Status::Closed || self == Status::Cancelled
    }

    /// The status with the given position in the display order.
    pub open spec fn of_rank(i: int) -> Option<Status> {
        if i == 0 {
            Some(Status::Open)
        } else if i == 1 {
            Some(Status::InProgress)
        } else if i == 2 {
            Some(Status::Closed)
        } else if i == 3 {
            Some(Status::Cancelled)
        } else {
            None
        }
    }

    pub fn is_terminal(&self) -> (r: bool)
        ensures
            r == self.terminal(),
    {
        match self {
            Status::Closed | Status::Cancelled => true,
            _ => false,
        }
    }

    /// The code under which the status is stored.
    pub fn as_i16(&self) -> (r: i16)
        ensures
            r as int == self.rank(),
            Status::of_rank(r as int) == Some(*self),
    {
        match self {
            Status::Open => 0,
            Status::InProgress => 1,
            Status::Closed => 2,
            Status::Cancelled => 3,
        }
    }

    /// The status stored under a code; `None` for a code that names none.
    pub fn from_i16(i: i16) -> (r: Option<Status>)
        ensures
            r == Status::of_rank(i as int),
            r matches Some(s) ==> s.rank() == i as int,
    {
        match i {
            0 => Some(Status::Open),
            1 => Some(Status::InProgress),
            2 => Some(Status::Closed),
            3 => Some(Status::Cancelled),
            _ => None,
        }
    }

    /// Reads a status from one of its accepted words (`open`, `o`,
    /// `in-progress`, `inprogress`, `progress`, `ip`, `closed`, `close`, `c`,
    /// `cancel`, `cancelled`); any other word is `IncorrectArgs`.
    pub fn parse(s: &str) -> (r: Result<Status, SuaideError>)
        ensures
            r == (match status_named(s@) {
                Some(st) => Ok(st),
                None => Err(SuaideError::IncorrectArgs),
            }),
    {
        if str_eq(s, "open") || str_eq(s, "o") {
            Ok(Status::Open)
        } else if str_eq(s, "in-progress") || str_eq(s, "inprogress") || str_eq(s, "progress")
            || str_eq(s, "ip") {
            Ok(Status::InProgress)
        } else if str_eq(s, "closed") || str_eq(s, "close") || str_eq(s, "c") {
            Ok(Status::Closed)
        } else if str_eq(s, "cancel") || str_eq(s, "cancelled") {
            Ok(Status::Cancelled)
        } else {
            Err(SuaideError::IncorrectArgs)
        }
    }

    /// The word shown for the status in listings.
    pub fn label(&self) -> (r: &'static str)
        ensures
            r@ == (match self {
                Status::Open => "Open"@,
                Status::InProgress => "In Progress"@,
                Status::Closed => "Completed"@,
                Status::Cancelled => "Cancelled"@,
            }),
    {
        match self {
            Status::Open => "Open",
            Status::InProgress => "In Progress",
            Status::Closed => "Completed",
            Status::Cancelled => "Cancelled",
        }
    }
}

} // verus!
