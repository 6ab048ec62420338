//! Sparse partial updates of a task: only the fields that differ from the
//! task's current values are recorded, and a change of status brings the
//! matching change of the closing timestamp with it.
use vstd::prelude::*;

use crate::status::Status;
use crate::task::{Task, TaskView};
use crate::text::{opt_clone, opt_str_eq, opt_view, str_eq};

verus! {

/// Fields to change; `None` leaves a field as it is. For the nullable
/// fields, `Some(None)` clears the field.
pub struct TaskChangeSet {
    pub ticket: Option<Option<String>>,
    pub description: Option<String>,
    pub status: Option<Status>,
    pub closed: Option<Option<i64>>,
}

/// A change set as a mathematical value.
pub struct ChangeSetView {
    pub ticket: Option<Option<Seq<char>>>,
    pub description: Option<Seq<char>>,
    pub status: Option<Status>,
    pub closed: Option<Option<i64>>,
}

impl View for TaskChangeSet {
    type V = ChangeSetView;

    open spec fn view(&self) -> ChangeSetView {
        ChangeSetView {
            ticket: match self.ticket {
                Some(t) => Some(opt_view(&t)),
                None => None,
            },
            description: match self.description {
                Some(d) => Some(d@),
                None => None,
            },
            status: self.status,
            closed: self.closed,
        }
    }
}

/// The change set that changes nothing.
pub open spec fn no_change() -> ChangeSetView {
    ChangeSetView { ticket: None, description: None, status: None, closed: None }
}

/// The task after the changes of `c`.
pub open spec fn applied(t: TaskView, c: ChangeSetView) -> TaskView {
    TaskView {
        id: t.id,
        ticket: match c.ticket {
            Some(x) => x,
            None => t.ticket,
        },
        description: match c.description {
            Some(d) => d,
            None => t.description,
        },
        status: match c.status {
            Some(s) => s,
            None => t.status,
        },
        opened: t.opened,
        closed: match c.closed {
            Some(x) => x,
            None => t.closed,
        },
    }
}

/// `c` with the description set to `d` where that differs from the task's;
/// otherwise `c` as it was.
pub open spec fn with_description(c: ChangeSetView, t: TaskView, d: Seq<char>) -> ChangeSetView {
    ChangeSetView {
        description: if d != t.description {
            Some(d)
        } else {
            c.description
        },
        ..c
    }
}

/// `c` with the ticket set to `tk` where that differs from the task's;
/// otherwise `c` as it was.
pub open spec fn with_ticket(c: ChangeSetView, t: TaskView, tk: Option<Seq<char>>) -> ChangeSetView {
    ChangeSetView {
        ticket: if tk != t.ticket {
            Some(tk)
        } else {
            c.ticket
        },
        ..c
    }
}

/// `c` with the closing timestamp set to `cl` where that differs from the
/// task's; otherwise `c` as it was.
pub open spec fn with_closed(c: ChangeSetView, t: TaskView, cl: Option<i64>) -> ChangeSetView {
    ChangeSetView {
        closed: if cl != t.closed {
            Some(cl)
        } else {
            c.closed
        },
        ..c
    }
}

/// `c` with the status set to `s`. A change to a terminal status also closes
/// the task at `now`, unless `c` already holds a closing time; a change to a
/// non-terminal status clears the closing time. The task's own status leaves
/// `c` as it was.
pub open spec fn with_status(c: ChangeSetView, t: TaskView, s: Status, now: i64) -> ChangeSetView {
    if s != t.status {
        let c1 = ChangeSetView { status: Some(s), ..c };
        if s.terminal() {
            if c.closed matches Some(Some(_)) {
                c1
            } else {
                with_closed(c1, t, Some(now))
            }
        } else {
            with_closed(c1, t, None)
        }
    } else {
        c
    }
}

/// The changes that turn task `t` into one with description `d`, ticket `tk`
/// and status `s`, a terminal status being reached at `now`.
pub open spec fn edit_changes(t: TaskView, d: Seq<char>, tk: Option<Seq<char>>, s: Status, now: i64) -> ChangeSetView {
    with_status(with_ticket(with_description(no_change(), t, d), t, tk), t, s, now)
}

impl TaskChangeSet {
    /// The change set that changes nothing.
    pub fn new() -> (r: TaskChangeSet)
        ensures
            r@ == no_change(),
    {
        TaskChangeSet { ticket: None, description: None, status: None, closed: None }
    }

    /// Whether the change set changes nothing.
    pub fn is_empty(&self) -> (r: bool)
        ensures
            r == (self@ == no_change()),
    {
        self.ticket.is_none() && self.description.is_none() && self.status.is_none() && self.closed.is_none()
    }

    /// Records the description if it differs from the task's; else leaves the
    /// change set as it is.
    pub fn set_description(&mut self, task: &Task, description: String)
        ensures
            final(self)@ == with_description(old(self)@, task@, description@),
    {
        if !str_eq(task.description.as_str(), description.as_str()) {
            self.description = Some(description);
        }
    }

    /// Records the ticket if it differs from the task's; else leaves the change
    /// set as it is.
    pub fn set_ticket(&mut self, task: &Task, ticket: Option<String>)
        ensures
            final(self)@ == with_ticket(old(self)@, task@, opt_view(&ticket)),
    {
        if !opt_str_eq(&task.ticket, &ticket) {
            self.ticket = Some(ticket);
        }
    }

    /// Records the closing time if it differs from the task's; else leaves the
    /// change set as it is.
    pub fn set_closed(&mut self, task: &Task, closed: Option<i64>)
        ensures
            final(self)@ == with_closed(old(self)@, task@, closed),
    {
        if task.closed != closed {
            self.closed = Some(closed);
        }
    }

    /// Sets the status, with the closing time that goes with it (see
    /// `with_status`); `now` is the current timestamp.
    pub fn set_status(&mut self, task: &Task, status: Status, now: i64)
        ensures
            final(self)@ == with_status(old(self)@, task@, status, now),
    {
        if task.status != status {
            self.status = Some(status);
            if status.is_terminal() {
                let explicit = match self.closed {
                    Some(Some(_)) => true,
                    _ => false,
                };
                if !explicit {
                    self.set_closed(task, Some(now));
                }
            } else {
                self.set_closed(task, None);
            }
        }
    }

    /// The changes of an edit: the task's description, ticket and status
    /// replaced by the given ones.
    pub fn from_edit(task: &Task, description: String, ticket: Option<String>, status: Status, now: i64) -> (r: TaskChangeSet)
        ensures
            r@ == edit_changes(task@, description@, opt_view(&ticket), status, now),
    {
        let mut change_set = TaskChangeSet::new();
        change_set.set_description(task, description);
        change_set.set_ticket(task, ticket);
        change_set.set_status(task, status, now);
        change_set
    }

    /// The changes that set the status of a task.
    pub fn from_status(task: &Task, status: Status, now: i64) -> (r: TaskChangeSet)
        ensures
            r@ == with_status(no_change(), task@, status, now),
    {
        let mut change_set = TaskChangeSet::new();
        change_set.set_status(task, status, now);
        change_set
    }

    /// The task with the changes made.
    pub fn apply(&self, task: &Task) -> (r: Task)
        ensures
            r@ == applied(task@, self@),
    {
        Task {
            id: task.id,
            ticket: match &self.ticket {
                Some(t) => opt_clone(t),
                None => opt_clone(&task.ticket),
            },
            description: match &self.description {
                Some(d) => d.clone(),
                None => task.description.clone(),
            },
            status: match self.status {
                Some(s) => s,
                None => task.status,
            },
            opened: task.opened,
            closed: match self.closed {
                Some(c) => c,
                None => task.closed,
            },
        }
    }
}

/// An edit that keeps every field of a task changes nothing, and applying
/// no change leaves the task as it is.
pub proof fn lemma_edit_to_itself_is_empty(t: TaskView, now: i64)
    ensures
        edit_changes(t, t.description, t.ticket, t.status, now) == no_change(),
        applied(t, no_change()) == t,
{
}

/// Setting a status on a well-formed task, through a change set that records
/// no status and no closing time yet, leaves it well-formed with that status:
/// a terminal status comes with a closing time, any other without one.
pub proof fn lemma_status_sets_closed(t: TaskView, c: ChangeSetView, s: Status, now: i64)
    requires
        t.wf(),
        c.status is None,
        c.closed is None,
    ensures
        applied(t, with_status(c, t, s, now)).status == s,
        applied(t, with_status(c, t, s, now)).wf(),
        s.terminal() ==> applied(t, with_status(c, t, s, now)).closed is Some,
        !s.terminal() ==> applied(t, with_status(c, t, s, now)).closed is None,
{
}

} // verus!
