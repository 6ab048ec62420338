//! An in-memory task store: ids assigned on insert, tickets unique, lookup by
//! ticket or by id, partial updates, and the queries behind listings and the
//! stand-up report.
use vstd::prelude::*;
use vstd::seq_lib::group_to_multiset_ensures;

use crate::changeset::{applied, no_change, TaskChangeSet};
use crate::error::SuaideError;
use crate::status::Status;
use crate::task::{sort_tasks, sorted_for_display, task_views, Task, TaskView};
use crate::text::{i32_literal, opt_view, parse_i32, str_eq, opt_str_eq};

verus! {

broadcast use group_to_multiset_ensures;

/// The contents of a store: its tasks in insertion order, and the id that the
/// next insert assigns.
pub struct StoreContents {
    pub tasks: Seq<TaskView>,
    pub next_id: int,
}

/// Which tasks a query selects.
#[derive(Debug, Clone, Copy, PartialEq, Eq, Structural)]
pub enum Selection {
    /// Opened, or closed, within the inclusive window `[start, end]`.
    Window { start: i64, end: i64 },
    /// Still unfinished: Open or InProgress.
    Unfinished,
    /// Worked on in the window `[start, end]`: closed within it, or in
    /// progress and opened before it ended.
    WorkedOn { start: i64, end: i64 },
}

/// The task carries a closing time within `[start, end]`.
pub open spec fn closed_within(t: TaskView, start: i64, end: i64) -> bool {
    match t.closed {
        Some(c) => start <= c <= end,
        None => false,
    }
}

pub open spec fn selected(t: TaskView, which: Selection) -> bool {
    match which {
        Selection::Window { start, end } => (start <= t.opened <= end) || closed_within(t, start, end),
        Selection::Unfinished => t.status == Status::Open || t.status == Status::InProgress,
        Selection::WorkedOn { start, end } => (t.status == Status::Closed && closed_within(t, start, end))
            || (t.status == Status::InProgress && t.opened < end),
    }
}

pub open spec fn holds_ticket(t: TaskView, tk: Seq<char>) -> bool {
    t.ticket == Some(tk)
}

pub open spec fn has_ticket(s: Seq<TaskView>, tk: Seq<char>) -> bool {
    exists|i: int| 0 <= i < s.len() && holds_ticket(#[trigger] s[i], tk)
}

pub open spec fn has_id(s: Seq<TaskView>, id: int) -> bool {
    exists|i: int| 0 <= i < s.len() && #[trigger] s[i].id == id
}

/// Ids are distinct, positive and below `next_id`; tickets are distinct;
/// descriptions are not empty.
pub open spec fn store_wf(v: StoreContents) -> bool {
    &&& 1 <= v.next_id <= i32::MAX + 1
    &&& forall|i: int| 0 <= i < v.tasks.len() ==> (#[trigger] v.tasks[i]).description.len() > 0
    &&& forall|i: int| 0 <= i < v.tasks.len() ==> 1 <= #[trigger] v.tasks[i].id < v.next_id
    &&& forall|i: int, j: int|
        0 <= i < v.tasks.len() && 0 <= j < v.tasks.len() && i != j ==> #[trigger] v.tasks[i].id
            != #[trigger] v.tasks[j].id
    &&& forall|i: int, j: int|
        0 <= i < v.tasks.len() && 0 <= j < v.tasks.len() && i != j && (#[trigger] v.tasks[i]).ticket
            is Some ==> v.tasks[i].ticket != (#[trigger] v.tasks[j]).ticket
}

/// Where a lookup leads: to the task holding `ticket`, or else, if `id_text`
/// is an integer, to the task with that id.
pub open spec fn ticket_or_id_index(s: Seq<TaskView>, ticket: Seq<char>, id_text: Seq<char>) -> Option<int> {
    if has_ticket(s, ticket) {
        Some(choose|i: int| 0 <= i < s.len() && holds_ticket(s[i], ticket))
    } else {
        match i32_literal(id_text) {
            Some(n) => if has_id(s, n as int) {
                Some(choose|i: int| 0 <= i < s.len() && s[i].id == n)
            } else {
                None
            },
            None => None,
        }
    }
}

/// The task that a lookup by `ticket`, else by the id in `id_text`, finds.
pub open spec fn lookup_by(s: Seq<TaskView>, ticket: Seq<char>, id_text: Seq<char>) -> Option<TaskView> {
    match ticket_or_id_index(s, ticket, id_text) {
        Some(i) => Some(s[i]),
        None => None,
    }
}

/// The task a token leads to, if any.
pub open spec fn lookup(s: Seq<TaskView>, token: Seq<char>) -> Option<TaskView> {
    lookup_by(s, token, token)
}

/// The task stored under `id`, if any.
pub open spec fn index_of_id(s: Seq<TaskView>, id: int) -> Option<int> {
    if has_id(s, id) {
        Some(choose|i: int| 0 <= i < s.len() && s[i].id == id)
    } else {
        None
    }
}

/// Whether a task other than the one at `k` holds ticket `tk`.
pub open spec fn ticket_taken_by_other(s: Seq<TaskView>, k: int, tk: Option<Seq<char>>) -> bool {
    tk is Some && exists|i: int| 0 <= i < s.len() && i != k && #[trigger] s[i].ticket == tk
}

pub struct TaskStore {
    tasks: Vec<Task>,
    next_id: i64,
}

impl View for TaskStore {
    type V = StoreContents;

    closed spec fn view(&self) -> StoreContents {
        StoreContents { tasks: task_views(self.tasks@), next_id: self.next_id as int }
    }
}

proof fn lemma_ticket_index_unique(s: Seq<TaskView>, next_id: int, i: int, j: int, tk: Seq<char>)
    requires
        store_wf(StoreContents { tasks: s, next_id }),
        0 <= i < s.len(),
        0 <= j < s.len(),
        holds_ticket(s[i], tk),
        holds_ticket(s[j], tk),
    ensures
        i == j,
{
}

impl TaskStore {
    pub open spec fn wf(&self) -> bool {
        store_wf(self@)
    }

    /// An empty store whose first task gets id 1.
    pub fn new() -> (r: TaskStore)
        ensures
            r.wf(),
            r@.tasks == Seq::<TaskView>::empty(),
            r@.next_id == 1,
    {
        let r = TaskStore { tasks: Vec::new(), next_id: 1 };
        assert(task_views(r.tasks@) =~= Seq::<TaskView>::empty());
        r
    }

    /// The number of tasks held.
    pub fn len(&self) -> (r: usize)
        ensures
            r == self@.tasks.len(),
    {
        self.tasks.len()
    }

    /// Position of the task holding ticket `tk`, if any.
    fn position_of_ticket(&self, tk: &str) -> (r: Option<usize>)
        requires
            self.wf(),
        ensures
            r is Some <==> has_ticket(self@.tasks, tk@),
            r matches Some(i) ==> i < self@.tasks.len() && holds_ticket(self@.tasks[i as int], tk@),
    {
        let ghost s = self@.tasks;
        let mut i: usize = 0;
        while i < self.tasks.len()
            invariant
                s == self@.tasks,
                s == task_views(self.tasks@),
                i <= self.tasks.len(),
                forall|k: int| 0 <= k < i ==> !holds_ticket(#[trigger] s[k], tk@),
            decreases self.tasks.len() - i,
        {
            let hit = match &self.tasks[i].ticket {
                Some(t) => str_eq(t.as_str(), tk),
                None => false,
            };
            assert(s[i as int] == self.tasks@[i as int]@);
            if hit {
                return Some(i);
            }
            i = i + 1;
        }
        None
    }

    /// Position of the task with id `id`, if any.
    fn position_of_id(&self, id: i32) -> (r: Option<usize>)
        requires
            self.wf(),
        ensures
            r is Some <==> has_id(self@.tasks, id as int),
            r matches Some(i) ==> i < self@.tasks.len() && self@.tasks[i as int].id == id,
    {
        let ghost s = self@.tasks;
        let mut i: usize = 0;
        while i < self.tasks.len()
            invariant
                s == self@.tasks,
                s == task_views(self.tasks@),
                i <= self.tasks.len(),
                forall|k: int| 0 <= k < i ==> (#[trigger] s[k]).id != id,
            decreases self.tasks.len() - i,
        {
            assert(s[i as int] == self.tasks@[i as int]@);
            if self.tasks[i].id == id {
                assert(s[i as int].id == id);
                return Some(i);
            }
            i = i + 1;
        }
        None
    }

    /// Position of the task a lookup leads to (see `ticket_or_id_index`).
    fn position_of(&self, ticket: &str, id_text: &str) -> (r: Option<usize>)
        requires
            self.wf(),
        ensures
            r matches Some(i) ==> ticket_or_id_index(self@.tasks, ticket@, id_text@) == Some(i as int),
            r is None ==> ticket_or_id_index(self@.tasks, ticket@, id_text@) is None,
    {
        let ghost s = self@.tasks;
        match self.position_of_ticket(ticket) {
            Some(i) => {
                proof {
                    let c = choose|k: int| 0 <= k < s.len() && holds_ticket(s[k], ticket@);
                    lemma_ticket_index_unique(s, self@.next_id, i as int, c, ticket@);
                }
                Some(i)
            },
            None => match parse_i32(id_text) {
                Some(n) => match self.position_of_id(n) {
                    Some(i) => {
                        proof {
                            let c = choose|k: int| 0 <= k < s.len() && s[k].id == n;
                            assert(s[c].id == s[i as int].id);
                        }
                        Some(i)
                    },
                    None => None,
                },
                None => None,
            },
        }
    }

    /// The task that `token` names: the task holding it as ticket, or else,
    /// if it is an integer, the task with that id; `NotFound` if neither.
    pub fn find(&self, token: &str) -> (r: Result<Task, SuaideError>)
        requires
            self.wf(),
        ensures
            r matches Ok(t) ==> lookup(self@.tasks, token@) == Some(t@),
            r is Err <==> lookup(self@.tasks, token@) is None,
            r matches Err(e) ==> e == SuaideError::NotFound,
    {
        self.find_by(token, token)
    }

    /// The task holding `ticket`, or else, if `id_text` is an integer, the
    /// task with that id; `NotFound` if neither.
    pub fn find_by(&self, ticket: &str, id_text: &str) -> (r: Result<Task, SuaideError>)
        requires
            self.wf(),
        ensures
            r matches Ok(t) ==> lookup_by(self@.tasks, ticket@, id_text@) == Some(t@),
            r is Err <==> lookup_by(self@.tasks, ticket@, id_text@) is None,
            r matches Err(e) ==> e == SuaideError::NotFound,
    {
        match self.position_of(ticket, id_text) {
            Some(i) => {
                assert(self@.tasks[i as int] == self.tasks@[i as int]@);
                Ok(self.tasks[i].duplicate())
            },
            None => Err(SuaideError::NotFound),
        }
    }
}

/// The task that an insert of `description` and `ticket` at `now` adds to a
/// store whose next id is `id`.
pub open spec fn inserted_task(id: int, description: Seq<char>, ticket: Option<Seq<char>>, now: i64) -> TaskView {
    TaskView { id: id as i32, ticket, description, status: Status::Open, opened: now, closed: None }
}

/// Task `t` closed at `now`.
pub open spec fn closed_task(t: TaskView, now: i64) -> TaskView {
    TaskView { status: Status::Closed, closed: Some(now), ..t }
}

/// Whether task `t` is selected by `which`.
pub fn is_selected(t: &Task, which: Selection) -> (r: bool)
    ensures
        r == selected(t@, which),
{
    let closed_in = |start: i64, end: i64| -> (b: bool)
        ensures
            b == closed_within(t@, start, end),
        {
            match t.closed {
                Some(c) => start <= c && c <= end,
                None => false,
            }
        };
    match which {
        Selection::Window { start, end } => (start <= t.opened && t.opened <= end) || closed_in(start, end),
        Selection::Unfinished => match t.status {
            Status::Open | Status::InProgress => true,
            _ => false,
        },
        Selection::WorkedOn { start, end } => {
            let closed_then = match t.status {
                Status::Closed => closed_in(start, end),
                _ => false,
            };
            let in_progress = match t.status {
                Status::InProgress => t.opened < end,
                _ => false,
            };
            closed_then || in_progress
        },
    }
}

impl TaskStore {
    /// Adds a new open task opened at `now` under the next id. An empty
    /// description is `IncorrectArgs`; a ticket that another task holds is
    /// `TicketAlreadyExistsError`; a store whose ids are used up is
    /// `StorageError`. On error the store is unchanged.
    pub fn insert(&mut self, description: String, ticket: Option<String>, now: i64) -> (r: Result<Task, SuaideError>)
        requires
            old(self).wf(),
        ensures
            final(self).wf(),
            if description@.len() == 0 {
                r == Err::<Task, SuaideError>(SuaideError::IncorrectArgs) && final(self)@ == old(self)@
            } else if ticket matches Some(tk) && has_ticket(old(self)@.tasks, tk@) {
                r == Err::<Task, SuaideError>(SuaideError::TicketAlreadyExistsError) && final(self)@ == old(self)@
            } else if old(self)@.next_id > i32::MAX {
                r == Err::<Task, SuaideError>(SuaideError::StorageError) && final(self)@ == old(self)@
            } else {
                &&& r matches Ok(t) && t@ == inserted_task(old(self)@.next_id, description@, opt_view(&ticket), now)
                &&& final(self)@.tasks == old(self)@.tasks.push(
                    inserted_task(old(self)@.next_id, description@, opt_view(&ticket), now),
                )
                &&& final(self)@.next_id == old(self)@.next_id + 1
            },
    {
        if description.unicode_len() == 0 {
            return Err(SuaideError::IncorrectArgs);
        }
        let taken = match &ticket {
            Some(tk) => self.position_of_ticket(tk.as_str()).is_some(),
            None => false,
        };
        if taken {
            return Err(SuaideError::TicketAlreadyExistsError);
        }
        if self.next_id > i32::MAX as i64 {
            return Err(SuaideError::StorageError);
        }
        let ghost old_tasks = self@.tasks;
        let mut task = Task::new(description, ticket, now);
        task.id = self.next_id as i32;
        let copy = task.duplicate();
        self.tasks.push(task);
        self.next_id = self.next_id + 1;
        proof {
            assert(self@.tasks =~= old_tasks.push(copy@));
        }
        Ok(copy)
    }

    /// Adds a task that already has an id, as read back from storage. An id
    /// below 1 or already present, or an empty description, is `IncorrectArgs`; a ticket that another
    /// task holds is `TicketAlreadyExistsError`. On error the store is unchanged.
    pub fn restore(&mut self, task: Task) -> (r: Result<(), SuaideError>)
        requires
            old(self).wf(),
        ensures
            final(self).wf(),
            if task.id < 1 || has_id(old(self)@.tasks, task.id as int) || task@.description.len() == 0 {
                r == Err::<(), SuaideError>(SuaideError::IncorrectArgs) && final(self)@ == old(self)@
            } else if task@.ticket matches Some(tk) && has_ticket(old(self)@.tasks, tk) {
                r == Err::<(), SuaideError>(SuaideError::TicketAlreadyExistsError) && final(self)@ == old(self)@
            } else {
                &&& r is Ok
                &&& final(self)@.tasks == old(self)@.tasks.push(task@)
                &&& final(self)@.next_id == if old(self)@.next_id > task.id + 1 {
                    old(self)@.next_id
                } else {
                    task.id + 1
                }
            },
    {
        if task.id < 1 || self.position_of_id(task.id).is_some() || task.description.as_str().unicode_len() == 0 {
            return Err(SuaideError::IncorrectArgs);
        }
        let taken = match &task.ticket {
            Some(tk) => self.position_of_ticket(tk.as_str()).is_some(),
            None => false,
        };
        if taken {
            return Err(SuaideError::TicketAlreadyExistsError);
        }
        let ghost old_tasks = self@.tasks;
        let ghost tv = task@;
        let id = task.id as i64;
        self.tasks.push(task);
        if self.next_id <= id + 1 {
            self.next_id = id + 1;
        }
        proof {
            assert(self@.tasks =~= old_tasks.push(tv));
        }
        Ok(())
    }

    /// Makes the changes of `changes` to the task with id `id` and returns
    /// the task as it now stands. No task with that id is `NotFound`; an empty
    /// new description is `IncorrectArgs`; a new ticket that another task holds
    /// is `TicketAlreadyExistsError`. On error
    /// the store is unchanged; a change set that changes nothing changes
    /// nothing and succeeds.
    pub fn update(&mut self, id: i32, changes: &TaskChangeSet) -> (r: Result<Task, SuaideError>)
        requires
            old(self).wf(),
        ensures
            final(self).wf(),
            match index_of_id(old(self)@.tasks, id as int) {
                None => r == Err::<Task, SuaideError>(SuaideError::NotFound) && final(self)@ == old(self)@,
                Some(k) => if applied(old(self)@.tasks[k], changes@).description.len() == 0 {
                    r == Err::<Task, SuaideError>(SuaideError::IncorrectArgs) && final(self)@ == old(self)@
                } else if ticket_taken_by_other(
                    old(self)@.tasks,
                    k,
                    applied(old(self)@.tasks[k], changes@).ticket,
                ) {
                    r == Err::<Task, SuaideError>(SuaideError::TicketAlreadyExistsError) && final(self)@ == old(self)@
                } else {
                    &&& r matches Ok(t) && t@ == applied(old(self)@.tasks[k], changes@)
                    &&& final(self)@.tasks == old(self)@.tasks.update(k, applied(old(self)@.tasks[k], changes@))
                    &&& final(self)@.next_id == old(self)@.next_id
                },
            },
    {
        let ghost s = self@.tasks;
        let k = match self.position_of_id(id) {
            Some(k) => k,
            None => return Err(SuaideError::NotFound),
        };
        proof {
            let c = choose|i: int| 0 <= i < s.len() && s[i].id == id;
            assert(s[c].id == s[k as int].id);
            assert(s[k as int] == self.tasks@[k as int]@);
        }
        let new_task = changes.apply(&self.tasks[k]);
        if new_task.description.as_str().unicode_len() == 0 {
            return Err(SuaideError::IncorrectArgs);
        }
        let mut j: usize = 0;
        let mut clash = false;
        while j < self.tasks.len()
            invariant
                s == self@.tasks,
                s == task_views(self.tasks@),
                j <= self.tasks.len(),
                clash ==> ticket_taken_by_other(s, k as int, new_task@.ticket),
                !clash ==> forall|i: int| 0 <= i < j && i != k ==> !(new_task@.ticket is Some && #[trigger] s[i].ticket == new_task@.ticket),
            decreases self.tasks.len() - j,
        {
            if j != k && new_task.ticket.is_some() && opt_str_eq(&self.tasks[j].ticket, &new_task.ticket) {
                assert(s[j as int] == self.tasks@[j as int]@);
                assert(s[j as int].ticket == new_task@.ticket);
                clash = true;
            } else {
                assert(s[j as int] == self.tasks@[j as int]@);
            }
            j = j + 1;
        }
        if clash {
            return Err(SuaideError::TicketAlreadyExistsError);
        }
        let copy = new_task.duplicate();
        self.tasks.set(k, new_task);
        proof {
            assert(self@.tasks =~= s.update(k as int, copy@));
        }
        Ok(copy)
    }

    /// Marks the task that `ticket` or `id_text` names (see `find_by`) as
    /// closed at `now` and returns it as it now stands; `NotFound` if they name
    /// no task.
    pub fn close(&mut self, ticket: &str, id_text: &str, now: i64) -> (r: Result<Task, SuaideError>)
        requires
            old(self).wf(),
        ensures
            final(self).wf(),
            match ticket_or_id_index(old(self)@.tasks, ticket@, id_text@) {
                None => r == Err::<Task, SuaideError>(SuaideError::NotFound) && final(self)@ == old(self)@,
                Some(k) => {
                    &&& r matches Ok(t) && t@ == closed_task(old(self)@.tasks[k], now)
                    &&& final(self)@.tasks == old(self)@.tasks.update(k, closed_task(old(self)@.tasks[k], now))
                    &&& final(self)@.next_id == old(self)@.next_id
                },
            },
    {
        let ghost s = self@.tasks;
        let k = match self.position_of(ticket, id_text) {
            Some(k) => k,
            None => return Err(SuaideError::NotFound),
        };
        assert(s[k as int] == self.tasks@[k as int]@);
        let mut task = self.tasks[k].duplicate();
        task.status = Status::Closed;
        task.closed = Some(now);
        let copy = task.duplicate();
        self.tasks.set(k, task);
        proof {
            assert(self@.tasks =~= s.update(k as int, copy@));
        }
        Ok(copy)
    }

    /// Deletes the task that `ticket` or `id_text` names (see `find_by`) and
    /// returns it; `NotFound` if they name no task.
    pub fn remove(&mut self, ticket: &str, id_text: &str) -> (r: Result<Task, SuaideError>)
        requires
            old(self).wf(),
        ensures
            final(self).wf(),
            match ticket_or_id_index(old(self)@.tasks, ticket@, id_text@) {
                None => r == Err::<Task, SuaideError>(SuaideError::NotFound) && final(self)@ == old(self)@,
                Some(k) => {
                    &&& r matches Ok(t) && t@ == old(self)@.tasks[k]
                    &&& final(self)@.tasks == old(self)@.tasks.remove(k)
                    &&& final(self)@.next_id == old(self)@.next_id
                },
            },
    {
        let ghost s = self@.tasks;
        let k = match self.position_of(ticket, id_text) {
            Some(k) => k,
            None => return Err(SuaideError::NotFound),
        };
        let task = self.tasks.remove(k);
        proof {
            assert(self@.tasks =~= s.remove(k as int));
        }
        Ok(task)
    }

    /// Deletes every task. Ids already given are not given again.
    pub fn remove_all(&mut self)
        requires
            old(self).wf(),
        ensures
            final(self).wf(),
            final(self)@.tasks == Seq::<TaskView>::empty(),
            final(self)@.next_id == old(self)@.next_id,
    {
        self.tasks.clear();
        assert(self@.tasks =~= Seq::<TaskView>::empty());
    }

    /// The tasks that `which` selects, sorted for display.
    pub fn select(&self, which: Selection) -> (r: Vec<Task>)
        ensures
            sorted_for_display(task_views(r@)),
            task_views(r@).to_multiset() == self@.tasks.filter(|t: TaskView| selected(t, which)).to_multiset(),
    {
        let ghost s = self@.tasks;
        let mut out: Vec<Task> = Vec::new();
        let mut i: usize = 0;
        while i < self.tasks.len()
            invariant
                s == self@.tasks,
                s == task_views(self.tasks@),
                i <= self.tasks.len(),
                task_views(out@) == s.take(i as int).filter(|t: TaskView| selected(t, which)),
            decreases self.tasks.len() - i,
        {
            let ghost prev = out@;
            proof {
                reveal(Seq::filter);
                assert(s.take(i + 1).drop_last() =~= s.take(i as int));
                assert(s.take(i + 1).last() == s[i as int]);
                assert(s.take(i + 1).filter(|t: TaskView| selected(t, which)) == if selected(s[i as int], which) {
                    s.take(i as int).filter(|t: TaskView| selected(t, which)).push(s[i as int])
                } else {
                    s.take(i as int).filter(|t: TaskView| selected(t, which))
                });
                assert(s[i as int] == self.tasks@[i as int]@);
            }
            if is_selected(&self.tasks[i], which) {
                let t = self.tasks[i].duplicate();
                out.push(t);
                proof {
                    assert(task_views(out@) =~= task_views(prev).push(t@));
                    assert(selected(s[i as int], which));
                    assert(task_views(out@) == s.take(i + 1).filter(|t: TaskView| selected(t, which)));
                }
            } else {
                proof {
                    assert(task_views(out@) =~= task_views(prev));
                    assert(!selected(s[i as int], which));
                    assert(task_views(out@) == s.take(i + 1).filter(|t: TaskView| selected(t, which)));
                }
            }
            i = i + 1;
        }
        proof {
            assert(s.take(i as int) =~= s);
        }
        sort_tasks(&mut out);
        out
    }

    /// Tasks opened or closed within `[start, end]`, sorted for display.
    pub fn tasks_in_window(&self, start: i64, end: i64) -> (r: Vec<Task>)
        ensures
            sorted_for_display(task_views(r@)),
            task_views(r@).to_multiset() == self@.tasks.filter(
                |t: TaskView| selected(t, Selection::Window { start, end }),
            ).to_multiset(),
    {
        self.select(Selection::Window { start, end })
    }

    /// The stand-up report for yesterday's window `[start, end]`: first the
    /// tasks worked on then (closed within it, or in progress and opened
    /// before it ended), then the unfinished ones; each sorted for display.
    pub fn stand_up(&self, start: i64, end: i64) -> (r: (Vec<Task>, Vec<Task>))
        ensures
            sorted_for_display(task_views(r.0@)),
            task_views(r.0@).to_multiset() == self@.tasks.filter(
                |t: TaskView| selected(t, Selection::WorkedOn { start, end }),
            ).to_multiset(),
            sorted_for_display(task_views(r.1@)),
            task_views(r.1@).to_multiset() == self@.tasks.filter(
                |t: TaskView| selected(t, Selection::Unfinished),
            ).to_multiset(),
    {
        (self.select(Selection::WorkedOn { start, end }), self.select(Selection::Unfinished))
    }
}

/// A task that holds ticket `ticket` and has the id written in `id_token` is
/// found by either token, provided no task holds `id_token` itself as
/// ticket; a token that is no task's ticket and no task's id finds nothing.
pub proof fn lemma_lookup_by_ticket_or_id(v: StoreContents, k: int, ticket: Seq<char>, id_token: Seq<char>, other: Seq<char>)
    requires
        store_wf(v),
        0 <= k < v.tasks.len(),
        v.tasks[k].ticket == Some(ticket),
        i32_literal(id_token) == Some(v.tasks[k].id),
        !has_ticket(v.tasks, id_token),
        !has_ticket(v.tasks, other),
        i32_literal(other) matches Some(n) ==> !has_id(v.tasks, n as int),
    ensures
        lookup(v.tasks, ticket) == Some(v.tasks[k]),
        lookup(v.tasks, id_token) == Some(v.tasks[k]),
        lookup(v.tasks, other) is None,
{
    assert(holds_ticket(v.tasks[k], ticket));
    let c = choose|i: int| 0 <= i < v.tasks.len() && holds_ticket(v.tasks[i], ticket);
    lemma_ticket_index_unique(v.tasks, v.next_id, k, c, ticket);
    let d = choose|i: int| 0 <= i < v.tasks.len() && v.tasks[i].id == v.tasks[k].id;
    assert(v.tasks[d].id == v.tasks[k].id);
}

/// Updating a stored task with a change set that changes nothing succeeds
/// and leaves the store as it was.
pub proof fn lemma_empty_update_is_noop(v: StoreContents, id: int)
    requires
        store_wf(v),
        index_of_id(v.tasks, id) is Some,
    ensures
        applied(v.tasks[index_of_id(v.tasks, id)->Some_0], no_change()).description.len() > 0,
        !ticket_taken_by_other(
            v.tasks,
            index_of_id(v.tasks, id)->Some_0,
            applied(v.tasks[index_of_id(v.tasks, id)->Some_0], no_change()).ticket,
        ),
        v.tasks.update(
            index_of_id(v.tasks, id)->Some_0,
            applied(v.tasks[index_of_id(v.tasks, id)->Some_0], no_change()),
        ) == v.tasks,
{
    let k = index_of_id(v.tasks, id)->Some_0;
    assert(applied(v.tasks[k], no_change()) == v.tasks[k]);
    assert(v.tasks.update(k, v.tasks[k]) =~= v.tasks);
}

} // verus!
