//! The task record, its ordering for display, and sorting by that order.
use vstd::prelude::*;
use vstd::seq_lib::group_to_multiset_ensures;

use crate::status::Status;
use crate::text::{opt_clone, opt_view};

verus! {

broadcast use group_to_multiset_ensures;

/// A tracked task. `closed` is present exactly while the status is terminal
/// (see `wf`).
#[derive(Debug, Clone, PartialEq, Eq)]
pub struct Task {
    pub id: i32,
    pub ticket: Option<String>,
    pub description: String,
    pub status: Status,
    pub opened: i64,
    pub closed: Option<i64>,
}

/// A task as a mathematical value.
pub struct TaskView {
    pub id: i32,
    pub ticket: Option<Seq<char>>,
    pub description: Seq<char>,
    pub status: Status,
    pub opened: i64,
    pub closed: Option<i64>,
}

impl View for Task {
    type V = TaskView;

    open spec fn view(&self) -> TaskView {
        TaskView {
            id: self.id,
            ticket: opt_view(&self.ticket),
            description: self.description@,
            status: self.status,
            opened: self.opened,
            closed: self.closed,
        }
    }
}

impl TaskView {
    /// The closing timestamp is present exactly for a terminal status.
    pub open spec fn wf(self) -> bool {
        self.closed is Some <==> self.status.terminal()
    }
}

/// `a` sorts no later than `b`: a lower status rank first, and within one
/// status the later-opened first.
pub open spec fn sorts_before_or_with(a: TaskView, b: TaskView) -> bool {
    a.status.rank() < b.status.rank() || (a.status.rank() == b.status.rank() && a.opened >= b.opened)
}

/// The comparison of two tasks for display: status rank first, then `opened`
/// in reverse.
pub open spec fn display_order(a: TaskView, b: TaskView) -> core::cmp::Ordering {
    if a.status.rank() < b.status.rank() {
        core::cmp::Ordering::Less
    } else if a.status.rank() > b.status.rank() {
        core::cmp::Ordering::Greater
    } else if a.opened > b.opened {
        core::cmp::Ordering::Less
    } else if a.opened == b.opened {
        core::cmp::Ordering::Equal
    } else {
        core::cmp::Ordering::Greater
    }
}

/// Each task sorts no later than every task after it.
pub open spec fn sorted_for_display(s: Seq<TaskView>) -> bool {
    forall|i: int, j: int| 0 <= i < j < s.len() ==> sorts_before_or_with(#[trigger] s[i], #[trigger] s[j])
}

/// The values of a sequence of tasks.
pub open spec fn task_views(s: Seq<Task>) -> Seq<TaskView> {
    s.map_values(|t: Task| t@)
}

impl Task {
    /// A new open task with no id yet (the store assigns it), opened at `opened`.
    pub fn new(description: String, ticket: Option<String>, opened: i64) -> (r: Task)
        ensures
            r@ == (TaskView {
                id: 0,
                ticket: opt_view(&ticket),
                description: description@,
                status: Status::Open,
                opened,
                closed: None,
            }),
            r@.wf(),
    {
        Task { id: 0, ticket, description, status: Status::Open, opened, closed: None }
    }

    pub fn task_status(&self) -> (r: Status)
        ensures
            r == self.status,
    {
        self.status
    }

    /// Whether the task carries a closing timestamp.
    pub fn is_complete(&self) -> (r: bool)
        ensures
            r == self.closed is Some,
    {
        self.closed.is_some()
    }

    /// A copy of the task.
    pub fn duplicate(&self) -> (r: Task)
        ensures
            r@ == self@,
    {
        Task {
            id: self.id,
            ticket: opt_clone(&self.ticket),
            description: self.description.clone(),
            status: self.status,
            opened: self.opened,
            closed: self.closed,
        }
    }

    /// Compares two tasks for display: a lower status rank first (`Open`
    /// first), and within one status the more recently opened first.
    pub fn compare(&self, other: &Task) -> (r: core::cmp::Ordering)
        ensures
            r == display_order(self@, other@),
            (r != core::cmp::Ordering::Greater) == sorts_before_or_with(self@, other@),
    {
        let a = self.status.as_i16();
        let b = other.status.as_i16();
        if a < b {
            core::cmp::Ordering::Less
        } else if a > b {
            core::cmp::Ordering::Greater
        } else if self.opened > other.opened {
            core::cmp::Ordering::Less
        } else if self.opened == other.opened {
            core::cmp::Ordering::Equal
        } else {
            core::cmp::Ordering::Greater
        }
    }
}

proof fn lemma_insert_to_multiset(s: Seq<TaskView>, k: int, x: TaskView)
    requires
        0 <= k <= s.len(),
    ensures
        s.insert(k, x).to_multiset() =~= s.to_multiset().insert(x),
{
    let s2 = s.insert(k, x);
    assert(s2.remove(k) =~= s);
    assert(s2[k] == x);
    assert(s2.contains(x));
}

/// Sorts tasks for display (see `Task::compare`); tasks that compare equal
/// may come in any order.
pub fn sort_tasks(tasks: &mut Vec<Task>)
    ensures
        sorted_for_display(task_views(final(tasks)@)),
        task_views(final(tasks)@).to_multiset() == task_views(old(tasks)@).to_multiset(),
{
    let ghost orig = task_views(tasks@);
    let mut out: Vec<Task> = Vec::new();
    while tasks.len() > 0
        invariant
            sorted_for_display(task_views(out@)),
            task_views(out@).to_multiset().add(task_views(tasks@).to_multiset()) == orig.to_multiset(),
        decreases tasks.len(),
    {
        let ghost before = tasks@;
        let t = tasks.pop().unwrap();
        proof {
            assert(task_views(before) =~= task_views(tasks@).push(t@));
        }
        let ghost prev = task_views(out@);
        let mut k: usize = 0;
        let mut after = false;
        while k < out.len() && !after
            invariant
                k <= out.len(),
                prev == task_views(out@),
                forall|j: int| 0 <= j < k ==> sorts_before_or_with(#[trigger] prev[j], t@),
                after ==> k < out.len() && !sorts_before_or_with(prev[k as int], t@),
            decreases out.len() - k + (if after { 0int } else { 1int }),
        {
            match out[k].compare(&t) {
                core::cmp::Ordering::Greater => {
                    after = true;
                },
                _ => {
                    k = k + 1;
                },
            }
        }
        out.insert(k, t);
        proof {
            assert(task_views(out@) =~= prev.insert(k as int, t@));
            lemma_insert_to_multiset(prev, k as int, t@);
            let s = task_views(out@);
            assert forall|i: int, j: int| 0 <= i < j < s.len() implies sorts_before_or_with(#[trigger] s[i], #[trigger] s[j]) by {
                if j < k {
                    assert(s[i] == prev[i] && s[j] == prev[j]);
                } else if j == k {
                    assert(s[i] == prev[i]);
                } else if i == k {
                    assert(s[j] == prev[j - 1]);
                    // t sorts strictly before prev[k], which sorts no later than prev[j - 1]
                    if j - 1 > k {
                        assert(sorts_before_or_with(prev[k as int], prev[j - 1]));
                    }
                } else if i < k {
                    assert(s[i] == prev[i] && s[j] == prev[j - 1]);
                } else {
                    assert(s[i] == prev[i - 1] && s[j] == prev[j - 1]);
                }
            }
        }
    }
    *tasks = out;
}

} // verus!
