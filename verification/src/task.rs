//! A task, an archive batch, and their mathematical values.

use vstd::prelude::*;
use crate::text::{decimal, push_decimal, string_of};
use crate::time::{Elapsed, Timestamp};

verus! {

/// One task of the tracker.
#[derive(Clone, Debug, PartialEq)]
pub struct Task {
    pub title: String,
    pub description: String,
    pub is_done: bool,
    pub is_active: bool,
    pub is_selected: bool,
    pub elapsed_time: Elapsed,
    pub created_on: Timestamp,
}

/// The mathematical value of a task: its texts as sequences of code points.
pub struct TaskView {
    pub title: Seq<char>,
    pub description: Seq<char>,
    pub is_done: bool,
    pub is_active: bool,
    pub is_selected: bool,
    pub elapsed_time: Elapsed,
    pub created_on: Timestamp,
}

impl View for Task {
    type V = TaskView;

    open spec fn view(&self) -> TaskView {
        TaskView {
            title: self.title@,
            description: self.description@,
            is_done: self.is_done,
            is_active: self.is_active,
            is_selected: self.is_selected,
            elapsed_time: self.elapsed_time,
            created_on: self.created_on,
        }
    }
}

/// The values of a list of tasks, in order.
pub open spec fn views(tasks: Seq<Task>) -> Seq<TaskView> {
    Seq::new(tasks.len(), |i: int| tasks[i]@)
}

/// A group of tasks that were archived together.
#[derive(Clone, Debug, PartialEq)]
pub struct ArchiveItem {
    pub date: Timestamp,
    pub tasks: Vec<Task>,
}

/// The mathematical value of an archive batch.
pub struct ArchiveItemView {
    pub date: Timestamp,
    pub tasks: Seq<TaskView>,
}

impl View for ArchiveItem {
    type V = ArchiveItemView;

    open spec fn view(&self) -> ArchiveItemView {
        ArchiveItemView { date: self.date, tasks: views(self.tasks@) }
    }
}

/// The values of a list of archive batches, in order.
pub open spec fn batch_views(batches: Seq<ArchiveItem>) -> Seq<ArchiveItemView> {
    Seq::new(batches.len(), |i: int| batches[i]@)
}

impl TaskView {
    /// The task as it is when it is created at `now`: blank, not done, not
    /// active, selected, with no time spent on it.
    pub open spec fn blank(now: Timestamp) -> TaskView {
        TaskView {
            title: Seq::empty(),
            description: Seq::empty(),
            is_done: false,
            is_active: false,
            is_selected: true,
            elapsed_time: Elapsed { secs: 0, nanos: 0 },
            created_on: now,
        }
    }

    /// The task with its activity flag flipped.
    pub open spec fn toggle_active(self) -> TaskView {
        TaskView { is_active: !self.is_active, ..self }
    }

    /// The task with its done flag flipped. A task that becomes done stops
    /// being active.
    pub open spec fn toggle_done(self) -> TaskView {
        TaskView { is_done: !self.is_done, is_active: self.is_active && self.is_done, ..self }
    }

    /// The task with `dt` more time spent on it.
    pub open spec fn accrue(self, dt: Elapsed) -> TaskView {
        TaskView { elapsed_time: self.elapsed_time.spec_plus(dt), ..self }
    }
}

/// The text that shows a time spent of `secs` whole seconds: `< 1 min` below
/// one minute; otherwise the full hours, if there are any, followed by ` h`,
/// then a blank, the rest in minutes rounded to the nearest, and ` min`.
pub open spec fn time_text(secs: nat) -> Seq<char> {
    if secs < 60 {
        seq!['<', ' ', '1', ' ', 'm', 'i', 'n']
    } else {
        let hours = secs / 3600;
        let minutes = (secs % 3600 + 30) / 60;
        let head = if hours > 0 {
            decimal(hours) + seq![' ', 'h']
        } else {
            Seq::empty()
        };
        head + seq![' '] + decimal(minutes) + seq![' ', 'm', 'i', 'n']
    }
}

impl Task {
    /// The time spent on the task, as text.
    pub fn get_time_str(&self) -> (text: String)
        ensures
            text@ == time_text(self.elapsed_time.secs as nat),
    {
        let secs = self.elapsed_time.secs;
        let mut out: Vec<char> = Vec::new();
        if secs < 60 {
            out.push('<');
            out.push(' ');
            out.push('1');
            out.push(' ');
            out.push('m');
            out.push('i');
            out.push('n');
            assert(out@ =~= time_text(secs as nat));
        } else {
            let hours = secs / 3600;
            let minutes = (secs % 3600 + 30) / 60;
            if hours > 0 {
                push_decimal(&mut out, hours);
                out.push(' ');
                out.push('h');
            }
            out.push(' ');
            push_decimal(&mut out, minutes);
            out.push(' ');
            out.push('m');
            out.push('i');
            out.push('n');
            assert(out@ =~= time_text(secs as nat));
        }
        string_of(&out)
    }

    /// A blank task created at `now`, already selected.
    pub fn new(now: Timestamp) -> (task: Task)
        ensures
            task@ == TaskView::blank(now),
    {
        Task {
            title: String::new(),
            description: String::new(),
            is_done: false,
            is_active: false,
            is_selected: true,
            elapsed_time: Elapsed::zero(),
            created_on: now,
        }
    }

    /// Flips the activity flag.
    pub fn toggle_active(&mut self)
        ensures
            final(self)@ == old(self)@.toggle_active(),
    {
        if self.is_active {
            self.is_active = false;
        } else {
            self.is_active = true;
        }
    }
}

} // verus!
