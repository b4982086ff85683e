//! Operations on one ordered list of tasks: finding and moving the
//! selection, reordering, deleting, toggling, accruing time, and moving
//! tasks into and out of an archive batch.

use vstd::prelude::*;
use crate::model;
use crate::task::{Task, views};
use crate::time::{Elapsed, Timestamp};

verus! {

/// The index of the selected task, if any.
pub fn find_selected(tasks: &Vec<Task>) -> (found: Option<usize>)
    ensures
        match found {
            Some(i) => i < tasks.len() && model::first_selected(views(tasks@)) == Some(i as int),
            None => model::first_selected(views(tasks@)) is None,
        },
{
    let ghost ts = views(tasks@);
    let mut i: usize = 0;
    while i < tasks.len()
        invariant
            ts == views(tasks@),
            i <= tasks.len(),
            forall|j: int| 0 <= j < i ==> !(#[trigger] ts[j]).is_selected,
        decreases tasks.len() - i,
    {
        if tasks[i].is_selected {
            proof {
                model::lemma_first_selected_is(ts, i as int);
            }
            return Some(i);
        }
        i += 1;
    }
    proof {
        model::lemma_first_selected(ts);
    }
    None
}

/// The index of the active task, if any.
pub fn find_active(tasks: &Vec<Task>) -> (found: Option<usize>)
    ensures
        match found {
            Some(i) => i < tasks.len() && model::first_active(views(tasks@)) == Some(i as int),
            None => model::first_active(views(tasks@)) is None,
        },
{
    let ghost ts = views(tasks@);
    let mut i: usize = 0;
    while i < tasks.len()
        invariant
            ts == views(tasks@),
            i <= tasks.len(),
            forall|j: int| 0 <= j < i ==> !(#[trigger] ts[j]).is_active,
        decreases tasks.len() - i,
    {
        if tasks[i].is_active {
            proof {
                model::lemma_first_active_is(ts, i as int);
            }
            return Some(i);
        }
        i += 1;
    }
    proof {
        model::lemma_first_active(ts);
    }
    None
}

/// Moves the selection one task down and says where it went, if it moved.
pub fn select_next(tasks: &mut Vec<Task>) -> (target: Option<usize>)
    ensures
        views(final(tasks)@) == model::select_next(views(old(tasks)@)),
        match target {
            Some(k) => model::next_target(views(old(tasks)@)) == Some(k as int),
            None => model::next_target(views(old(tasks)@)) is None,
        },
{
    match find_selected(tasks) {
        Some(i) => {
            if i + 1 < tasks.len() {
                tasks[i].is_selected = false;
                tasks[i + 1].is_selected = true;
                assert(views(tasks@) =~= model::select_next(views(old(tasks)@)));
                Some(i + 1)
            } else {
                None
            }
        },
        None => None,
    }
}

/// Moves the selection one task up and says where it went, if it moved.
pub fn select_previous(tasks: &mut Vec<Task>) -> (target: Option<usize>)
    ensures
        views(final(tasks)@) == model::select_previous(views(old(tasks)@)),
        match target {
            Some(k) => model::previous_target(views(old(tasks)@)) == Some(k as int),
            None => model::previous_target(views(old(tasks)@)) is None,
        },
{
    match find_selected(tasks) {
        Some(i) => {
            if i >= 1 {
                tasks[i].is_selected = false;
                tasks[i - 1].is_selected = true;
                assert(views(tasks@) =~= model::select_previous(views(old(tasks)@)));
                Some(i - 1)
            } else {
                None
            }
        },
        None => None,
    }
}

/// Exchanges the selected task with the one before it.
pub fn move_up(tasks: &mut Vec<Task>)
    ensures
        views(final(tasks)@) == model::move_up(views(old(tasks)@)),
{
    match find_selected(tasks) {
        Some(i) => {
            if i >= 1 {
                let task = tasks.remove(i);
                tasks.insert(i - 1, task);
                assert(views(tasks@) =~= model::move_up(views(old(tasks)@)));
            }
        },
        None => {},
    }
}

/// Exchanges the selected task with the one after it.
pub fn move_down(tasks: &mut Vec<Task>)
    ensures
        views(final(tasks)@) == model::move_down(views(old(tasks)@)),
{
    match find_selected(tasks) {
        Some(i) => {
            if i + 1 < tasks.len() {
                let task = tasks.remove(i);
                tasks.insert(i + 1, task);
                assert(views(tasks@) =~= model::move_down(views(old(tasks)@)));
            }
        },
        None => {},
    }
}

/// Puts the selection on the task at `i`, or on the last task if `i` is
/// past the end; does nothing to an empty list.
pub fn reselect_at(tasks: &mut Vec<Task>, i: usize)
    ensures
        views(final(tasks)@) == model::reselect_at(views(old(tasks)@), i as int),
{
    if tasks.len() > 0 {
        if i < tasks.len() {
            tasks[i].is_selected = true;
        } else {
            let last = tasks.len() - 1;
            tasks[last].is_selected = true;
        }
        assert(views(tasks@) =~= model::reselect_at(views(old(tasks)@), i as int));
    }
}

/// Deletes the selected task and selects its successor, or its predecessor
/// if it was the last. Hands back the deleted task, if there was one.
pub fn delete_selected(tasks: &mut Vec<Task>) -> (deleted: Option<Task>)
    ensures
        views(final(tasks)@) == model::delete_selected(views(old(tasks)@)),
        match deleted {
            Some(task) => model::first_selected(views(old(tasks)@)) is Some && task@ == views(
                old(tasks)@,
            )[model::first_selected(views(old(tasks)@))->0],
            None => model::first_selected(views(old(tasks)@)) is None,
        },
{
    match find_selected(tasks) {
        Some(i) => {
            let task = tasks.remove(i);
            assert(views(tasks@) =~= views(old(tasks)@).remove(i as int));
            reselect_at(tasks, i);
            Some(task)
        },
        None => None,
    }
}

/// Flips the done flag of the selected task; a task that becomes done stops
/// being active.
pub fn toggle_done(tasks: &mut Vec<Task>)
    ensures
        views(final(tasks)@) == model::toggle_done(views(old(tasks)@)),
{
    match find_selected(tasks) {
        Some(i) => {
            let done = !tasks[i].is_done;
            tasks[i].is_done = done;
            if done && tasks[i].is_active {
                tasks[i].toggle_active();
            }
            assert(views(tasks@) =~= model::toggle_done(views(old(tasks)@)));
        },
        None => {},
    }
}

/// Toggles activity on the selected task: whatever task was active stops
/// being so, and the selected task becomes active unless it was active or is
/// done.
pub fn toggle_active(tasks: &mut Vec<Task>)
    ensures
        views(final(tasks)@) == model::toggle_active(views(old(tasks)@)),
{
    let selected = find_selected(tasks);
    let ghost before = views(tasks@);
    let mut i: usize = 0;
    while i < tasks.len()
        invariant
            i <= tasks.len(),
            tasks.len() == before.len(),
            match selected {
                Some(k) => model::first_selected(before) == Some(k as int),
                None => model::first_selected(before) is None,
            },
            forall|j: int| 0 <= j < i ==> views(tasks@)[j] == model::toggle_active(before)[j],
            forall|j: int| i <= j < tasks.len() ==> views(tasks@)[j] == before[j],
        decreases tasks.len() - i,
    {
        let is_selected = match selected {
            Some(k) => k == i,
            None => false,
        };
        if tasks[i].is_active {
            tasks[i].toggle_active();
        } else if is_selected && !tasks[i].is_done {
            tasks[i].toggle_active();
        }
        i += 1;
    }
    assert(views(tasks@) =~= model::toggle_active(before));
}

/// Adds `dt` to the time spent on the active task, if there is one.
pub fn accrue(tasks: &mut Vec<Task>, dt: Elapsed)
    ensures
        views(final(tasks)@) == model::accrue(views(old(tasks)@), dt),
{
    match find_active(tasks) {
        Some(i) => {
            let total = tasks[i].elapsed_time.plus(dt);
            tasks[i].elapsed_time = total;
            assert(views(tasks@) =~= model::accrue(views(old(tasks)@), dt));
        },
        None => {},
    }
}

/// Clears every selection flag.
pub fn clear_selection(tasks: &mut Vec<Task>)
    ensures
        views(final(tasks)@) == model::clear_selection(views(old(tasks)@)),
{
    let ghost before = views(tasks@);
    let mut i: usize = 0;
    while i < tasks.len()
        invariant
            i <= tasks.len(),
            tasks.len() == before.len(),
            forall|j: int| 0 <= j < i ==> views(tasks@)[j] == model::clear_selection(before)[j],
            forall|j: int| i <= j < tasks.len() ==> views(tasks@)[j] == before[j],
        decreases tasks.len() - i,
    {
        tasks[i].is_selected = false;
        i += 1;
    }
    assert(views(tasks@) =~= model::clear_selection(before));
}

/// Selects the first task and no other.
pub fn normalise_selection(tasks: &mut Vec<Task>)
    ensures
        views(final(tasks)@) == model::normalise_selection(views(old(tasks)@)),
{
    clear_selection(tasks);
    let ghost cleared = views(tasks@);
    if tasks.len() > 0 {
        tasks[0].is_selected = true;
        assert(views(tasks@) =~= model::set_selected(cleared, 0, true));
    }
}

/// Selects the first task if no task is selected.
pub fn ensure_selection(tasks: &mut Vec<Task>)
    ensures
        views(final(tasks)@) == model::ensure_selection(views(old(tasks)@)),
{
    if find_selected(tasks).is_none() && tasks.len() > 0 {
        tasks[0].is_selected = true;
        assert(views(tasks@) =~= model::ensure_selection(views(old(tasks)@)));
    }
}

/// Appends a blank task created at `now` and makes it the only selected
/// one.
pub fn add_blank(tasks: &mut Vec<Task>, now: Timestamp)
    ensures
        views(final(tasks)@) == model::add_blank(views(old(tasks)@), now),
{
    clear_selection(tasks);
    tasks.push(Task::new(now));
    assert(views(tasks@) =~= model::add_blank(views(old(tasks)@), now));
}

/// Takes the done tasks out of the list and hands them back as a batch,
/// both parts in their old order. The first task of the batch is selected;
/// if the list lost its selected task, its first remaining task is selected.
pub fn take_done(tasks: &mut Vec<Task>) -> (batch: Vec<Task>)
    ensures
        views(batch@) == model::archived_batch(views(old(tasks)@)),
        views(final(tasks)@) == model::after_archiving(views(old(tasks)@)),
{
    let ghost before = views(tasks@);
    let mut batch: Vec<Task> = Vec::new();
    let mut kept: Vec<Task> = Vec::new();
    let mut lost = false;
    let n = tasks.len();
    let mut k: usize = 0;
    while k < n
        invariant
            k <= n,
            n == before.len(),
            tasks.len() == n - k,
            views(tasks@) =~= before.skip(k as int),
            views(batch@) == model::done_part(before.take(k as int)),
            views(kept@) == model::pending_part(before.take(k as int)),
            lost == model::done_is_selected(before.take(k as int)),
        decreases n - k,
    {
        let ghost seen = before.take(k as int);
        let ghost more = before.take(k + 1);
        let ghost rest = views(tasks@);
        assert(rest[0] == before.skip(k as int)[0]);
        let mut task = tasks.remove(0);
        proof {
            assert forall|j: int| 0 <= j < tasks.len() implies views(tasks@)[j] == before.skip(
                k + 1,
            )[j] by {
                assert(views(tasks@)[j] == rest[j + 1]);
                assert(rest[j + 1] == before.skip(k as int)[j + 1]);
            }
            assert(more.drop_last() =~= seen);
            assert(more.last() == before[k as int]);
            assert(views(tasks@) =~= before.skip(k + 1));
            if model::done_is_selected(seen) {
                let w = choose|i: int|
                    0 <= i < seen.len() && (#[trigger] seen[i]).is_done && seen[i].is_selected;
                assert(more[w].is_done && more[w].is_selected);
            }
            if model::done_is_selected(more) && !(task.is_done && task.is_selected) {
                let w = choose|i: int|
                    0 <= i < more.len() && (#[trigger] more[i]).is_done && more[i].is_selected;
                assert(seen[w].is_done && seen[w].is_selected);
            }
            if task.is_done && task.is_selected {
                assert(more[k as int].is_done && more[k as int].is_selected);
            }
        }
        if task.is_done {
            if task.is_selected {
                task.is_selected = false;
                lost = true;
            }
            batch.push(task);
            assert(views(batch@) =~= model::done_part(more));
        } else {
            kept.push(task);
            assert(views(kept@) =~= model::pending_part(more));
        }
        k += 1;
    }
    assert(before.take(n as int) =~= before);
    *tasks = kept;
    if lost {
        reselect_at(tasks, 0);
    }
    reselect_at(&mut batch, 0);
    batch
}

/// Takes the selected task out of an archive batch and hands it back, not
/// done and not selected any more; the selection of the batch goes to its
/// successor, or to its predecessor if it was the last.
pub fn take_selected(batch: &mut Vec<Task>) -> (taken: Option<Task>)
    ensures
        views(final(batch)@) == model::delete_selected(views(old(batch)@)),
        match taken {
            Some(task) => model::first_selected(views(old(batch)@)) is Some && task@
                == model::restored(
                views(old(batch)@)[model::first_selected(views(old(batch)@))->0],
            ),
            None => model::first_selected(views(old(batch)@)) is None,
        },
{
    match delete_selected(batch) {
        Some(task) => {
            let mut task = task;
            task.is_done = false;
            task.is_selected = false;
            Some(task)
        },
        None => None,
    }
}

} // verus!
