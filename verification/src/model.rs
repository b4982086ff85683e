//! What the operations on a list of tasks compute, stated on the values of
//! the tasks: where the selection is, and what each operation makes of the
//! list.

use vstd::prelude::*;
use crate::task::TaskView;
use crate::time::{Elapsed, Timestamp};

verus! {

/// Whether `i` is the index of the first selected task of the list.
pub open spec fn is_first_selected(ts: Seq<TaskView>, i: int) -> bool {
    &&& 0 <= i < ts.len()
    &&& ts[i].is_selected
    &&& forall|j: int| 0 <= j < i ==> !(#[trigger] ts[j]).is_selected
}

/// The index of the selected task: the first one in list order whose
/// selection flag is set. `lemma_first_selected` and
/// `lemma_first_selected_is` say what there is to know of it.
#[verifier::opaque]
pub open spec fn first_selected(ts: Seq<TaskView>) -> Option<int> {
    if exists|i: int| is_first_selected(ts, i) {
        Some(choose|i: int| is_first_selected(ts, i))
    } else {
        None
    }
}

/// Whether `i` is the index of the first active task of the list.
pub open spec fn is_first_active(ts: Seq<TaskView>, i: int) -> bool {
    &&& 0 <= i < ts.len()
    &&& ts[i].is_active
    &&& forall|j: int| 0 <= j < i ==> !(#[trigger] ts[j]).is_active
}

/// The index of the active task: the first one in list order whose activity
/// flag is set. `lemma_first_active` and `lemma_first_active_is` say what
/// there is to know of it.
#[verifier::opaque]
pub open spec fn first_active(ts: Seq<TaskView>) -> Option<int> {
    if exists|i: int| is_first_active(ts, i) {
        Some(choose|i: int| is_first_active(ts, i))
    } else {
        None
    }
}

/// No task of the list is selected.
pub open spec fn none_selected(ts: Seq<TaskView>) -> bool {
    forall|i: int| 0 <= i < ts.len() ==> !(#[trigger] ts[i]).is_selected
}

/// No two tasks of the list are selected.
pub open spec fn at_most_one_selected(ts: Seq<TaskView>) -> bool {
    forall|i: int, j: int|
        0 <= i < ts.len() && 0 <= j < ts.len() && (#[trigger] ts[i]).is_selected && (
        #[trigger] ts[j]).is_selected ==> i == j
}

/// The list is empty, or exactly one of its tasks is selected.
pub open spec fn selection_ok(ts: Seq<TaskView>) -> bool {
    &&& at_most_one_selected(ts)
    &&& ts.len() > 0 ==> !none_selected(ts)
}

/// No two tasks of the list are active.
pub open spec fn at_most_one_active(ts: Seq<TaskView>) -> bool {
    forall|i: int, j: int|
        0 <= i < ts.len() && 0 <= j < ts.len() && (#[trigger] ts[i]).is_active && (
        #[trigger] ts[j]).is_active ==> i == j
}

/// No task of the list is both done and active.
pub open spec fn done_inactive(ts: Seq<TaskView>) -> bool {
    forall|i: int| 0 <= i < ts.len() ==> !((#[trigger] ts[i]).is_done && ts[i].is_active)
}

/// The list with the selection flag of task `i` set to `flag`.
pub open spec fn set_selected(ts: Seq<TaskView>, i: int, flag: bool) -> Seq<TaskView> {
    ts.update(i, TaskView { is_selected: flag, ..ts[i] })
}

/// The list with tasks `i` and `j` exchanged.
pub open spec fn swapped(ts: Seq<TaskView>, i: int, j: int) -> Seq<TaskView> {
    ts.update(i, ts[j]).update(j, ts[i])
}

/// The list with no task selected.
pub open spec fn clear_selection(ts: Seq<TaskView>) -> Seq<TaskView> {
    Seq::new(ts.len(), |i: int| TaskView { is_selected: false, ..ts[i] })
}

/// The list with its first task selected and no other.
pub open spec fn normalise_selection(ts: Seq<TaskView>) -> Seq<TaskView> {
    if ts.len() > 0 {
        set_selected(clear_selection(ts), 0, true)
    } else {
        ts
    }
}

/// The list with its first task selected if none was.
pub open spec fn ensure_selection(ts: Seq<TaskView>) -> Seq<TaskView> {
    if first_selected(ts) is None && ts.len() > 0 {
        set_selected(ts, 0, true)
    } else {
        ts
    }
}

/// The index the selection moves to when it goes one task down, if it moves.
pub open spec fn next_target(ts: Seq<TaskView>) -> Option<int> {
    match first_selected(ts) {
        Some(i) => if i + 1 < ts.len() {
            Some(i + 1)
        } else {
            None
        },
        None => None,
    }
}

/// The index the selection moves to when it goes one task up, if it moves.
pub open spec fn previous_target(ts: Seq<TaskView>) -> Option<int> {
    match first_selected(ts) {
        Some(i) => if i >= 1 {
            Some(i - 1)
        } else {
            None
        },
        None => None,
    }
}

/// The list after the selection moves one task down; unchanged if the last
/// task is selected or none is.
pub open spec fn select_next(ts: Seq<TaskView>) -> Seq<TaskView> {
    match next_target(ts) {
        Some(k) => set_selected(set_selected(ts, k - 1, false), k, true),
        None => ts,
    }
}

/// The list after the selection moves one task up; unchanged if the first
/// task is selected or none is.
pub open spec fn select_previous(ts: Seq<TaskView>) -> Seq<TaskView> {
    match previous_target(ts) {
        Some(k) => set_selected(set_selected(ts, k + 1, false), k, true),
        None => ts,
    }
}

/// The list after the selected task changes places with the one before it;
/// unchanged if the first task is selected or none is.
pub open spec fn move_up(ts: Seq<TaskView>) -> Seq<TaskView> {
    match previous_target(ts) {
        Some(k) => swapped(ts, k, k + 1),
        None => ts,
    }
}

/// The list after the selected task changes places with the one after it;
/// unchanged if the last task is selected or none is.
pub open spec fn move_down(ts: Seq<TaskView>) -> Seq<TaskView> {
    match next_target(ts) {
        Some(k) => swapped(ts, k - 1, k),
        None => ts,
    }
}

/// A list from which the task at `i` has just been taken, with the
/// selection put on the task now at `i`, or on the last task if `i` is past
/// the end.
pub open spec fn reselect_at(ts: Seq<TaskView>, i: int) -> Seq<TaskView> {
    if ts.len() == 0 {
        ts
    } else if i < ts.len() {
        set_selected(ts, i, true)
    } else {
        set_selected(ts, ts.len() - 1, true)
    }
}

/// The list after the selected task is deleted and the selection is put on
/// its successor, or on its predecessor if it was the last; unchanged if no
/// task is selected.
pub open spec fn delete_selected(ts: Seq<TaskView>) -> Seq<TaskView> {
    match first_selected(ts) {
        Some(i) => reselect_at(ts.remove(i), i),
        None => ts,
    }
}

/// The list after the done flag of the selected task is flipped.
pub open spec fn toggle_done(ts: Seq<TaskView>) -> Seq<TaskView> {
    match first_selected(ts) {
        Some(i) => ts.update(i, ts[i].toggle_done()),
        None => ts,
    }
}

/// The list after activity is toggled on the selected task: every active
/// task stops being active, and the selected task becomes active if it was
/// neither active nor done.
pub open spec fn toggle_active(ts: Seq<TaskView>) -> Seq<TaskView> {
    Seq::new(
        ts.len(),
        |j: int|
            TaskView {
                is_active: first_selected(ts) == Some(j) && !ts[j].is_active && !ts[j].is_done,
                ..ts[j]
            },
    )
}

/// The list after `dt` is added to the time of the active task.
pub open spec fn accrue(ts: Seq<TaskView>, dt: Elapsed) -> Seq<TaskView> {
    match first_active(ts) {
        Some(i) => ts.update(i, ts[i].accrue(dt)),
        None => ts,
    }
}

/// The list after a blank task created at `now` is appended and selected.
pub open spec fn add_blank(ts: Seq<TaskView>, now: Timestamp) -> Seq<TaskView> {
    clear_selection(ts).push(TaskView::blank(now))
}

/// The done tasks of the list, in order, none of them selected.
pub open spec fn done_part(ts: Seq<TaskView>) -> Seq<TaskView>
    decreases ts.len(),
{
    if ts.len() == 0 {
        Seq::empty()
    } else if ts.last().is_done {
        done_part(ts.drop_last()).push(TaskView { is_selected: false, ..ts.last() })
    } else {
        done_part(ts.drop_last())
    }
}

/// The tasks of the list that are not done, in order.
pub open spec fn pending_part(ts: Seq<TaskView>) -> Seq<TaskView>
    decreases ts.len(),
{
    if ts.len() == 0 {
        Seq::empty()
    } else if ts.last().is_done {
        pending_part(ts.drop_last())
    } else {
        pending_part(ts.drop_last()).push(ts.last())
    }
}

/// Whether a done task of the list is selected.
pub open spec fn done_is_selected(ts: Seq<TaskView>) -> bool {
    exists|i: int| 0 <= i < ts.len() && (#[trigger] ts[i]).is_done && ts[i].is_selected
}

/// The batch that archiving makes of the list: its done tasks in order, the
/// first of them selected.
pub open spec fn archived_batch(ts: Seq<TaskView>) -> Seq<TaskView> {
    reselect_at(done_part(ts), 0)
}

/// The list that archiving leaves: the tasks that are not done, in order;
/// if the selected task went to the archive, the first of them is selected.
pub open spec fn after_archiving(ts: Seq<TaskView>) -> Seq<TaskView> {
    if done_is_selected(ts) {
        reselect_at(pending_part(ts), 0)
    } else {
        pending_part(ts)
    }
}

/// The task that leaves a batch when it is dearchived: not done and not
/// selected any more.
pub open spec fn restored(t: TaskView) -> TaskView {
    TaskView { is_done: false, is_selected: false, ..t }
}

/// `first_selected` names the first selected task, and finds none only where
/// none is selected.
pub proof fn lemma_first_selected(ts: Seq<TaskView>)
    ensures
        match first_selected(ts) {
            Some(i) => is_first_selected(ts, i),
            None => none_selected(ts),
        },
{
    reveal(first_selected);
    if first_selected(ts) is None {
        lemma_first_selected_from(ts, 0);
    }
}

proof fn lemma_first_selected_from(ts: Seq<TaskView>, from: int)
    requires
        0 <= from <= ts.len(),
        forall|j: int| 0 <= j < from ==> !(#[trigger] ts[j]).is_selected,
        first_selected(ts) is None,
    ensures
        none_selected(ts),
    decreases ts.len() - from,
{
    reveal(first_selected);
    if from < ts.len() {
        if ts[from].is_selected {
            assert(is_first_selected(ts, from));
        } else {
            lemma_first_selected_from(ts, from + 1);
        }
    }
}

/// An index that is the first selected one is the one `first_selected`
/// names.
pub proof fn lemma_first_selected_is(ts: Seq<TaskView>, i: int)
    requires
        is_first_selected(ts, i),
    ensures
        first_selected(ts) == Some(i),
{
    reveal(first_selected);
    let k = choose|k: int| is_first_selected(ts, k);
    assert(is_first_selected(ts, k));
    if k < i {
        assert(!ts[k].is_selected);
    } else if i < k {
        assert(!ts[i].is_selected);
    }
}

/// `first_active` names the first active task, and finds none only where
/// none is active.
pub proof fn lemma_first_active(ts: Seq<TaskView>)
    ensures
        match first_active(ts) {
            Some(i) => is_first_active(ts, i),
            None => forall|i: int| 0 <= i < ts.len() ==> !(#[trigger] ts[i]).is_active,
        },
{
    reveal(first_active);
    if first_active(ts) is None {
        lemma_first_active_from(ts, 0);
    }
}

proof fn lemma_first_active_from(ts: Seq<TaskView>, from: int)
    requires
        0 <= from <= ts.len(),
        forall|j: int| 0 <= j < from ==> !(#[trigger] ts[j]).is_active,
        first_active(ts) is None,
    ensures
        forall|i: int| 0 <= i < ts.len() ==> !(#[trigger] ts[i]).is_active,
    decreases ts.len() - from,
{
    reveal(first_active);
    if from < ts.len() {
        if ts[from].is_active {
            assert(is_first_active(ts, from));
        } else {
            lemma_first_active_from(ts, from + 1);
        }
    }
}

/// An index that is the first active one is the one `first_active` names.
pub proof fn lemma_first_active_is(ts: Seq<TaskView>, i: int)
    requires
        is_first_active(ts, i),
    ensures
        first_active(ts) == Some(i),
{
    reveal(first_active);
    let k = choose|k: int| is_first_active(ts, k);
    assert(is_first_active(ts, k));
    if k < i {
        assert(!ts[k].is_active);
    } else if i < k {
        assert(!ts[i].is_active);
    }
}

/// Task by task, what accruing does: the first active task gets the time,
/// every other task stays as it is.
pub open spec fn accrued(before: Seq<TaskView>, after: Seq<TaskView>, dt: Elapsed) -> bool {
    &&& after.len() == before.len()
    &&& forall|i: int|
        0 <= i < before.len() ==> #[trigger] after[i] == if is_first_active(before, i) {
            before[i].accrue(dt)
        } else {
            before[i]
        }
}

/// Accruing gives the time to the first active task and to no other.
pub proof fn lemma_accrue(ts: Seq<TaskView>, dt: Elapsed)
    ensures
        accrued(ts, accrue(ts, dt), dt),
{
    lemma_first_active(ts);
    let after = accrue(ts, dt);
    assert forall|i: int| 0 <= i < ts.len() implies #[trigger] after[i] == if is_first_active(
        ts,
        i,
    ) {
        ts[i].accrue(dt)
    } else {
        ts[i]
    } by {
        if is_first_active(ts, i) {
            lemma_first_active_is(ts, i);
        }
    }
}

/// Two lists of one length whose tasks agree on their selection flags.
pub open spec fn same_selection(a: Seq<TaskView>, b: Seq<TaskView>) -> bool {
    &&& a.len() == b.len()
    &&& forall|i: int| 0 <= i < a.len() ==> (#[trigger] a[i]).is_selected == b[i].is_selected
}

/// Lists that agree on their selection flags agree on where the selection
/// is and on whether it is in order.
pub proof fn lemma_same_selection(a: Seq<TaskView>, b: Seq<TaskView>)
    requires
        same_selection(a, b),
    ensures
        first_selected(a) == first_selected(b),
        selection_ok(a) == selection_ok(b),
        at_most_one_selected(a) == at_most_one_selected(b),
        none_selected(a) == none_selected(b),
{
    lemma_first_selected(a);
    lemma_first_selected(b);
    match first_selected(a) {
        Some(i) => {
            assert(b[i].is_selected == a[i].is_selected);
            assert forall|j: int| 0 <= j < i implies !(#[trigger] b[j]).is_selected by {
                assert(a[j].is_selected == b[j].is_selected);
            }
            lemma_first_selected_is(b, i);
        },
        None => {
            match first_selected(b) {
                Some(k) => {
                    assert(a[k].is_selected == b[k].is_selected);
                },
                None => {},
            }
        },
    }
    assert(none_selected(a) == none_selected(b)) by {
        if none_selected(a) {
            assert forall|i: int| 0 <= i < b.len() implies !(#[trigger] b[i]).is_selected by {
                assert(a[i].is_selected == b[i].is_selected);
            }
        }
        if none_selected(b) {
            assert forall|i: int| 0 <= i < a.len() implies !(#[trigger] a[i]).is_selected by {
                assert(a[i].is_selected == b[i].is_selected);
            }
        }
    }
    assert(at_most_one_selected(a) == at_most_one_selected(b)) by {
        if at_most_one_selected(a) {
            assert forall|i: int, j: int|
                0 <= i < b.len() && 0 <= j < b.len() && (#[trigger] b[i]).is_selected && (
                #[trigger] b[j]).is_selected implies i == j by {
                assert(a[i].is_selected && a[j].is_selected);
            }
        }
        if at_most_one_selected(b) {
            assert forall|i: int, j: int|
                0 <= i < a.len() && 0 <= j < a.len() && (#[trigger] a[i]).is_selected && (
                #[trigger] a[j]).is_selected implies i == j by {
                assert(b[i].is_selected && b[j].is_selected);
            }
        }
    }
}

/// In a list with its selection in order, the selected task is the only
/// selected one.
pub proof fn lemma_only_selected(ts: Seq<TaskView>, i: int)
    requires
        at_most_one_selected(ts),
        0 <= i < ts.len(),
        ts[i].is_selected,
    ensures
        first_selected(ts) == Some(i),
        forall|j: int| 0 <= j < ts.len() && j != i ==> !(#[trigger] ts[j]).is_selected,
{
    lemma_first_selected_is(ts, i);
}

/// A list in which exactly the task at `i` is selected has its selection
/// in order.
pub proof fn lemma_single_selected(ts: Seq<TaskView>, i: int)
    requires
        0 <= i < ts.len(),
        forall|j: int| 0 <= j < ts.len() ==> ((#[trigger] ts[j]).is_selected <==> j == i),
    ensures
        selection_ok(ts),
        first_selected(ts) == Some(i),
{
    assert(ts[i].is_selected);
    lemma_first_selected_is(ts, i);
}

/// Moving the selection, reordering and deleting keep the selection in
/// order: afterwards the list is empty or has exactly one selected task.
pub proof fn lemma_moves_keep_selection(ts: Seq<TaskView>)
    requires
        selection_ok(ts),
    ensures
        selection_ok(select_next(ts)),
        selection_ok(select_previous(ts)),
        selection_ok(move_up(ts)),
        selection_ok(move_down(ts)),
        selection_ok(delete_selected(ts)),
{
    lemma_first_selected(ts);
    match first_selected(ts) {
        Some(i) => {
            lemma_only_selected(ts, i);
            if i + 1 < ts.len() {
                lemma_single_selected(select_next(ts), i + 1);
                lemma_single_selected(move_down(ts), i + 1);
            }
            if i >= 1 {
                lemma_single_selected(select_previous(ts), i - 1);
                lemma_single_selected(move_up(ts), i - 1);
            }
            let rest = ts.remove(i);
            assert forall|j: int| 0 <= j < rest.len() implies !(#[trigger] rest[j]).is_selected by {
                if j < i {
                    assert(rest[j] == ts[j]);
                } else {
                    assert(rest[j] == ts[j + 1]);
                }
            }
            if rest.len() > 0 {
                if i < rest.len() {
                    lemma_single_selected(delete_selected(ts), i);
                } else {
                    lemma_single_selected(delete_selected(ts), rest.len() - 1);
                }
            }
        },
        None => {},
    }
}

/// Toggling done or active and accruing time leave every selection flag as
/// it is.
pub proof fn lemma_toggles_keep_selection(ts: Seq<TaskView>, dt: Elapsed)
    ensures
        same_selection(ts, toggle_done(ts)),
        same_selection(ts, toggle_active(ts)),
        same_selection(ts, accrue(ts, dt)),
{
    lemma_first_selected(ts);
    lemma_first_active(ts);
}

/// After a blank task is added, after the selection is normalised, and
/// after the first task of a list with nothing selected is selected, the
/// selection is in order.
pub proof fn lemma_fresh_selection(ts: Seq<TaskView>, now: Timestamp)
    ensures
        selection_ok(add_blank(ts, now)),
        first_selected(add_blank(ts, now)) == Some(ts.len() as int),
        selection_ok(normalise_selection(ts)),
        at_most_one_selected(ts) ==> selection_ok(ensure_selection(ts)),
        none_selected(ts) ==> selection_ok(reselect_at(ts, 0)),
{
    lemma_single_selected(add_blank(ts, now), ts.len() as int);
    if ts.len() > 0 {
        lemma_single_selected(normalise_selection(ts), 0);
        if none_selected(ts) {
            lemma_single_selected(reselect_at(ts, 0), 0);
        }
    }
    lemma_first_selected(ts);
    if at_most_one_selected(ts) && first_selected(ts) is None && ts.len() > 0 {
        lemma_single_selected(ensure_selection(ts), 0);
    }
}

/// The done part of a list holds only done, unselected tasks; the pending
/// part holds only tasks that are not done. If the list had no selected
/// task that is not done, the pending part has none selected; if the list
/// had at most one selected task, so has its pending part.
pub proof fn lemma_parts(ts: Seq<TaskView>)
    ensures
        none_selected(done_part(ts)),
        forall|i: int| 0 <= i < done_part(ts).len() ==> (#[trigger] done_part(ts)[i]).is_done,
        forall|i: int|
            0 <= i < pending_part(ts).len() ==> !(#[trigger] pending_part(ts)[i]).is_done,
        done_part(ts).len() + pending_part(ts).len() == ts.len(),
        (forall|i: int| 0 <= i < ts.len() ==> !(!(#[trigger] ts[i]).is_done && ts[i].is_selected))
            ==> none_selected(pending_part(ts)),
        at_most_one_selected(ts) ==> at_most_one_selected(pending_part(ts)),
        (exists|i: int| 0 <= i < ts.len() && !(#[trigger] ts[i]).is_done && ts[i].is_selected)
            ==> !none_selected(pending_part(ts)),
    decreases ts.len(),
{
    if ts.len() > 0 {
        let head = ts.drop_last();
        let last = ts.last();
        lemma_parts(head);
        assert forall|i: int| 0 <= i < head.len() implies head[i] == ts[i] by {}
        let p = pending_part(ts);
        let ph = pending_part(head);
        if forall|i: int|
            0 <= i < ts.len() ==> !(!(#[trigger] ts[i]).is_done && ts[i].is_selected) {
            assert forall|i: int| 0 <= i < head.len() implies !(!(#[trigger] head[i]).is_done
                && head[i].is_selected) by {
                assert(head[i] == ts[i]);
            }
            assert(!(!ts[ts.len() - 1].is_done && ts[ts.len() - 1].is_selected));
            assert(none_selected(p));
        }
        if at_most_one_selected(ts) {
            assert(at_most_one_selected(head)) by {
                assert forall|i: int, j: int|
                    0 <= i < head.len() && 0 <= j < head.len() && (#[trigger] head[i]).is_selected
                        && (#[trigger] head[j]).is_selected implies i == j by {
                    assert(ts[i].is_selected && ts[j].is_selected);
                }
            }
            if !last.is_done && last.is_selected {
                assert(ts[ts.len() - 1].is_selected);
                assert forall|i: int| 0 <= i < head.len() implies !(!(#[trigger] head[i]).is_done
                    && head[i].is_selected) by {
                    assert(ts[i].is_selected == head[i].is_selected);
                }
                assert(none_selected(ph));
            }
            assert(at_most_one_selected(p));
        }
        if exists|i: int| 0 <= i < ts.len() && !(#[trigger] ts[i]).is_done && ts[i].is_selected {
            let w = choose|i: int|
                0 <= i < ts.len() && !(#[trigger] ts[i]).is_done && ts[i].is_selected;
            if w < head.len() {
                assert(!head[w].is_done && head[w].is_selected);
                assert(!none_selected(ph));
                let k = choose|k: int| 0 <= k < ph.len() && (#[trigger] ph[k]).is_selected;
                assert(p[k] == ph[k]);
            } else {
                assert(p[p.len() - 1].is_selected);
            }
        }
    }
}

/// Archiving keeps the selection in order on both sides: the batch it makes
/// is empty or has exactly its first task selected, and so is what stays,
/// or it keeps the selected task it had.
pub proof fn lemma_archiving_keeps_selection(ts: Seq<TaskView>)
    requires
        selection_ok(ts),
    ensures
        selection_ok(archived_batch(ts)),
        selection_ok(after_archiving(ts)),
{
    lemma_parts(ts);
    lemma_fresh_selection(done_part(ts), Timestamp { secs: 0, nanos: 0 });
    lemma_first_selected(ts);
    let p = pending_part(ts);
    if done_is_selected(ts) {
        let w = choose|i: int| 0 <= i < ts.len() && (#[trigger] ts[i]).is_done && ts[i].is_selected;
        lemma_only_selected(ts, w);
        assert(none_selected(p));
        lemma_fresh_selection(p, Timestamp { secs: 0, nanos: 0 });
    } else if ts.len() > 0 {
        let i = first_selected(ts)->0;
        assert(!ts[i].is_done && ts[i].is_selected);
    }
}

/// A list with its selection in order keeps it when an unselected task is
/// appended, unless the list was empty.
pub proof fn lemma_push_unselected(ts: Seq<TaskView>, t: TaskView)
    requires
        selection_ok(ts),
        ts.len() > 0,
        !t.is_selected,
    ensures
        selection_ok(ts.push(t)),
{
    let r = ts.push(t);
    let k = choose|k: int| 0 <= k < ts.len() && (#[trigger] ts[k]).is_selected;
    assert(r[k].is_selected);
    assert forall|i: int, j: int|
        0 <= i < r.len() && 0 <= j < r.len() && (#[trigger] r[i]).is_selected && (
        #[trigger] r[j]).is_selected implies i == j by {
        assert(r[i] == ts[i]);
        assert(r[j] == ts[j]);
    }
}

/// At the ends of the list the selection does not move: going down from
/// the last task, or up from the first, changes nothing.
pub proof fn lemma_select_at_ends(ts: Seq<TaskView>)
    ensures
        first_selected(ts) == Some(ts.len() - 1) ==> select_next(ts) == ts && move_down(ts) == ts,
        first_selected(ts) == Some(0int) ==> select_previous(ts) == ts && move_up(ts) == ts,
        first_selected(ts) is None ==> select_next(ts) == ts && select_previous(ts) == ts,
{
}

/// Deleting from a list of one selected task empties the list; deleting
/// from an empty list changes nothing.
pub proof fn lemma_delete_small(ts: Seq<TaskView>)
    ensures
        ts.len() == 1 && ts[0].is_selected ==> delete_selected(ts) == Seq::<TaskView>::empty(),
        ts.len() == 0 ==> delete_selected(ts) == ts,
{
    lemma_first_selected(ts);
    if ts.len() == 1 && ts[0].is_selected {
        lemma_first_selected_is(ts, 0);
        assert(ts.remove(0) =~= Seq::<TaskView>::empty());
    }
}

/// Two lists of one length whose tasks agree on their done and activity
/// flags.
pub open spec fn same_activity(a: Seq<TaskView>, b: Seq<TaskView>) -> bool {
    &&& a.len() == b.len()
    &&& forall|i: int|
        0 <= i < a.len() ==> (#[trigger] a[i]).is_active == b[i].is_active && a[i].is_done
            == b[i].is_done
}

/// No more than one task is active and no done task is active.
pub open spec fn activity_ok(ts: Seq<TaskView>) -> bool {
    at_most_one_active(ts) && done_inactive(ts)
}

/// No task of the list is active.
pub open spec fn none_active(ts: Seq<TaskView>) -> bool {
    forall|i: int| 0 <= i < ts.len() ==> !(#[trigger] ts[i]).is_active
}

/// Lists that agree on their done and activity flags agree on whether
/// their activity is in order.
pub proof fn lemma_same_activity(a: Seq<TaskView>, b: Seq<TaskView>)
    requires
        same_activity(a, b),
    ensures
        activity_ok(a) == activity_ok(b),
        none_active(a) == none_active(b),
{
    if activity_ok(a) {
        assert forall|i: int, j: int|
            0 <= i < b.len() && 0 <= j < b.len() && (#[trigger] b[i]).is_active && (
            #[trigger] b[j]).is_active implies i == j by {
            assert(a[i].is_active && a[j].is_active);
        }
        assert forall|i: int| 0 <= i < b.len() implies !((#[trigger] b[i]).is_done
            && b[i].is_active) by {
            assert(a[i].is_active == b[i].is_active);
        }
    }
    if activity_ok(b) {
        assert forall|i: int, j: int|
            0 <= i < a.len() && 0 <= j < a.len() && (#[trigger] a[i]).is_active && (
            #[trigger] a[j]).is_active implies i == j by {
            assert(b[i].is_active && b[j].is_active);
        }
        assert forall|i: int| 0 <= i < a.len() implies !((#[trigger] a[i]).is_done
            && a[i].is_active) by {
            assert(a[i].is_active == b[i].is_active);
        }
    }
    if none_active(a) {
        assert forall|i: int| 0 <= i < b.len() implies !(#[trigger] b[i]).is_active by {
            assert(a[i].is_active == b[i].is_active);
        }
    }
    if none_active(b) {
        assert forall|i: int| 0 <= i < a.len() implies !(#[trigger] a[i]).is_active by {
            assert(a[i].is_active == b[i].is_active);
        }
    }
}

/// Toggling activity leaves at most one task active, whatever the list was
/// like, and toggling done never leaves a done task active.
pub proof fn lemma_toggles_keep_activity(ts: Seq<TaskView>)
    ensures
        at_most_one_active(toggle_active(ts)),
        done_inactive(ts) ==> done_inactive(toggle_active(ts)),
        activity_ok(ts) ==> activity_ok(toggle_done(ts)),
{
    lemma_first_selected(ts);
    let r = toggle_active(ts);
    assert forall|i: int, j: int|
        0 <= i < r.len() && 0 <= j < r.len() && (#[trigger] r[i]).is_active && (
        #[trigger] r[j]).is_active implies i == j by {
        assert(first_selected(ts) == Some(i));
        assert(first_selected(ts) == Some(j));
    }
    if done_inactive(ts) {
        assert forall|i: int| 0 <= i < r.len() implies !((#[trigger] r[i]).is_done
            && r[i].is_active) by {
            assert(r[i].is_done == ts[i].is_done);
        }
    }
    if activity_ok(ts) {
        let d = toggle_done(ts);
        assert forall|i: int, j: int|
            0 <= i < d.len() && 0 <= j < d.len() && (#[trigger] d[i]).is_active && (
            #[trigger] d[j]).is_active implies i == j by {
            assert(ts[i].is_active && ts[j].is_active);
        }
        assert forall|i: int| 0 <= i < d.len() implies !((#[trigger] d[i]).is_done
            && d[i].is_active) by {
            assert(!(ts[i].is_done && ts[i].is_active));
        }
    }
}

/// Moving the selection, reordering, deleting, adding a blank task and
/// accruing time keep the activity in order.
pub proof fn lemma_moves_keep_activity(ts: Seq<TaskView>, now: Timestamp, dt: Elapsed)
    requires
        activity_ok(ts),
    ensures
        activity_ok(select_next(ts)),
        activity_ok(select_previous(ts)),
        activity_ok(move_up(ts)),
        activity_ok(move_down(ts)),
        activity_ok(delete_selected(ts)),
        activity_ok(add_blank(ts, now)),
        activity_ok(accrue(ts, dt)),
        activity_ok(ensure_selection(ts)),
{
    lemma_first_selected(ts);
    lemma_first_active(ts);
    lemma_same_activity(ts, select_next(ts));
    lemma_same_activity(ts, select_previous(ts));
    lemma_same_activity(ts, accrue(ts, dt));
    lemma_same_activity(ts, ensure_selection(ts));
    let a = add_blank(ts, now);
    assert forall|i: int, j: int|
        0 <= i < a.len() && 0 <= j < a.len() && (#[trigger] a[i]).is_active && (
        #[trigger] a[j]).is_active implies i == j by {
        assert(ts[i].is_active && ts[j].is_active);
    }
    assert forall|i: int| 0 <= i < a.len() implies !((#[trigger] a[i]).is_done
        && a[i].is_active) by {
        if i < ts.len() {
            assert(!(ts[i].is_done && ts[i].is_active));
        }
    }
    match first_selected(ts) {
        Some(s) => {
            lemma_swap_keeps_activity(ts, s - 1, s);
            lemma_swap_keeps_activity(ts, s, s + 1);
            let rest = ts.remove(s);
            let d = delete_selected(ts);
            assert forall|i: int| 0 <= i < d.len() implies (#[trigger] d[i]).is_active
                == ts[if i < s {
                i
            } else {
                i + 1
            }].is_active && d[i].is_done == ts[if i < s {
                i
            } else {
                i + 1
            }].is_done by {
                assert(rest[i] == ts[if i < s {
                    i
                } else {
                    i + 1
                }]);
            }
            assert forall|i: int, j: int|
                0 <= i < d.len() && 0 <= j < d.len() && (#[trigger] d[i]).is_active && (
                #[trigger] d[j]).is_active implies i == j by {
                let oi = if i < s {
                    i
                } else {
                    i + 1
                };
                let oj = if j < s {
                    j
                } else {
                    j + 1
                };
                assert(ts[oi].is_active && ts[oj].is_active);
            }
            assert forall|i: int| 0 <= i < d.len() implies !((#[trigger] d[i]).is_done
                && d[i].is_active) by {
                let oi = if i < s {
                    i
                } else {
                    i + 1
                };
                assert(!(ts[oi].is_done && ts[oi].is_active));
            }
        },
        None => {},
    }
}

proof fn lemma_swap_keeps_activity(ts: Seq<TaskView>, i: int, j: int)
    requires
        activity_ok(ts),
    ensures
        0 <= i < ts.len() && 0 <= j < ts.len() ==> activity_ok(swapped(ts, i, j)),
{
    if 0 <= i < ts.len() && 0 <= j < ts.len() {
        let r = swapped(ts, i, j);
        let back = |k: int|
            if k == i {
                j
            } else if k == j {
                i
            } else {
                k
            };
        assert forall|a: int, b: int|
            0 <= a < r.len() && 0 <= b < r.len() && (#[trigger] r[a]).is_active && (
            #[trigger] r[b]).is_active implies a == b by {
            assert(r[a] == ts[back(a)]);
            assert(r[b] == ts[back(b)]);
            assert(ts[back(a)].is_active && ts[back(b)].is_active);
        }
        assert forall|a: int| 0 <= a < r.len() implies !((#[trigger] r[a]).is_done
            && r[a].is_active) by {
            assert(r[a] == ts[back(a)]);
            assert(!(ts[back(a)].is_done && ts[back(a)].is_active));
        }
    }
}

/// Archiving keeps the activity in order in what stays, and where no done
/// task was active, no task of the batch is active.
pub proof fn lemma_archiving_keeps_activity(ts: Seq<TaskView>)
    requires
        activity_ok(ts),
    ensures
        activity_ok(after_archiving(ts)),
        none_active(archived_batch(ts)),
{
    lemma_parts_activity(ts);
    let p = pending_part(ts);
    let d = done_part(ts);
    lemma_same_activity(p, reselect_at(p, 0));
    lemma_same_activity(d, reselect_at(d, 0));
}

proof fn lemma_parts_activity(ts: Seq<TaskView>)
    requires
        activity_ok(ts),
    ensures
        activity_ok(pending_part(ts)),
        none_active(done_part(ts)),
        none_active(ts) ==> none_active(pending_part(ts)),
    decreases ts.len(),
{
    if ts.len() > 0 {
        let head = ts.drop_last();
        assert(activity_ok(head)) by {
            assert forall|i: int, j: int|
                0 <= i < head.len() && 0 <= j < head.len() && (#[trigger] head[i]).is_active && (
                #[trigger] head[j]).is_active implies i == j by {
                assert(ts[i].is_active && ts[j].is_active);
            }
            assert forall|i: int| 0 <= i < head.len() implies !((#[trigger] head[i]).is_done
                && head[i].is_active) by {
                assert(!(ts[i].is_done && ts[i].is_active));
            }
        }
        lemma_parts_activity(head);
        let last = ts.last();
        assert(!(ts[ts.len() - 1].is_done && ts[ts.len() - 1].is_active));
        if none_active(ts) {
            assert forall|i: int| 0 <= i < head.len() implies !(#[trigger] head[i]).is_active by {
                assert(!ts[i].is_active);
            }
            assert(!ts[ts.len() - 1].is_active);
        }
        if !last.is_done && last.is_active {
            assert forall|i: int| 0 <= i < head.len() implies !(#[trigger] head[i]).is_active by {
                if head[i].is_active {
                    assert(ts[i].is_active && ts[ts.len() - 1].is_active);
                }
            }
            assert(none_active(head));
            assert(none_active(pending_part(head)));
        }
    }
}

/// A list with its activity in order keeps it when a task that is not
/// active is appended.
pub proof fn lemma_push_inactive(ts: Seq<TaskView>, t: TaskView)
    requires
        activity_ok(ts),
        !t.is_active,
    ensures
        activity_ok(ts.push(t)),
{
    let r = ts.push(t);
    assert forall|i: int, j: int|
        0 <= i < r.len() && 0 <= j < r.len() && (#[trigger] r[i]).is_active && (
        #[trigger] r[j]).is_active implies i == j by {
        assert(r[i] == ts[i]);
        assert(r[j] == ts[j]);
    }
    assert forall|i: int| 0 <= i < r.len() implies !((#[trigger] r[i]).is_done
        && r[i].is_active) by {
        if i < ts.len() {
            assert(r[i] == ts[i]);
        }
    }
}

/// Deleting from a list without active tasks leaves none active.
pub proof fn lemma_delete_keeps_inactive(ts: Seq<TaskView>)
    requires
        none_active(ts),
    ensures
        none_active(delete_selected(ts)),
        none_active(select_next(ts)),
        none_active(select_previous(ts)),
{
    lemma_first_selected(ts);
    lemma_same_activity(ts, select_next(ts));
    lemma_same_activity(ts, select_previous(ts));
    match first_selected(ts) {
        Some(s) => {
            let rest = ts.remove(s);
            let d = delete_selected(ts);
            assert forall|i: int| 0 <= i < d.len() implies !(#[trigger] d[i]).is_active by {
                let oi = if i < s {
                    i
                } else {
                    i + 1
                };
                assert(rest[i] == ts[oi]);
                assert(!ts[oi].is_active);
            }
        },
        None => {},
    }
}

} // verus!
