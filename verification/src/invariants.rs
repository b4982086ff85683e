//! What holds of every state the tracker can reach: the current batch index
//! stays in range, every list keeps exactly one selected task, and at most
//! one task is active.

use vstd::prelude::*;
use crate::model;
use crate::settings::Settings;
use crate::state::{AppState, AppView, EditField, Event, Key};
use crate::task::{ArchiveItemView, TaskView};
use crate::time::{Elapsed, Timestamp};

verus! {

impl AppView {
    /// Every list of tasks, the active list and each archive batch, is
    /// empty or has exactly one selected task.
    pub open spec fn selection_ok(self) -> bool {
        &&& model::selection_ok(self.tasks)
        &&& forall|c: int|
            0 <= c < self.archive.len() ==> model::selection_ok((#[trigger] self.archive[c]).tasks)
    }

    /// No list of tasks has two selected tasks, and every archive batch is
    /// empty or has exactly one.
    pub open spec fn selection_unique(self) -> bool {
        &&& model::at_most_one_selected(self.tasks)
        &&& forall|c: int|
            0 <= c < self.archive.len() ==> model::selection_ok((#[trigger] self.archive[c]).tasks)
    }

    /// At most one task of the active list is active, none that is done,
    /// and none in the archive.
    pub open spec fn activity_ok(self) -> bool {
        &&& model::activity_ok(self.tasks)
        &&& forall|c: int|
            0 <= c < self.archive.len() ==> model::none_active((#[trigger] self.archive[c]).tasks)
    }

    /// Whether dearchiving would put a task into an empty active list. The
    /// task arrives unselected, so the active list is then left with one
    /// task and no selection until a task is added or the display view is
    /// entered again.
    pub open spec fn dearchives_into_empty_list(self) -> bool {
        &&& self.tasks.len() == 0
        &&& self.current_batch() is Some
        &&& model::first_selected(self.archive[self.current_batch()->0].tasks) is Some
    }

    /// Whether `key` takes a task out of the archive into an empty active
    /// list.
    pub open spec fn restores_into_empty_list(self, key: Key) -> bool {
        &&& self.state == AppState::Archived
        &&& key == Key::Char(' ')
        &&& self.dearchives_into_empty_list()
    }

    /// Whether `event` is a key that takes a task out of the archive into
    /// an empty active list.
    pub open spec fn restores_into_empty_list_on(self, event: Event) -> bool {
        match event {
            Event::KeyPress(key) => self.restores_into_empty_list(key),
            Event::Tick => false,
        }
    }
}

/// What every command keeps if it held before: the batch index in range,
/// no list with two selected tasks and every batch with its selection in
/// order, the activity in order, and the styles derived from the colours.
pub open spec fn keeps(before: AppView, after: AppView) -> bool {
    &&& before.wf() ==> after.wf()
    &&& before.selection_unique() ==> after.selection_unique()
    &&& before.activity_ok() ==> after.activity_ok()
    &&& before.settings.styles_derived() ==> after.settings.styles_derived()
}

/// What every command but one keeps if it held before: every list empty or
/// with exactly one selected task. The one that does not is dearchiving into
/// an empty active list.
pub open spec fn keeps_selection(before: AppView, after: AppView) -> bool {
    before.selection_ok() ==> after.selection_ok()
}

/// The tracker starts with its batch index in range, its styles derived
/// from its colours and the active list's selection in order; the archive's
/// selection and the activity flags are in order if they were so in what was
/// loaded.
pub proof fn lemma_initial_state(
    data_path: Seq<char>,
    tasks: Seq<TaskView>,
    archive: Seq<ArchiveItemView>,
    settings: Settings,
    origin: std::time::Instant,
)
    ensures
        AppView::initial(data_path, tasks, archive, settings, origin).wf(),
        AppView::initial(data_path, tasks, archive, settings, origin).settings.styles_derived(),
        model::selection_ok(AppView::initial(data_path, tasks, archive, settings, origin).tasks),
        (forall|c: int|
            0 <= c < archive.len() ==> model::selection_ok((#[trigger] archive[c]).tasks))
            ==> AppView::initial(data_path, tasks, archive, settings, origin).selection_ok(),
        model::activity_ok(tasks) && (forall|c: int|
            0 <= c < archive.len() ==> model::none_active((#[trigger] archive[c]).tasks))
            ==> AppView::initial(data_path, tasks, archive, settings, origin).activity_ok(),
{
    model::lemma_fresh_selection(tasks, Timestamp { secs: 0, nanos: 0 });
    model::lemma_same_activity(tasks, model::normalise_selection(tasks));
}

/// Replacing the tasks of one batch by a list whose selection and activity
/// are in order keeps the archive in order.
proof fn lemma_with_batch(app: AppView, c: int, tasks: Seq<TaskView>)
    requires
        0 <= c < app.archive.len(),
    ensures
        app.with_batch_tasks(c, tasks).wf() == app.wf(),
        app.with_batch_tasks(c, tasks).tasks == app.tasks,
        app.with_batch_tasks(c, tasks).settings == app.settings,
        app.selection_unique() && model::selection_ok(tasks) ==> app.with_batch_tasks(
            c,
            tasks,
        ).selection_unique(),
        app.selection_ok() && model::selection_ok(tasks) ==> app.with_batch_tasks(
            c,
            tasks,
        ).selection_ok(),
        app.activity_ok() && model::none_active(tasks) ==> app.with_batch_tasks(
            c,
            tasks,
        ).activity_ok(),
{
    let r = app.with_batch_tasks(c, tasks);
    if app.selection_unique() && model::selection_ok(tasks) {
        assert forall|k: int| 0 <= k < r.archive.len() implies model::selection_ok(
            (#[trigger] r.archive[k]).tasks,
        ) by {
            if k != c {
                assert(r.archive[k] == app.archive[k]);
            }
        }
    }
    if app.activity_ok() && model::none_active(tasks) {
        assert forall|k: int| 0 <= k < r.archive.len() implies model::none_active(
            (#[trigger] r.archive[k]).tasks,
        ) by {
            if k != c {
                assert(r.archive[k] == app.archive[k]);
            }
        }
    }
}

/// A state whose lists are all in order has no list with two selected
/// tasks; and one that has none, but is not all in order, has an active
/// list with tasks of which none is selected.
proof fn lemma_unique_or_ok(app: AppView)
    ensures
        app.selection_ok() ==> app.selection_unique(),
        app.selection_unique() && !app.selection_ok() ==> model::first_selected(app.tasks)
            is None && app.tasks.len() > 0,
{
    model::lemma_first_selected(app.tasks);
}

/// A state that differs from one with no two selected tasks only in its
/// active list, which has no two selected tasks either, has none.
proof fn lemma_unique_with_tasks(before: AppView, after: AppView)
    requires
        before.selection_unique(),
        after.archive == before.archive,
        model::at_most_one_selected(after.tasks),
    ensures
        after.selection_unique(),
{
}

/// Moving the selection keeps every invariant.
pub proof fn lemma_select_commands(app: AppView)
    ensures
        keeps(app, app.inc_sel_task()),
        keeps(app, app.dec_sel_task()),
        keeps_selection(app, app.inc_sel_task()),
        keeps_selection(app, app.dec_sel_task()),
{
    let epoch = Timestamp { secs: 0, nanos: 0 };
    let zero = Elapsed { secs: 0, nanos: 0 };
    lemma_unique_or_ok(app);
    if model::selection_ok(app.tasks) {
        model::lemma_moves_keep_selection(app.tasks);
    }
    if app.activity_ok() {
        model::lemma_moves_keep_activity(app.tasks, epoch, zero);
    }
    match app.current_batch() {
        Some(c) => {
            let batch = app.archive[c].tasks;
            if app.selection_unique() {
                model::lemma_moves_keep_selection(batch);
            }
            if app.activity_ok() {
                model::lemma_delete_keeps_inactive(batch);
            }
            lemma_with_batch(app, c, model::select_next(batch));
            lemma_with_batch(app, c, model::select_previous(batch));
        },
        None => {},
    }
}

/// Reordering, deleting, toggling and accruing time keep every invariant.
pub proof fn lemma_list_commands(app: AppView, dt: Elapsed)
    ensures
        keeps(app, app.move_task_up()),
        keeps(app, app.move_task_down()),
        keeps(app, app.del_task()),
        keeps(app, app.activate_task()),
        keeps(app, app.do_undo_task()),
        keeps(app, app.add_elapsed(dt)),
        keeps_selection(app, app.move_task_up()),
        keeps_selection(app, app.move_task_down()),
        keeps_selection(app, app.del_task()),
        keeps_selection(app, app.activate_task()),
        keeps_selection(app, app.do_undo_task()),
        keeps_selection(app, app.add_elapsed(dt)),
{
    let epoch = Timestamp { secs: 0, nanos: 0 };
    lemma_unique_or_ok(app);
    model::lemma_toggles_keep_selection(app.tasks, dt);
    model::lemma_same_selection(app.tasks, model::toggle_done(app.tasks));
    model::lemma_same_selection(app.tasks, model::toggle_active(app.tasks));
    model::lemma_same_selection(app.tasks, model::accrue(app.tasks, dt));
    model::lemma_toggles_keep_activity(app.tasks);
    if model::selection_ok(app.tasks) {
        model::lemma_moves_keep_selection(app.tasks);
    }
    if app.activity_ok() {
        model::lemma_moves_keep_activity(app.tasks, epoch, dt);
    }
}

/// Committing the edit buffer changes a text of the selected task and no
/// flag of any task.
pub proof fn lemma_commit_keeps_flags(app: AppView)
    ensures
        model::same_selection(app.tasks, app.committed_tasks()),
        model::same_activity(app.tasks, app.committed_tasks()),
        model::first_selected(app.committed_tasks()) == model::first_selected(app.tasks),
{
    model::lemma_first_selected(app.tasks);
    model::lemma_same_selection(app.tasks, app.committed_tasks());
}

/// Committing the edit buffer keeps every invariant.
pub proof fn lemma_commit(app: AppView)
    ensures
        keeps(app, app.commit()),
        keeps_selection(app, app.commit()),
{
    lemma_commit_keeps_flags(app);
    model::lemma_same_selection(app.tasks, app.committed_tasks());
    model::lemma_same_activity(app.tasks, app.committed_tasks());
}

/// Starting an edit, switching its field, leaving it and adding a task keep
/// every invariant. Leaving the edit and adding a task even put the
/// selection of the active list in order where it was not.
pub proof fn lemma_edit_commands(app: AppView, field: EditField, now: Timestamp)
    ensures
        keeps(app, app.enter_edit(field)),
        keeps(app, app.change_field()),
        keeps(app, app.enter_display()),
        keeps(app, app.add_task(now)),
        keeps_selection(app, app.enter_edit(field)),
        keeps_selection(app, app.change_field()),
        app.selection_unique() ==> app.enter_display().selection_ok(),
        app.selection_unique() ==> app.add_task(now).selection_ok(),
{
    let zero = Elapsed { secs: 0, nanos: 0 };
    lemma_unique_or_ok(app);
    lemma_commit_keeps_flags(app);
    let committed = app.committed_tasks();
    model::lemma_same_selection(app.tasks, committed);
    model::lemma_same_activity(app.tasks, committed);
    model::lemma_fresh_selection(app.tasks, now);
    model::lemma_fresh_selection(committed, now);
    model::lemma_first_selected(app.tasks);
    if app.activity_ok() {
        model::lemma_moves_keep_activity(app.tasks, now, zero);
        model::lemma_moves_keep_activity(committed, now, zero);
    }
    let added = AppView {
        tasks: model::add_blank(app.tasks, now),
        show_popup: true,
        popup_type: crate::state::PopupType::NewTask,
        ..app
    };
    model::lemma_first_selected(added.tasks);
}

/// Moving the caret, typing, deleting, blinking, a new layout and a tick of
/// the clock keep every invariant.
pub proof fn lemma_caret_commands(app: AppView, x: nat, y: nat, c: char, clock: Elapsed)
    ensures
        keeps(app, app.set_cursor_pos(x, y)),
        keeps(app, app.dec_cursor()),
        keeps(app, app.inc_cursor()),
        keeps(app, app.dec_line()),
        keeps(app, app.inc_line()),
        keeps(app, app.delete_in_field()),
        keeps(app, app.type_in_field(c)),
        keeps(app, app.blink(clock)),
        keeps(app, app.set_layout(x, y)),
        keeps(app, app.update_times(clock)),
        keeps(app, app.tick(clock)),
        keeps_selection(app, app.set_cursor_pos(x, y)),
        keeps_selection(app, app.dec_cursor()),
        keeps_selection(app, app.inc_cursor()),
        keeps_selection(app, app.dec_line()),
        keeps_selection(app, app.inc_line()),
        keeps_selection(app, app.delete_in_field()),
        keeps_selection(app, app.type_in_field(c)),
        keeps_selection(app, app.blink(clock)),
        keeps_selection(app, app.set_layout(x, y)),
        keeps_selection(app, app.update_times(clock)),
        keeps_selection(app, app.tick(clock)),
{
    lemma_list_commands(app, app.since_event(clock));
}

/// Removing a batch keeps the batch index in range and the archive in order.
proof fn lemma_drop_batch(app: AppView, c: int)
    requires
        0 <= c < app.archive.len(),
    ensures
        app.drop_batch(c).wf(),
        app.drop_batch(c).tasks == app.tasks,
        app.drop_batch(c).settings == app.settings,
        app.selection_unique() ==> app.drop_batch(c).selection_unique(),
        app.selection_ok() ==> app.drop_batch(c).selection_ok(),
        app.activity_ok() ==> app.drop_batch(c).activity_ok(),
{
    let r = app.drop_batch(c);
    assert forall|k: int| 0 <= k < r.archive.len() implies #[trigger] r.archive[k]
        == app.archive[if k < c {
        k
    } else {
        k + 1
    }] by {}
    if app.selection_unique() {
        assert forall|k: int| 0 <= k < r.archive.len() implies model::selection_ok(
            (#[trigger] r.archive[k]).tasks,
        ) by {
            let o = if k < c {
                k
            } else {
                k + 1
            };
            assert(r.archive[k] == app.archive[o]);
        }
    }
    if app.activity_ok() {
        assert forall|k: int| 0 <= k < r.archive.len() implies model::none_active(
            (#[trigger] r.archive[k]).tasks,
        ) by {
            let o = if k < c {
                k
            } else {
                k + 1
            };
            assert(r.archive[k] == app.archive[o]);
        }
    }
}

/// Archiving the done tasks keeps every invariant.
proof fn lemma_archiving(app: AppView, now: Timestamp)
    ensures
        keeps(app, app.archive_done_tasks(now)),
        keeps_selection(app, app.archive_done_tasks(now)),
{
    let r = app.archive_done_tasks(now);
    lemma_unique_or_ok(app);
    model::lemma_parts(app.tasks);
    model::lemma_fresh_selection(model::done_part(app.tasks), now);
    model::lemma_fresh_selection(model::pending_part(app.tasks), now);
    if model::selection_ok(app.tasks) {
        model::lemma_archiving_keeps_selection(app.tasks);
    } else {
        model::lemma_first_selected(app.tasks);
        if model::first_selected(app.tasks) is None {
            assert(!model::done_is_selected(app.tasks));
        }
    }
    if app.selection_unique() {
        assert(model::selection_ok(model::archived_batch(app.tasks)));
        assert forall|k: int| 0 <= k < r.archive.len() implies model::selection_ok(
            (#[trigger] r.archive[k]).tasks,
        ) by {
            if k < app.archive.len() {
                assert(r.archive[k] == app.archive[k]);
            }
        }
    }
    if app.activity_ok() {
        model::lemma_archiving_keeps_activity(app.tasks);
        assert forall|k: int| 0 <= k < r.archive.len() implies model::none_active(
            (#[trigger] r.archive[k]).tasks,
        ) by {
            if k < app.archive.len() {
                assert(r.archive[k] == app.archive[k]);
            }
        }
    }
}

/// The state after the selected task of batch `c` has gone back to the
/// active list, before an empty batch is removed.
spec fn restored_state(app: AppView, c: int) -> AppView {
    let batch = app.archive[c].tasks;
    match model::first_selected(batch) {
        Some(i) => AppView {
            tasks: app.tasks.push(model::restored(batch[i])),
            ..app
        }.with_batch_tasks(c, model::delete_selected(batch)),
        None => app,
    }
}

/// Taking the selected task of a batch back keeps every invariant but, into
/// an empty active list, the selection of that list.
proof fn lemma_restoring(app: AppView, c: int)
    requires
        0 <= c < app.archive.len(),
    ensures
        keeps(app, restored_state(app, c)),
        app.tasks.len() > 0 || model::first_selected(app.archive[c].tasks) is None
            ==> keeps_selection(app, restored_state(app, c)),
        restored_state(app, c).archive.len() == app.archive.len(),
        restored_state(app, c).curr_archive == app.curr_archive,
{
    let batch = app.archive[c].tasks;
    model::lemma_first_selected(batch);
    match model::first_selected(batch) {
        Some(i) => {
            let task = model::restored(batch[i]);
            let pushed = AppView { tasks: app.tasks.push(task), ..app };
            let rest = model::delete_selected(batch);
            if app.selection_unique() {
                model::lemma_moves_keep_selection(batch);
                assert forall|a: int, b: int|
                    0 <= a < pushed.tasks.len() && 0 <= b < pushed.tasks.len() && (
                    #[trigger] pushed.tasks[a]).is_selected && (
                    #[trigger] pushed.tasks[b]).is_selected implies a == b by {
                    assert(pushed.tasks[a] == app.tasks[a]);
                    assert(pushed.tasks[b] == app.tasks[b]);
                }
                lemma_unique_with_tasks(app, pushed);
                if app.selection_ok() && app.tasks.len() > 0 {
                    model::lemma_push_unselected(app.tasks, task);
                }
            }
            if app.activity_ok() {
                model::lemma_delete_keeps_inactive(batch);
                assert(!batch[i].is_active);
                model::lemma_push_inactive(app.tasks, task);
                assert(pushed.activity_ok());
            }
            lemma_with_batch(pushed, c, rest);
        },
        None => {},
    }
}

/// Walking the archive, archiving and dearchiving keep every invariant;
/// only dearchiving into an empty active list leaves that list without a
/// selection.
pub proof fn lemma_archive_commands(app: AppView, now: Timestamp)
    ensures
        keeps(app, app.inc_arch_item()),
        keeps(app, app.dec_arch_item()),
        keeps(app, app.archive_done_tasks(now)),
        keeps(app, app.dearchive_task()),
        keeps_selection(app, app.inc_arch_item()),
        keeps_selection(app, app.dec_arch_item()),
        keeps_selection(app, app.archive_done_tasks(now)),
        !app.dearchives_into_empty_list() ==> keeps_selection(app, app.dearchive_task()),
{
    lemma_archiving(app, now);
    match app.current_batch() {
        Some(c) => {
            lemma_restoring(app, c);
            lemma_drop_batch(restored_state(app, c), c);
        },
        None => {},
    }
}

/// Selecting and stepping a setting keep every invariant.
pub proof fn lemma_settings_commands(app: AppView)
    ensures
        keeps(app, app.inc_setting_selection()),
        keeps(app, app.dec_setting_selection()),
        keeps(app, app.inc_setting()),
        keeps(app, app.dec_setting()),
        keeps_selection(app, app.inc_setting_selection()),
        keeps_selection(app, app.dec_setting_selection()),
        keeps_selection(app, app.inc_setting()),
        keeps_selection(app, app.dec_setting()),
{
    crate::settings::lemma_step_keeps_styles(app.settings, app.edit_setting, true);
    crate::settings::lemma_step_keeps_styles(app.settings, app.edit_setting, false);
}

/// In the display view every key keeps every invariant.
#[verifier::rlimit(30)]
proof fn lemma_display_key(app: AppView, key: Key, now: Timestamp)
    ensures
        keeps(app, app.on_display_key(key, now).0),
        keeps_selection(app, app.on_display_key(key, now).0),
{
    reveal(AppView::on_display_key);
    let zero = Elapsed { secs: 0, nanos: 0 };
    let editing = AppView {
        show_popup: true,
        popup_type: crate::state::PopupType::EditTask,
        ..app
    };
    lemma_unique_or_ok(app);
    lemma_select_commands(app);
    lemma_list_commands(app, zero);
    lemma_edit_commands(app, EditField::Title, now);
    lemma_edit_commands(editing, EditField::Description, now);
    lemma_archive_commands(app, now);
}

/// In the edit view every key keeps every invariant.
proof fn lemma_edit_key(app: AppView, key: Key)
    ensures
        keeps(app, app.on_edit_key(key).0),
        keeps_selection(app, app.on_edit_key(key).0),
{
    reveal(AppView::on_edit_key);
    let epoch = Timestamp { secs: 0, nanos: 0 };
    let zero = Elapsed { secs: 0, nanos: 0 };
    lemma_unique_or_ok(app);
    lemma_edit_commands(app, EditField::Title, epoch);
    match key {
        Key::Char(c) => lemma_caret_commands(app, 0, 0, c, zero),
        _ => lemma_caret_commands(app, 0, 0, '\n', zero),
    }
}

/// In the archive view every key keeps every invariant, except that a task
/// taken back into an empty active list leaves that list without a
/// selection.
proof fn lemma_archive_key(app: AppView, key: Key)
    ensures
        keeps(app, app.on_archive_key(key).0),
        !(key == Key::Char(' ') && app.dearchives_into_empty_list()) ==> keeps_selection(
            app,
            app.on_archive_key(key).0,
        ),
{
    reveal(AppView::on_archive_key);
    let epoch = Timestamp { secs: 0, nanos: 0 };
    lemma_unique_or_ok(app);
    lemma_edit_commands(app, EditField::Title, epoch);
    lemma_select_commands(app);
    lemma_archive_commands(app, epoch);
}

/// In the settings view every key keeps every invariant.
proof fn lemma_settings_key(app: AppView, key: Key)
    ensures
        keeps(app, app.on_settings_key(key).0),
        keeps_selection(app, app.on_settings_key(key).0),
{
    reveal(AppView::on_settings_key);
    let epoch = Timestamp { secs: 0, nanos: 0 };
    lemma_unique_or_ok(app);
    lemma_settings_commands(app);
    lemma_edit_commands(app, EditField::Title, epoch);
}

/// Whatever key is handled in whatever view, what held before holds after:
/// the current batch index is in range; no list holds two selected tasks;
/// at most one task is active, none that is done, none in the archive; the
/// styles are derived from the colours. And every list that was empty or
/// had exactly one selected task is so afterwards, with one exception: a
/// task taken back from the archive into an empty active list arrives
/// unselected.
pub proof fn lemma_key(app: AppView, key: Key, now: Timestamp)
    ensures
        keeps(app, app.handle_key(key, now).0),
        !app.restores_into_empty_list(key) ==> keeps_selection(app, app.handle_key(key, now).0),
{
    match app.state {
        AppState::Display => lemma_display_key(app, key, now),
        AppState::EditTask => lemma_edit_key(app, key),
        AppState::Archived => lemma_archive_key(app, key),
        AppState::Settings => lemma_settings_key(app, key),
    }
}

/// Whatever event is handled, whatever the clocks read, what held before
/// holds after, with the one exception that `lemma_key` names.
pub proof fn lemma_event(app: AppView, event: Event, clock: Elapsed, now: Timestamp)
    ensures
        keeps(app, app.handle_event(event, clock, now).0),
        !app.restores_into_empty_list_on(event) ==> keeps_selection(
            app,
            app.handle_event(event, clock, now).0,
        ),
{
    let ticked = app.tick(clock);
    lemma_caret_commands(app, 0, 0, ' ', clock);
    match event {
        Event::KeyPress(key) => {
            lemma_key(ticked, key, now);
            assert(ticked.restores_into_empty_list(key) == app.restores_into_empty_list(key)) by {
                lemma_tick_keeps_lists(app, clock);
            }
        },
        Event::Tick => {},
    }
}

/// A tick changes the time of the active task, the tick reference and the
/// blink, and nothing else: the view, the archive and the number of tasks
/// stay.
proof fn lemma_tick_keeps_lists(app: AppView, clock: Elapsed)
    ensures
        app.tick(clock).state == app.state,
        app.tick(clock).archive == app.archive,
        app.tick(clock).curr_archive == app.curr_archive,
        app.tick(clock).tasks.len() == app.tasks.len(),
{
    model::lemma_first_active(app.tasks);
}

} // verus!
