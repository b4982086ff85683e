//! The tracker itself: the owner of all state, with one method for each
//! command and one that dispatches a key to them.

use vstd::prelude::*;
use vstd::string::*;
use crate::editor::TextEdit;
use crate::invariants::{
    keeps, keeps_selection, lemma_archive_commands, lemma_caret_commands, lemma_commit,
    lemma_edit_commands, lemma_event, lemma_initial_state, lemma_key, lemma_list_commands,
    lemma_select_commands, lemma_settings_commands,
};
use crate::settings::{EditSettingField, Settings};
use crate::state::{Action, AppState, AppView, EditField, Event, Key, PopupType};
use crate::store;
use crate::task::{ArchiveItem, Task, batch_views, views};
use crate::text::{chars_of, split_lines, string_of, string_views, without_line_breaks};
use crate::time::{Elapsed, Timestamp, elapsed_since, instant_now, utc_now};

verus! {

/// The whole state of the tracker. `origin` is the moment the tracker was
/// made; the tracker's clock reads the time since then, and `last_event` and
/// `last_blink` are readings of it.
pub struct App {
    data_path: String,
    origin: std::time::Instant,
    last_event: Elapsed,
    tasks: Vec<Task>,
    archive: Vec<ArchiveItem>,
    curr_archive: usize,
    state: AppState,
    edit_field: EditField,
    edit_setting: EditSettingField,
    show_popup: bool,
    popup_type: PopupType,
    desc_width_char: usize,
    task_block_height: usize,
    first_task: usize,
    editor: TextEdit,
    cursor_shown: bool,
    last_blink: Elapsed,
    settings: Settings,
}

impl View for App {
    type V = AppView;

    closed spec fn view(&self) -> AppView {
        AppView {
            data_path: self.data_path@,
            tasks: views(self.tasks@),
            archive: batch_views(self.archive@),
            curr_archive: self.curr_archive as nat,
            state: self.state,
            edit_field: self.edit_field,
            edit_setting: self.edit_setting,
            show_popup: self.show_popup,
            popup_type: self.popup_type,
            desc_width_char: self.desc_width_char as nat,
            task_block_height: self.task_block_height as nat,
            first_task: self.first_task as nat,
            editor: self.editor@,
            cursor_shown: self.cursor_shown,
            origin: self.origin,
            last_event: self.last_event,
            last_blink: self.last_blink,
            settings: self.settings,
        }
    }
}

/// The first visible row after the least shift that brings row `j` into a
/// window of `height` rows that started at `first`.
pub fn scroll_to(first: usize, height: usize, j: usize) -> (r: usize)
    ensures
        r == crate::state::scroll_to(first as nat, height as nat, j as nat),
{
    if j < first {
        j
    } else if j - first >= height {
        if height > 0 {
            j - (height - 1)
        } else {
            j
        }
    } else {
        first
    }
}

impl App {
    /// The tracker over the loaded tasks and archive, made at the moment the
    /// clock shows, from which its own clock counts. The first task is
    /// selected and no other; the archive is taken as it is, its last batch
    /// current. Without stored settings the default settings are used; of
    /// stored settings the colours are taken and the styles derived anew.
    pub fn new(
        data_path: String,
        tasks: Vec<Task>,
        archive: Vec<ArchiveItem>,
        settings: Option<Settings>,
    ) -> (app: App)
        ensures
            app@ == AppView::initial(
                data_path@,
                views(tasks@),
                batch_views(archive@),
                match settings {
                    Some(s) => s,
                    None => Settings::spec_default_settings(),
                },
                app@.origin,
            ),
            app@.wf(),
            app@.settings.styles_derived(),
            crate::model::selection_ok(app@.tasks),
            (forall|c: int|
                0 <= c < archive.len() ==> crate::model::selection_ok(
                    views((#[trigger] archive@[c]).tasks@),
                )) ==> app@.selection_ok(),
            crate::model::activity_ok(views(tasks@)) && (forall|c: int|
                0 <= c < archive.len() ==> crate::model::none_active(
                    views((#[trigger] archive@[c]).tasks@),
                )) ==> app@.activity_ok(),
    {
        let origin = instant_now();
        proof {
            let settings_value = match settings {
                Some(s) => s,
                None => Settings::spec_default_settings(),
            };
            lemma_initial_state(
                data_path@,
                views(tasks@),
                batch_views(archive@),
                settings_value,
                origin,
            );
            assert forall|c: int| 0 <= c < archive.len() implies (#[trigger] batch_views(
                archive@,
            )[c]).tasks == views(archive@[c].tasks@) by {}
        }
        let mut tasks = tasks;
        store::normalise_selection(&mut tasks);
        let curr_archive = if archive.len() > 0 {
            archive.len() - 1
        } else {
            0
        };
        let mut settings = match settings {
            Some(s) => s,
            None => Settings::default_settings(),
        };
        settings.set_colours();
        App {
            data_path,
            origin,
            last_event: Elapsed::zero(),
            tasks,
            archive,
            curr_archive,
            state: AppState::Display,
            edit_field: EditField::Description,
            edit_setting: EditSettingField::Split,
            show_popup: false,
            popup_type: PopupType::NewTask,
            desc_width_char: 0,
            task_block_height: 0,
            first_task: 0,
            editor: TextEdit::new(),
            cursor_shown: false,
            last_blink: Elapsed::zero(),
            settings,
        }
    }

    /// Takes the wrap width of the description pane and the height of the
    /// task window from the renderer.
    pub fn set_layout(&mut self, desc_width_char: usize, task_block_height: usize)
        ensures
            final(self)@ == old(self)@.set_layout(
                desc_width_char as nat,
                task_block_height as nat,
            ),
            keeps(old(self)@, final(self)@),
            keeps_selection(old(self)@, final(self)@),
    {
        proof {
            let zero = Elapsed { secs: 0, nanos: 0 };
            lemma_caret_commands(
                self@,
                desc_width_char as nat,
                task_block_height as nat,
                ' ',
                zero,
            );
        }
        self.desc_width_char = desc_width_char;
        self.task_block_height = task_block_height;
    }

    /// Exchanges the selected task with the one before it.
    pub fn move_task_up(&mut self)
        ensures
            final(self)@ == old(self)@.move_task_up(),
            keeps(old(self)@, final(self)@),
            keeps_selection(old(self)@, final(self)@),
    {
        proof {
            let zero = Elapsed { secs: 0, nanos: 0 };
            lemma_list_commands(self@, zero);
        }
        store::move_up(&mut self.tasks);
    }

    /// Exchanges the selected task with the one after it.
    pub fn move_task_down(&mut self)
        ensures
            final(self)@ == old(self)@.move_task_down(),
            keeps(old(self)@, final(self)@),
            keeps_selection(old(self)@, final(self)@),
    {
        proof {
            let zero = Elapsed { secs: 0, nanos: 0 };
            lemma_list_commands(self@, zero);
        }
        store::move_down(&mut self.tasks);
    }

    /// Moves the selection one task down in the list on view and scrolls the
    /// window after it.
    pub fn inc_sel_task(&mut self)
        ensures
            final(self)@ == old(self)@.inc_sel_task(),
            keeps(old(self)@, final(self)@),
            keeps_selection(old(self)@, final(self)@),
    {
        proof {
            lemma_select_commands(self@);
        }
        match self.state {
            AppState::Display => {
                match store::select_next(&mut self.tasks) {
                    Some(k) => {
                        self.first_task = scroll_to(self.first_task, self.task_block_height, k);
                    },
                    None => {},
                }
            },
            AppState::Archived => {
                if self.curr_archive < self.archive.len() {
                    let c = self.curr_archive;
                    let target = store::select_next(&mut self.archive[c].tasks);
                    assert(batch_views(self.archive@) =~= old(self)@.with_batch_tasks(
                        c as int,
                        crate::model::select_next(old(self)@.archive[c as int].tasks),
                    ).archive);
                    match target {
                        Some(k) => {
                            self.first_task = scroll_to(
                                self.first_task,
                                self.task_block_height,
                                k,
                            );
                        },
                        None => {
                            assert(batch_views(self.archive@) =~= old(self)@.archive);
                        },
                    }
                }
            },
            _ => {},
        }
    }

    /// Moves the selection one task up in the list on view and scrolls the
    /// window after it.
    pub fn dec_sel_task(&mut self)
        ensures
            final(self)@ == old(self)@.dec_sel_task(),
            keeps(old(self)@, final(self)@),
            keeps_selection(old(self)@, final(self)@),
    {
        proof {
            lemma_select_commands(self@);
        }
        match self.state {
            AppState::Display => {
                match store::select_previous(&mut self.tasks) {
                    Some(k) => {
                        self.first_task = scroll_to(self.first_task, self.task_block_height, k);
                    },
                    None => {},
                }
            },
            AppState::Archived => {
                if self.curr_archive < self.archive.len() {
                    let c = self.curr_archive;
                    let target = store::select_previous(&mut self.archive[c].tasks);
                    assert(batch_views(self.archive@) =~= old(self)@.with_batch_tasks(
                        c as int,
                        crate::model::select_previous(old(self)@.archive[c as int].tasks),
                    ).archive);
                    match target {
                        Some(k) => {
                            self.first_task = scroll_to(
                                self.first_task,
                                self.task_block_height,
                                k,
                            );
                        },
                        None => {
                            assert(batch_views(self.archive@) =~= old(self)@.archive);
                        },
                    }
                }
            },
            _ => {},
        }
    }
}

impl App {
    /// Starts editing `field` of the selected task; does nothing if no task
    /// is selected.
    pub fn enter_edit(&mut self, field: EditField)
        ensures
            final(self)@ == old(self)@.enter_edit(field),
            keeps(old(self)@, final(self)@),
            keeps_selection(old(self)@, final(self)@),
    {
        proof {
            let epoch = Timestamp { secs: 0, nanos: 0 };
            lemma_edit_commands(self@, field, epoch);
        }
        match store::find_selected(&self.tasks) {
            Some(i) => {
                let value = match field {
                    EditField::Title => chars_of(self.tasks[i].title.as_str()),
                    EditField::Description => chars_of(self.tasks[i].description.as_str()),
                };
                self.editor = TextEdit::enter(value);
                self.last_blink = self.last_event;
                self.state = AppState::EditTask;
                self.edit_field = field;
            },
            None => {},
        }
    }

    /// Writes the edit buffer to the field under edit of the selected task:
    /// to a description as it is, to a title without its line breaks.
    pub fn commit(&mut self)
        ensures
            final(self)@ == old(self)@.commit(),
            keeps(old(self)@, final(self)@),
            keeps_selection(old(self)@, final(self)@),
    {
        proof {
            lemma_commit(self@);
        }
        match store::find_selected(&self.tasks) {
            Some(i) => {
                let text = self.editor.text();
                match self.edit_field {
                    EditField::Title => {
                        let line = without_line_breaks(&text);
                        self.tasks[i].title = string_of(&line);
                    },
                    EditField::Description => {
                        self.tasks[i].description = string_of(&text);
                    },
                }
                assert(views(self.tasks@) =~= old(self)@.committed_tasks());
            },
            None => {},
        }
    }

    /// Goes back to the display view: closes the popup, commits an edit in
    /// progress, and selects the first task if none is selected.
    pub fn enter_display(&mut self)
        ensures
            final(self)@ == old(self)@.enter_display(),
            keeps(old(self)@, final(self)@),
            keeps_selection(old(self)@, final(self)@),
            old(self)@.selection_unique() ==> final(self)@.selection_ok(),
    {
        proof {
            let epoch = Timestamp { secs: 0, nanos: 0 };
            lemma_edit_commands(self@, EditField::Title, epoch);
        }
        self.show_popup = false;
        if self.state == AppState::EditTask {
            self.commit();
        }
        self.state = AppState::Display;
        store::ensure_selection(&mut self.tasks);
    }

    /// Commits the field under edit and moves the edit to the other field of
    /// the selected task.
    pub fn change_field(&mut self)
        ensures
            final(self)@ == old(self)@.change_field(),
            keeps(old(self)@, final(self)@),
            keeps_selection(old(self)@, final(self)@),
    {
        proof {
            let epoch = Timestamp { secs: 0, nanos: 0 };
            lemma_edit_commands(self@, EditField::Title, epoch);
        }
        match store::find_selected(&self.tasks) {
            Some(i) => {
                self.commit();
                assert(views(self.tasks@).len() == views(old(self).tasks@).len());
                let other = match self.edit_field {
                    EditField::Title => EditField::Description,
                    EditField::Description => EditField::Title,
                };
                let value = match other {
                    EditField::Title => chars_of(self.tasks[i].title.as_str()),
                    EditField::Description => chars_of(self.tasks[i].description.as_str()),
                };
                self.editor = TextEdit::enter(value);
                self.last_blink = self.last_event;
                self.edit_field = other;
            },
            None => {},
        }
    }

    /// Adds `dt` to the time spent on the active task. The tick reference is
    /// not touched.
    pub fn add_elapsed(&mut self, dt: Elapsed)
        ensures
            final(self)@ == old(self)@.add_elapsed(dt),
            crate::model::accrued(old(self)@.tasks, final(self)@.tasks, dt),
            final(self)@.last_event == old(self)@.last_event,
            keeps(old(self)@, final(self)@),
            keeps_selection(old(self)@, final(self)@),
    {
        proof {
            lemma_list_commands(self@, dt);
            crate::model::lemma_accrue(self@.tasks, dt);
        }
        store::accrue(&mut self.tasks, dt);
    }

    /// Updates the times at clock reading `clock`: the time since the tick
    /// reference goes to the active task, and `clock` becomes the tick
    /// reference, whether a task is active or not.
    pub fn update_times_at(&mut self, clock: Elapsed)
        ensures
            final(self)@ == old(self)@.update_times(clock),
            final(self)@.last_event == clock,
            crate::model::accrued(
                old(self)@.tasks,
                final(self)@.tasks,
                old(self)@.since_event(clock),
            ),
            clock.wf() && old(self)@.last_event.wf() && old(self)@.last_event.total_nanos()
                <= clock.total_nanos() ==> old(self)@.since_event(clock).total_nanos()
                == clock.total_nanos() - old(self)@.last_event.total_nanos(),
            keeps(old(self)@, final(self)@),
            keeps_selection(old(self)@, final(self)@),
    {
        proof {
            crate::state::lemma_tick_restarts(self@, clock);
        }
        let dt = clock.minus(self.last_event);
        self.add_elapsed(dt);
        self.last_event = clock;
    }

    /// Updates the times at the reading of the tracker's clock. Whatever the
    /// clock reads, the state is the old one after `update_times` for a
    /// well-formed reading, which is the new tick reference.
    pub fn update_times(&mut self)
        ensures
            exists|clock: Elapsed|
                clock.wf() && final(self)@ == #[trigger] old(self)@.update_times(clock),
            final(self)@.last_event.wf(),
            keeps(old(self)@, final(self)@),
            keeps_selection(old(self)@, final(self)@),
    {
        let clock = self.read_clock();
        self.update_times_at(clock);
    }

    /// The reading of the tracker's clock: the time since the tracker was
    /// made.
    fn read_clock(&self) -> (clock: Elapsed)
        ensures
            clock.wf(),
    {
        elapsed_since(&self.origin)
    }

    /// Toggles activity on the selected task.
    pub fn activate_task(&mut self)
        ensures
            final(self)@ == old(self)@.activate_task(),
            keeps(old(self)@, final(self)@),
            keeps_selection(old(self)@, final(self)@),
    {
        proof {
            let zero = Elapsed { secs: 0, nanos: 0 };
            lemma_list_commands(self@, zero);
        }
        store::toggle_active(&mut self.tasks);
    }

    /// Flips the done flag of the selected task.
    pub fn do_undo_task(&mut self)
        ensures
            final(self)@ == old(self)@.do_undo_task(),
            keeps(old(self)@, final(self)@),
            keeps_selection(old(self)@, final(self)@),
    {
        proof {
            let zero = Elapsed { secs: 0, nanos: 0 };
            lemma_list_commands(self@, zero);
        }
        store::toggle_done(&mut self.tasks);
    }

    /// The caret's column and row at the current wrap width.
    pub fn get_cursor_pos(&self) -> (pos: (usize, usize))
        ensures
            (pos.0 as nat, pos.1 as nat) == self@.get_cursor_pos(),
    {
        self.editor.cursor_position(self.desc_width_char)
    }

    /// Sends the caret to column `x` of row `y` at the current wrap width.
    pub fn set_cursor_pos(&mut self, x: usize, y: usize)
        ensures
            final(self)@ == old(self)@.set_cursor_pos(x as nat, y as nat),
            keeps(old(self)@, final(self)@),
            keeps_selection(old(self)@, final(self)@),
    {
        proof {
            let zero = Elapsed { secs: 0, nanos: 0 };
            lemma_caret_commands(self@, x as nat, y as nat, ' ', zero);
        }
        self.editor.set_cursor_position(x, y, self.desc_width_char);
    }

    /// Moves the caret one character left.
    pub fn dec_cursor(&mut self)
        ensures
            final(self)@ == old(self)@.dec_cursor(),
            keeps(old(self)@, final(self)@),
            keeps_selection(old(self)@, final(self)@),
    {
        proof {
            let zero = Elapsed { secs: 0, nanos: 0 };
            lemma_caret_commands(self@, 0, 0, ' ', zero);
        }
        if self.editor.move_left() {
            self.cursor_shown = true;
            self.last_blink = self.last_event;
        }
    }

    /// Moves the caret one character right.
    pub fn inc_cursor(&mut self)
        ensures
            final(self)@ == old(self)@.inc_cursor(),
            keeps(old(self)@, final(self)@),
            keeps_selection(old(self)@, final(self)@),
    {
        proof {
            let zero = Elapsed { secs: 0, nanos: 0 };
            lemma_caret_commands(self@, 0, 0, ' ', zero);
        }
        if self.editor.move_right() {
            self.cursor_shown = true;
            self.last_blink = self.last_event;
        }
    }

    /// Moves the caret one row up.
    pub fn dec_line(&mut self)
        ensures
            final(self)@ == old(self)@.dec_line(),
            keeps(old(self)@, final(self)@),
            keeps_selection(old(self)@, final(self)@),
    {
        proof {
            let zero = Elapsed { secs: 0, nanos: 0 };
            lemma_caret_commands(self@, 0, 0, ' ', zero);
        }
        self.editor.move_up(self.desc_width_char);
    }

    /// Moves the caret one row down.
    pub fn inc_line(&mut self)
        ensures
            final(self)@ == old(self)@.inc_line(),
            keeps(old(self)@, final(self)@),
            keeps_selection(old(self)@, final(self)@),
    {
        proof {
            let zero = Elapsed { secs: 0, nanos: 0 };
            lemma_caret_commands(self@, 0, 0, ' ', zero);
        }
        self.editor.move_down(self.desc_width_char);
    }

    /// Deletes the character before the caret.
    pub fn delete_in_field(&mut self)
        ensures
            final(self)@ == old(self)@.delete_in_field(),
            keeps(old(self)@, final(self)@),
            keeps_selection(old(self)@, final(self)@),
    {
        proof {
            let zero = Elapsed { secs: 0, nanos: 0 };
            lemma_caret_commands(self@, 0, 0, ' ', zero);
        }
        self.editor.backspace();
    }

    /// Types `c` before the caret.
    pub fn type_in_field(&mut self, c: char)
        ensures
            final(self)@ == old(self)@.type_in_field(c),
            keeps(old(self)@, final(self)@),
            keeps_selection(old(self)@, final(self)@),
    {
        proof {
            let zero = Elapsed { secs: 0, nanos: 0 };
            lemma_caret_commands(self@, 0, 0, c, zero);
        }
        self.editor.insert(c);
    }

    /// Lets the caret blink at clock reading `clock`: if more than the blink
    /// time has passed since the blink last restarted, the caret flips and
    /// the blink restarts at `clock`. Says whether the caret flipped.
    pub fn blink(&mut self, clock: Elapsed) -> (flipped: bool)
        ensures
            final(self)@ == old(self)@.blink(clock),
            flipped == (old(self)@.since_blink(clock).total_nanos() > 400_000_000),
            flipped ==> final(self)@.last_blink == clock,
            !flipped ==> final(self)@.last_blink == old(self)@.last_blink,
            keeps(old(self)@, final(self)@),
            keeps_selection(old(self)@, final(self)@),
    {
        proof {
            lemma_caret_commands(self@, 0, 0, ' ', clock);
        }
        if clock.minus(self.last_blink).longer_than_millis(400) {
            self.cursor_shown = !self.cursor_shown;
            self.last_blink = clock;
            true
        } else {
            false
        }
    }

    /// Makes the next batch of the archive the current one.
    pub fn inc_arch_item(&mut self)
        ensures
            final(self)@ == old(self)@.inc_arch_item(),
            keeps(old(self)@, final(self)@),
            keeps_selection(old(self)@, final(self)@),
    {
        proof {
            let epoch = Timestamp { secs: 0, nanos: 0 };
            lemma_archive_commands(self@, epoch);
        }
        if self.archive.len() > 0 {
            if self.curr_archive < self.archive.len() - 1 {
                self.curr_archive += 1;
            }
        }
    }

    /// Makes the batch before the current one the current one.
    pub fn dec_arch_item(&mut self)
        ensures
            final(self)@ == old(self)@.dec_arch_item(),
            keeps(old(self)@, final(self)@),
            keeps_selection(old(self)@, final(self)@),
    {
        proof {
            let epoch = Timestamp { secs: 0, nanos: 0 };
            lemma_archive_commands(self@, epoch);
        }
        if self.curr_archive > 0 {
            self.curr_archive -= 1;
        }
    }

    /// Moves the done tasks into a new batch dated `now`.
    pub fn archive_done_tasks_at(&mut self, now: Timestamp)
        ensures
            final(self)@ == old(self)@.archive_done_tasks(now),
            keeps(old(self)@, final(self)@),
            keeps_selection(old(self)@, final(self)@),
    {
        proof {
            lemma_archive_commands(self@, now);
        }
        let batch = store::take_done(&mut self.tasks);
        if batch.len() > 0 {
            self.archive.push(ArchiveItem { date: now, tasks: batch });
            self.curr_archive = self.archive.len() - 1;
            assert(batch_views(self.archive@) =~= old(self)@.archive_done_tasks(now).archive);
        }
    }

    /// Moves the done tasks into a new batch dated by the wall clock.
    pub fn archive_done_tasks(&mut self)
        ensures
            exists|now: Timestamp| final(self)@ == old(self)@.archive_done_tasks(now),
            keeps(old(self)@, final(self)@),
            keeps_selection(old(self)@, final(self)@),
    {
        let now = utc_now();
        self.archive_done_tasks_at(now);
    }

    /// Takes the selected task out of batch `c` and appends it to the
    /// active list.
    fn restore_from_batch(&mut self, c: usize)
        requires
            c < old(self).archive.len(),
        ensures
            final(self)@ == match crate::model::first_selected(old(self)@.archive[c as int].tasks) {
                Some(i) => (AppView {
                    tasks: old(self)@.tasks.push(
                        crate::model::restored(old(self)@.archive[c as int].tasks[i]),
                    ),
                    ..old(self)@
                }).with_batch_tasks(
                    c as int,
                    crate::model::delete_selected(old(self)@.archive[c as int].tasks),
                ),
                None => old(self)@,
            },
            final(self).archive.len() == old(self).archive.len(),
    {
        let ghost batch = old(self)@.archive[c as int].tasks;
        let taken = store::take_selected(&mut self.archive[c].tasks);
        match taken {
            Some(task) => {
                self.tasks.push(task);
                assert(views(self.tasks@) =~= old(self)@.tasks.push(
                    crate::model::restored(batch[crate::model::first_selected(batch)->0]),
                ));
                assert(batch_views(self.archive@) =~= old(self)@.with_batch_tasks(
                    c as int,
                    crate::model::delete_selected(batch),
                ).archive);
            },
            None => {
                assert(batch_views(self.archive@) =~= old(self)@.archive);
            },
        }
    }

    /// Removes batch `c` from the archive if it is empty.
    fn drop_empty_batch(&mut self, c: usize)
        requires
            c < old(self).archive.len(),
        ensures
            final(self)@ == if old(self)@.archive[c as int].tasks.len() == 0 {
                old(self)@.drop_batch(c as int)
            } else {
                old(self)@
            },
    {
        if self.archive[c].tasks.len() == 0 {
            let _ = self.archive.remove(c);
            if self.archive.len() == 0 {
                self.curr_archive = 0;
            } else if c >= self.archive.len() {
                self.curr_archive = self.archive.len() - 1;
            } else {
                self.curr_archive = c;
            }
            assert(batch_views(self.archive@) =~= old(self)@.archive.remove(c as int));
        }
    }

    /// Moves the selected task of the current batch back to the end of the
    /// active list, and removes the batch once it is empty.
    pub fn dearchive_task(&mut self)
        ensures
            final(self)@ == old(self)@.dearchive_task(),
            keeps(old(self)@, final(self)@),
            !old(self)@.dearchives_into_empty_list() ==> keeps_selection(
                old(self)@,
                final(self)@,
            ),
    {
        proof {
            let epoch = Timestamp { secs: 0, nanos: 0 };
            lemma_archive_commands(self@, epoch);
        }
        if self.curr_archive < self.archive.len() {
            let c = self.curr_archive;
            self.restore_from_batch(c);
            self.drop_empty_batch(c);
        }
    }

    /// The current batch, if the archive has one.
    pub fn get_curr_archive_item(&self) -> (item: Option<&ArchiveItem>)
        ensures
            match item {
                Some(batch) => self@.get_curr_archive_item() == Some(batch@),
                None => self@.get_curr_archive_item() is None,
            },
    {
        if self.curr_archive < self.archive.len() {
            Some(&self.archive[self.curr_archive])
        } else {
            None
        }
    }

    /// Appends a blank task dated `now`, selects it, and starts editing its
    /// title in the new-task popup.
    pub fn add_task_at(&mut self, now: Timestamp)
        ensures
            final(self)@ == old(self)@.add_task(now),
            keeps(old(self)@, final(self)@),
            keeps_selection(old(self)@, final(self)@),
            old(self)@.selection_unique() ==> final(self)@.selection_ok(),
    {
        proof {
            lemma_edit_commands(self@, EditField::Title, now);
        }
        store::add_blank(&mut self.tasks, now);
        self.show_popup = true;
        self.popup_type = PopupType::NewTask;
        self.enter_edit(EditField::Title);
    }

    /// Appends a blank task dated by the wall clock, selects it, and starts
    /// editing its title in the new-task popup.
    pub fn add_task(&mut self)
        ensures
            exists|now: Timestamp| final(self)@ == old(self)@.add_task(now),
            keeps(old(self)@, final(self)@),
            keeps_selection(old(self)@, final(self)@),
            old(self)@.selection_unique() ==> final(self)@.selection_ok(),
    {
        let now = utc_now();
        self.add_task_at(now);
    }

    /// Deletes the selected task.
    pub fn del_task(&mut self)
        ensures
            final(self)@ == old(self)@.del_task(),
            keeps(old(self)@, final(self)@),
            keeps_selection(old(self)@, final(self)@),
    {
        proof {
            let zero = Elapsed { secs: 0, nanos: 0 };
            lemma_list_commands(self@, zero);
        }
        let _ = store::delete_selected(&mut self.tasks);
    }

    /// Moves the settings selection one field down.
    pub fn inc_setting_selection(&mut self)
        ensures
            final(self)@ == old(self)@.inc_setting_selection(),
            keeps(old(self)@, final(self)@),
            keeps_selection(old(self)@, final(self)@),
    {
        proof {
            lemma_settings_commands(self@);
        }
        self.edit_setting = self.edit_setting.next();
    }

    /// Moves the settings selection one field up.
    pub fn dec_setting_selection(&mut self)
        ensures
            final(self)@ == old(self)@.dec_setting_selection(),
            keeps(old(self)@, final(self)@),
            keeps_selection(old(self)@, final(self)@),
    {
        proof {
            lemma_settings_commands(self@);
        }
        self.edit_setting = self.edit_setting.prev();
    }

    /// Steps the selected setting forward.
    pub fn inc_setting(&mut self)
        ensures
            final(self)@ == old(self)@.inc_setting(),
            keeps(old(self)@, final(self)@),
            keeps_selection(old(self)@, final(self)@),
    {
        proof {
            lemma_settings_commands(self@);
        }
        self.settings.inc_setting(self.edit_setting);
    }

    /// Steps the selected setting backward.
    pub fn dec_setting(&mut self)
        ensures
            final(self)@ == old(self)@.dec_setting(),
            keeps(old(self)@, final(self)@),
            keeps_selection(old(self)@, final(self)@),
    {
        proof {
            lemma_settings_commands(self@);
        }
        self.settings.dec_setting(self.edit_setting);
    }
}

impl App {
    /// Handles `key` in the display view.
    fn on_display_key(&mut self, key: Key, now: Timestamp) -> (action: Action)
        ensures
            (final(self)@, action) == old(self)@.on_display_key(key, now),
    {
        reveal(AppView::on_display_key);
        let confirming = self.show_popup && self.popup_type == PopupType::ArchiveTasks;
        match key {
            Key::Char('q') | Key::Esc => {
                if confirming {
                    self.show_popup = false;
                    Action::Continue
                } else {
                    Action::Quit
                }
            },
            Key::Char('c') => {
                self.show_popup = true;
                self.popup_type = PopupType::ArchiveTasks;
                Action::Continue
            },
            Key::Char('s') => Action::Save,
            Key::Char('j') | Key::Down => {
                self.inc_sel_task();
                Action::Continue
            },
            Key::Char('k') | Key::Up => {
                self.dec_sel_task();
                Action::Continue
            },
            Key::Char('u') => {
                self.move_task_down();
                Action::Continue
            },
            Key::Char('i') => {
                self.move_task_up();
                Action::Continue
            },
            Key::Enter => {
                if confirming {
                    self.archive_done_tasks_at(now);
                    self.show_popup = false;
                } else {
                    self.activate_task();
                }
                Action::Continue
            },
            Key::Char(' ') => {
                self.do_undo_task();
                Action::Continue
            },
            Key::Char('a') => {
                self.add_task_at(now);
                Action::Continue
            },
            Key::Char('d') => {
                self.del_task();
                Action::Continue
            },
            Key::Char('e') => {
                self.show_popup = true;
                self.popup_type = PopupType::EditTask;
                self.enter_edit(EditField::Description);
                Action::Continue
            },
            Key::Tab => {
                self.state = AppState::Archived;
                Action::Continue
            },
            Key::BackTab => {
                self.state = AppState::Settings;
                Action::Continue
            },
            _ => Action::Continue,
        }
    }

    /// Handles `key` in the edit view.
    fn on_edit_key(&mut self, key: Key) -> (action: Action)
        ensures
            (final(self)@, action) == old(self)@.on_edit_key(key),
    {
        reveal(AppView::on_edit_key);
        match key {
            Key::Esc => self.enter_display(),
            Key::Backspace => self.delete_in_field(),
            Key::Enter => self.type_in_field('\n'),
            Key::Left => self.dec_cursor(),
            Key::Right => self.inc_cursor(),
            Key::Up => self.dec_line(),
            Key::Down => self.inc_line(),
            Key::Char(c) => self.type_in_field(c),
            Key::Tab => self.change_field(),
            _ => {},
        }
        Action::Continue
    }

    /// Handles `key` in the archive view.
    fn on_archive_key(&mut self, key: Key) -> (action: Action)
        ensures
            (final(self)@, action) == old(self)@.on_archive_key(key),
    {
        reveal(AppView::on_archive_key);
        match key {
            Key::Char('q') | Key::Esc => {
                return Action::Quit;
            },
            Key::Char('h') | Key::Left => self.inc_arch_item(),
            Key::Char('l') | Key::Right => self.dec_arch_item(),
            Key::Char('j') | Key::Down => self.inc_sel_task(),
            Key::Char('k') | Key::Up => self.dec_sel_task(),
            Key::Char(' ') => self.dearchive_task(),
            Key::Tab => {
                self.state = AppState::Settings;
            },
            Key::BackTab => self.enter_display(),
            _ => {},
        }
        Action::Continue
    }

    /// Handles `key` in the settings view.
    fn on_settings_key(&mut self, key: Key) -> (action: Action)
        ensures
            (final(self)@, action) == old(self)@.on_settings_key(key),
    {
        reveal(AppView::on_settings_key);
        match key {
            Key::Char('q') | Key::Esc => {
                return Action::Quit;
            },
            Key::Char('h') | Key::Char('l') => {
                self.state = AppState::Display;
            },
            Key::Up => self.dec_setting_selection(),
            Key::Down => self.inc_setting_selection(),
            Key::Right => self.inc_setting(),
            Key::Left => self.dec_setting(),
            Key::Tab | Key::BackTab => self.enter_display(),
            _ => {},
        }
        Action::Continue
    }

    /// Handles one key at wall-clock time `now`: the state moves as the
    /// current view prescribes for the key, and the result says whether the
    /// caller has to save or to save and end.
    pub fn handle_key_at(&mut self, key: Key, now: Timestamp) -> (action: Action)
        ensures
            (final(self)@, action) == old(self)@.handle_key(key, now),
            final(self)@.last_event == old(self)@.last_event,
            final(self)@.origin == old(self)@.origin,
            keeps(old(self)@, final(self)@),
            !old(self)@.restores_into_empty_list(key) ==> keeps_selection(
                old(self)@,
                final(self)@,
            ),
    {
        proof {
            lemma_key(self@, key, now);
            crate::state::lemma_key_keeps_reference(self@, key, now);
        }
        match self.state {
            AppState::Display => self.on_display_key(key, now),
            AppState::EditTask => self.on_edit_key(key),
            AppState::Archived => self.on_archive_key(key),
            AppState::Settings => self.on_settings_key(key),
        }
    }

    /// Handles one key. The wall clock is read only for a key that dates
    /// something, a new task or a new archive batch; for any other key the
    /// outcome is the same whatever the time.
    pub fn handle_key(&mut self, key: Key) -> (action: Action)
        ensures
            exists|now: Timestamp| (final(self)@, action) == old(self)@.handle_key(key, now),
            !old(self)@.needs_clock(key) ==> forall|now: Timestamp|
                (final(self)@, action) == old(self)@.handle_key(key, now),
            keeps(old(self)@, final(self)@),
            !old(self)@.restores_into_empty_list(key) ==> keeps_selection(
                old(self)@,
                final(self)@,
            ),
    {
        if self.needs_clock(key) {
            let now = utc_now();
            self.handle_key_at(key, now)
        } else {
            let epoch = Timestamp { secs: 0, nanos: 0 };
            proof {
                assert forall|now: Timestamp|
                    self@.handle_key(key, now) == self@.handle_key(key, epoch) by {
                    crate::state::lemma_undated_key(self@, key, now, epoch);
                }
            }
            self.handle_key_at(key, epoch)
        }
    }

    /// One tick at clock reading `clock`: the time since the tick reference
    /// goes to the active task, `clock` becomes the tick reference, and in
    /// the edit view the caret blinks.
    pub fn tick_at(&mut self, clock: Elapsed)
        ensures
            final(self)@ == old(self)@.tick(clock),
            final(self)@.last_event == clock,
            crate::model::accrued(
                old(self)@.tasks,
                final(self)@.tasks,
                old(self)@.since_event(clock),
            ),
            keeps(old(self)@, final(self)@),
            keeps_selection(old(self)@, final(self)@),
    {
        self.update_times_at(clock);
        if self.state == AppState::EditTask {
            let _ = self.blink(clock);
        }
    }

    /// One tick at the reading of the tracker's clock. Whatever the clock
    /// reads, the state is the old one after `tick` for a well-formed
    /// reading, which is the new tick reference.
    pub fn tick(&mut self)
        ensures
            exists|clock: Elapsed| clock.wf() && final(self)@ == #[trigger] old(self)@.tick(clock),
            final(self)@.last_event.wf(),
            keeps(old(self)@, final(self)@),
            keeps_selection(old(self)@, final(self)@),
    {
        let clock = self.read_clock();
        self.tick_at(clock);
    }

    /// Handles one event at clock reading `clock`: the clock ticks, and a
    /// key is then handled at wall-clock time `now`.
    pub fn handle_event_at(&mut self, event: Event, clock: Elapsed, now: Timestamp) -> (action:
        Action)
        ensures
            (final(self)@, action) == old(self)@.handle_event(event, clock, now),
            final(self)@.last_event == clock,
            final(self)@.origin == old(self)@.origin,
            keeps(old(self)@, final(self)@),
            !old(self)@.restores_into_empty_list_on(event) ==> keeps_selection(
                old(self)@,
                final(self)@,
            ),
    {
        proof {
            lemma_event(self@, event, clock, now);
        }
        self.tick_at(clock);
        match event {
            Event::KeyPress(key) => self.handle_key_at(key, now),
            Event::Tick => Action::Continue,
        }
    }

    /// Handles one event, reading the clocks itself. Whatever they read, the
    /// outcome is one that `handle_event` has for a well-formed reading of
    /// the tracker's clock, which is the new tick reference.
    pub fn handle_event(&mut self, event: Event) -> (action: Action)
        ensures
            old(self)@.may_become(event, final(self)@, action),
            final(self)@.last_event.wf(),
            final(self)@.origin == old(self)@.origin,
            keeps(old(self)@, final(self)@),
            !old(self)@.restores_into_empty_list_on(event) ==> keeps_selection(
                old(self)@,
                final(self)@,
            ),
    {
        let clock = self.read_clock();
        let now = match event {
            Event::KeyPress(key) => {
                if self.needs_clock(key) {
                    utc_now()
                } else {
                    Timestamp { secs: 0, nanos: 0 }
                }
            },
            Event::Tick => Timestamp { secs: 0, nanos: 0 },
        };
        let action = self.handle_event_at(event, clock, now);
        assert((self@, action) == old(self)@.handle_event(event, clock, now));
        action
    }

    /// Whether handling `key` now would read the wall clock.
    pub fn needs_clock(&self, key: Key) -> (needed: bool)
        ensures
            needed == self@.needs_clock(key),
    {
        match self.state {
            AppState::Display => match key {
                Key::Char('a') => true,
                Key::Enter => self.show_popup && self.popup_type == PopupType::ArchiveTasks,
                _ => false,
            },
            _ => false,
        }
    }
}

/// A line break followed by the characters of `text`.
fn block_of(text: &str) -> (block: Vec<char>)
    ensures
        block@ == seq!['\n'] + text@,
{
    let mut block: Vec<char> = Vec::new();
    block.push('\n');
    let mut chars = chars_of(text);
    block.append(&mut chars);
    assert(block@ =~= seq!['\n'] + text@);
    block
}

impl App {
    /// The task whose texts are on view: the selected task of the active
    /// list in the display and edit views, of the current batch in the
    /// archive view.
    pub fn shown_task(&self) -> (task: Option<&Task>)
        ensures
            match task {
                Some(t) => self@.shown_task() == Some(t@),
                None => self@.shown_task() is None,
            },
    {
        match self.state {
            AppState::Display | AppState::EditTask => {
                match store::find_selected(&self.tasks) {
                    Some(i) => Some(&self.tasks[i]),
                    None => None,
                }
            },
            AppState::Archived => {
                if self.curr_archive < self.archive.len() {
                    let batch = &self.archive[self.curr_archive];
                    match store::find_selected(&batch.tasks) {
                        Some(i) => Some(&batch.tasks[i]),
                        None => None,
                    }
                } else {
                    None
                }
            },
            AppState::Settings => None,
        }
    }

    /// The title of the task on view.
    pub fn get_sel_task_title(&self) -> (title: Option<String>)
        ensures
            match title {
                Some(t) => self@.get_sel_task_title() == Some(t@),
                None => self@.get_sel_task_title() is None,
            },
    {
        match self.shown_task() {
            Some(task) => Some(task.title.clone()),
            None => None,
        }
    }

    /// The description of the task on view, as lines under a blank line.
    pub fn get_sel_task_info(&self) -> (info: Option<Vec<String>>)
        ensures
            match info {
                Some(l) => self@.get_sel_task_info() == Some(string_views(l@)),
                None => self@.get_sel_task_info() is None,
            },
    {
        match self.shown_task() {
            Some(task) => {
                let block = block_of(task.description.as_str());
                Some(split_lines(&block))
            },
            None => None,
        }
    }

    /// The character to draw at the caret.
    pub fn shown_caret(&self) -> (c: char)
        ensures
            c == self@.shown_caret(),
    {
        if self.cursor_shown {
            '_'
        } else {
            match self.editor.caret_char() {
                Some(c) => if c == '\n' {
                    ' '
                } else {
                    c
                },
                None => ' ',
            }
        }
    }

    /// The edit buffer as it is drawn, on one line or as a block.
    fn drawn_buffer(&self, as_block: bool) -> (drawn: Vec<char>)
        ensures
            drawn@ == if as_block {
                self@.edit_block()
            } else {
                self@.edit_line()
            },
    {
        let mut drawn: Vec<char> = Vec::new();
        let mut i: usize = 0;
        while i < self.editor.prefix.len()
            invariant
                i <= self.editor.prefix.len(),
                drawn@ == self.editor.prefix@.take(i as int),
            decreases self.editor.prefix.len() - i,
        {
            drawn.push(self.editor.prefix[i]);
            i += 1;
            assert(self.editor.prefix@.take(i as int) =~= self.editor.prefix@.take(i - 1).push(
                self.editor.prefix@[i - 1],
            ));
        }
        assert(self.editor.prefix@.take(self.editor.prefix.len() as int) =~= self.editor.prefix@);
        drawn.push(self.shown_caret());
        if as_block && self.editor.tail.len() > 0 && self.editor.tail[0] == '\n' {
            drawn.push('\n');
        }
        let ghost head = drawn@;
        let ghost suffix = self@.editor.suffix();
        let mut k: usize = 1;
        while k < self.editor.tail.len()
            invariant
                1 <= k,
                self.editor.tail.len() > 0 ==> k <= self.editor.tail.len(),
                suffix == self@.editor.suffix(),
                self.editor.tail.len() > 0 ==> drawn@ == head + suffix.take(k - 1),
                self.editor.tail.len() == 0 ==> drawn@ == head,
            decreases self.editor.tail.len() - k,
        {
            drawn.push(self.editor.tail[k]);
            k += 1;
            assert(head + suffix.take(k - 1) =~= (head + suffix.take(k - 2)).push(suffix[k - 2]));
        }
        proof {
            if self.editor.tail.len() > 0 {
                assert(suffix.take(k - 1) =~= suffix);
            } else {
                assert(head + suffix =~= head);
            }
        }
        drawn
    }

    /// The title of the task under edit, the caret drawn into it while the
    /// title is the field under edit.
    pub fn get_sel_task_title_editable(&self) -> (title: Option<String>)
        ensures
            match title {
                Some(t) => self@.get_sel_task_title_editable() == Some(t@),
                None => self@.get_sel_task_title_editable() is None,
            },
    {
        if self.state == AppState::EditTask {
            match store::find_selected(&self.tasks) {
                Some(i) => {
                    if self.edit_field == EditField::Title {
                        let drawn = self.drawn_buffer(false);
                        Some(string_of(&drawn))
                    } else {
                        Some(self.tasks[i].title.clone())
                    }
                },
                None => None,
            }
        } else {
            None
        }
    }

    /// The description of the task under edit, as lines under a blank line,
    /// the caret drawn into it while the description is the field under
    /// edit.
    pub fn get_sel_task_info_editable(&self) -> (info: Option<Vec<String>>)
        ensures
            match info {
                Some(l) => self@.get_sel_task_info_editable() == Some(string_views(l@)),
                None => self@.get_sel_task_info_editable() is None,
            },
    {
        if self.state == AppState::EditTask {
            match store::find_selected(&self.tasks) {
                Some(i) => {
                    if self.edit_field == EditField::Description {
                        let mut block: Vec<char> = Vec::new();
                        block.push('\n');
                        let mut drawn = self.drawn_buffer(true);
                        block.append(&mut drawn);
                        assert(block@ =~= seq!['\n'] + self@.edit_block());
                        Some(split_lines(&block))
                    } else {
                        let block = block_of(self.tasks[i].description.as_str());
                        Some(split_lines(&block))
                    }
                },
                None => None,
            }
        } else {
            None
        }
    }

    /// The directory the tracker's files live in.
    pub fn data_path(&self) -> (path: &String)
        ensures
            path@ == self@.data_path,
    {
        &self.data_path
    }

    /// The active list.
    pub fn tasks(&self) -> (tasks: &Vec<Task>)
        ensures
            views(tasks@) == self@.tasks,
    {
        &self.tasks
    }

    /// The archive, oldest batch first.
    pub fn archive(&self) -> (archive: &Vec<ArchiveItem>)
        ensures
            batch_views(archive@) == self@.archive,
    {
        &self.archive
    }

    /// The index of the current batch.
    pub fn curr_archive(&self) -> (index: usize)
        ensures
            index == self@.curr_archive,
    {
        self.curr_archive
    }

    /// The view the tracker is in.
    pub fn state(&self) -> (state: AppState)
        ensures
            state == self@.state,
    {
        self.state
    }

    /// The field under edit.
    pub fn edit_field(&self) -> (field: EditField)
        ensures
            field == self@.edit_field,
    {
        self.edit_field
    }

    /// The setting that is selected in the settings view.
    pub fn edit_setting(&self) -> (field: EditSettingField)
        ensures
            field == self@.edit_setting,
    {
        self.edit_setting
    }

    /// The popup that lies over the view, if one does.
    pub fn popup(&self) -> (popup: Option<PopupType>)
        ensures
            popup == if self@.show_popup {
                Some(self@.popup_type)
            } else {
                None
            },
    {
        if self.show_popup {
            Some(self.popup_type)
        } else {
            None
        }
    }

    /// The wrap width of the description pane.
    pub fn desc_width_char(&self) -> (width: usize)
        ensures
            width == self@.desc_width_char,
    {
        self.desc_width_char
    }

    /// The height of the task window.
    pub fn task_block_height(&self) -> (height: usize)
        ensures
            height == self@.task_block_height,
    {
        self.task_block_height
    }

    /// The first visible row of the task window.
    pub fn first_task(&self) -> (first: usize)
        ensures
            first == self@.first_task,
    {
        self.first_task
    }

    /// The edit buffer.
    pub fn editor(&self) -> (editor: &TextEdit)
        ensures
            editor@ == self@.editor,
    {
        &self.editor
    }

    /// The reading of the tracker's clock at the latest tick.
    pub fn last_event(&self) -> (reading: Elapsed)
        ensures
            reading == self@.last_event,
    {
        self.last_event
    }

    /// The reading of the tracker's clock at which the caret's blink last
    /// restarted.
    pub fn last_blink(&self) -> (reading: Elapsed)
        ensures
            reading == self@.last_blink,
    {
        self.last_blink
    }

    /// Whether the caret shows in its blink cycle.
    pub fn cursor_shown(&self) -> (shown: bool)
        ensures
            shown == self@.cursor_shown,
    {
        self.cursor_shown
    }

    /// The settings.
    pub fn settings(&self) -> (settings: &Settings)
        ensures
            *settings == self@.settings,
    {
        &self.settings
    }
}

} // verus!
