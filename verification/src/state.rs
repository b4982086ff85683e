//! The view state machine on mathematical values: the modes of the tracker,
//! the keys it reacts to, and what each command makes of the whole state.

use vstd::prelude::*;
use crate::editor::TextEditView;
use crate::model;
use crate::settings::{EditSettingField, Settings};
use crate::task::{ArchiveItemView, TaskView};
use crate::text::{lines, strip_line_breaks};
use crate::time::{Elapsed, Timestamp};

verus! {

/// The modal window that may lie over the current view.
#[derive(Clone, Copy, PartialEq, Eq, Debug, Structural)]
pub enum PopupType {
    NewTask,
    EditTask,
    ArchiveTasks,
}

/// The top-level mode of the tracker.
#[derive(Clone, Copy, PartialEq, Eq, Debug, Structural)]
pub enum AppState {
    Display,
    EditTask,
    Archived,
    Settings,
}

/// The field of a task that the edit buffer belongs to.
#[derive(Clone, Copy, PartialEq, Eq, Debug, Structural)]
pub enum EditField {
    Title,
    Description,
}

/// A logical key, whatever device it came from.
#[derive(Clone, Copy, PartialEq, Eq, Debug, Structural)]
pub enum Key {
    Char(char),
    Esc,
    Enter,
    Backspace,
    Left,
    Right,
    Up,
    Down,
    Tab,
    BackTab,
    Other,
}

/// What the input source delivers, in order: a key or a tick of the clock.
#[derive(Clone, Copy, PartialEq, Eq, Debug, Structural)]
pub enum Event {
    KeyPress(Key),
    Tick,
}

/// What the caller has to do after a key was handled.
#[derive(Clone, Copy, PartialEq, Eq, Debug, Structural)]
pub enum Action {
    /// Nothing: go on with the next event.
    Continue,
    /// Write the tasks and the archive to the store, then go on.
    Save,
    /// Write the tasks, the archive and the settings to the store, then end.
    Quit,
}

impl EditField {
    /// The other field of the task.
    pub open spec fn other(self) -> EditField {
        match self {
            EditField::Title => EditField::Description,
            EditField::Description => EditField::Title,
        }
    }
}

/// The text of `field` in task `t`.
pub open spec fn field_text(t: TaskView, field: EditField) -> Seq<char> {
    match field {
        EditField::Title => t.title,
        EditField::Description => t.description,
    }
}

/// Task `t` after `text` is committed to `field`. A title is a single line:
/// line breaks are dropped from it.
pub open spec fn commit_field(t: TaskView, field: EditField, text: Seq<char>) -> TaskView {
    match field {
        EditField::Title => TaskView { title: strip_line_breaks(text), ..t },
        EditField::Description => TaskView { description: text, ..t },
    }
}

/// The first visible row of a window `height` rows high that started at
/// `first`, after the least shift that brings row `j` into view.
pub open spec fn scroll_to(first: nat, height: nat, j: nat) -> nat {
    if j < first {
        j
    } else if j - first >= height {
        if height > 0 {
            (j + 1 - height) as nat
        } else {
            j
        }
    } else {
        first
    }
}

/// The mathematical value of the whole tracker. `origin` is the moment the
/// tracker was made, and no command ever changes it. The two times are
/// readings of the tracker's own clock, which reads the time since that
/// moment: `last_event` is the reading at the latest tick, the reference
/// from which the next tick measures the time spent; `last_blink` is the
/// reading at which the caret's blink last restarted.
pub struct AppView {
    pub data_path: Seq<char>,
    pub tasks: Seq<TaskView>,
    pub archive: Seq<ArchiveItemView>,
    pub curr_archive: nat,
    pub state: AppState,
    pub edit_field: EditField,
    pub edit_setting: EditSettingField,
    pub show_popup: bool,
    pub popup_type: PopupType,
    pub desc_width_char: nat,
    pub task_block_height: nat,
    pub first_task: nat,
    pub editor: TextEditView,
    pub cursor_shown: bool,
    pub origin: std::time::Instant,
    pub last_event: Elapsed,
    pub last_blink: Elapsed,
    pub settings: Settings,
}

impl AppView {
    /// The tracker as it starts at the moment `origin`: the given tasks with
    /// the first one selected, the archive as given with its last batch
    /// current, the given colours with the styles derived from them, the
    /// display view, no popup, an empty edit buffer, and both clock readings
    /// at nothing.
    pub open spec fn initial(
        data_path: Seq<char>,
        tasks: Seq<TaskView>,
        archive: Seq<ArchiveItemView>,
        settings: Settings,
        origin: std::time::Instant,
    ) -> AppView {
        AppView {
            data_path,
            tasks: model::normalise_selection(tasks),
            archive,
            curr_archive: if archive.len() > 0 {
                (archive.len() - 1) as nat
            } else {
                0
            },
            state: AppState::Display,
            edit_field: EditField::Description,
            edit_setting: EditSettingField::Split,
            show_popup: false,
            popup_type: PopupType::NewTask,
            desc_width_char: 0,
            task_block_height: 0,
            first_task: 0,
            editor: TextEditView::enter(Seq::empty()),
            cursor_shown: false,
            origin,
            last_event: Elapsed { secs: 0, nanos: 0 },
            last_blink: Elapsed { secs: 0, nanos: 0 },
            settings: settings.with_styles(),
        }
    }

    /// The current batch index is inside the archive, or 0 where the
    /// archive is empty.
    pub open spec fn wf(self) -> bool {
        if self.archive.len() > 0 {
            self.curr_archive < self.archive.len()
        } else {
            self.curr_archive == 0
        }
    }

    /// The index of the current batch, if the archive has one there.
    pub open spec fn current_batch(self) -> Option<int> {
        if self.curr_archive < self.archive.len() {
            Some(self.curr_archive as int)
        } else {
            None
        }
    }

    /// The state with the tasks of batch `c` replaced.
    pub open spec fn with_batch_tasks(self, c: int, tasks: Seq<TaskView>) -> AppView {
        AppView {
            archive: self.archive.update(c, ArchiveItemView { tasks, ..self.archive[c] }),
            ..self
        }
    }

    /// The state with the window scrolled so that row `j` is in view.
    pub open spec fn scrolled_to(self, j: int) -> AppView {
        AppView {
            first_task: scroll_to(self.first_task, self.task_block_height, j as nat),
            ..self
        }
    }

    /// The state after the renderer reports the wrap width and the height
    /// of the task window.
    pub open spec fn set_layout(self, desc_width_char: nat, task_block_height: nat) -> AppView {
        AppView { desc_width_char, task_block_height, ..self }
    }

    /// The selected task exchanges places with the one before it.
    pub open spec fn move_task_up(self) -> AppView {
        AppView { tasks: model::move_up(self.tasks), ..self }
    }

    /// The selected task exchanges places with the one after it.
    pub open spec fn move_task_down(self) -> AppView {
        AppView { tasks: model::move_down(self.tasks), ..self }
    }

    /// The selection moves one task down in the list on view, the active
    /// list or the current batch, and the window follows it.
    pub open spec fn inc_sel_task(self) -> AppView {
        match self.state {
            AppState::Display => match model::next_target(self.tasks) {
                Some(k) => AppView { tasks: model::select_next(self.tasks), ..self }.scrolled_to(
                    k,
                ),
                None => self,
            },
            AppState::Archived => match self.current_batch() {
                Some(c) => match model::next_target(self.archive[c].tasks) {
                    Some(k) => self.with_batch_tasks(
                        c,
                        model::select_next(self.archive[c].tasks),
                    ).scrolled_to(k),
                    None => self,
                },
                None => self,
            },
            _ => self,
        }
    }

    /// The selection moves one task up in the list on view, and the window
    /// follows it.
    pub open spec fn dec_sel_task(self) -> AppView {
        match self.state {
            AppState::Display => match model::previous_target(self.tasks) {
                Some(k) => AppView {
                    tasks: model::select_previous(self.tasks),
                    ..self
                }.scrolled_to(k),
                None => self,
            },
            AppState::Archived => match self.current_batch() {
                Some(c) => match model::previous_target(self.archive[c].tasks) {
                    Some(k) => self.with_batch_tasks(
                        c,
                        model::select_previous(self.archive[c].tasks),
                    ).scrolled_to(k),
                    None => self,
                },
                None => self,
            },
            _ => self,
        }
    }

    /// Editing starts on `field` of the selected task: the buffer holds the
    /// field's text with the caret at its end, and the caret's blink restarts
    /// at the time of the latest tick. Nothing happens if no task is
    /// selected.
    pub open spec fn enter_edit(self, field: EditField) -> AppView {
        match model::first_selected(self.tasks) {
            Some(i) => AppView {
                editor: TextEditView::enter(field_text(self.tasks[i], field)),
                state: AppState::EditTask,
                edit_field: field,
                last_blink: self.last_event,
                ..self
            },
            None => self,
        }
    }

    /// The tasks after the edit buffer is committed to the field under edit
    /// of the selected task.
    pub open spec fn committed_tasks(self) -> Seq<TaskView> {
        match model::first_selected(self.tasks) {
            Some(i) => self.tasks.update(
                i,
                commit_field(self.tasks[i], self.edit_field, self.editor.text()),
            ),
            None => self.tasks,
        }
    }

    /// The edit buffer is committed to the field under edit of the selected
    /// task: a description takes the whole text, a title the text without
    /// its line breaks. Nothing happens if no task is selected.
    pub open spec fn commit(self) -> AppView {
        AppView { tasks: self.committed_tasks(), ..self }
    }

    /// The tracker goes back to the display view: the popup closes, an edit
    /// in progress is committed, and the first task is selected if none is.
    pub open spec fn enter_display(self) -> AppView {
        AppView {
            show_popup: false,
            state: AppState::Display,
            tasks: model::ensure_selection(
                if self.state == AppState::EditTask {
                    self.committed_tasks()
                } else {
                    self.tasks
                },
            ),
            ..self
        }
    }

    /// The edit moves to the other field of the selected task: the buffer is
    /// committed to the field under edit and reloaded from the other one,
    /// and the caret's blink restarts at the time of the latest tick.
    pub open spec fn change_field(self) -> AppView {
        match model::first_selected(self.tasks) {
            Some(i) => {
                let tasks = self.committed_tasks();
                AppView {
                    tasks,
                    editor: TextEditView::enter(field_text(tasks[i], self.edit_field.other())),
                    edit_field: self.edit_field.other(),
                    last_blink: self.last_event,
                    ..self
                }
            },
            None => self,
        }
    }

    /// `dt` more time is spent on the active task. The tick reference stays
    /// as it is.
    pub open spec fn add_elapsed(self, dt: Elapsed) -> AppView {
        AppView { tasks: model::accrue(self.tasks, dt), ..self }
    }

    /// Activity is toggled on the selected task.
    pub open spec fn activate_task(self) -> AppView {
        AppView { tasks: model::toggle_active(self.tasks), ..self }
    }

    /// The done flag of the selected task is flipped.
    pub open spec fn do_undo_task(self) -> AppView {
        AppView { tasks: model::toggle_done(self.tasks), ..self }
    }

    /// The caret's column and row at the current wrap width.
    pub open spec fn get_cursor_pos(self) -> (nat, nat) {
        self.editor.cursor_position(self.desc_width_char)
    }

    /// The caret is sent to column `x` of row `y`.
    pub open spec fn set_cursor_pos(self, x: nat, y: nat) -> AppView {
        AppView { editor: self.editor.set_cursor(x, y, self.desc_width_char), ..self }
    }

    /// The caret moves one character left and shows, its blink restarting
    /// at the time of the latest tick.
    pub open spec fn dec_cursor(self) -> AppView {
        if self.editor.prefix.len() > 0 {
            AppView {
                editor: self.editor.move_left(),
                cursor_shown: true,
                last_blink: self.last_event,
                ..self
            }
        } else {
            self
        }
    }

    /// The caret moves one character right and shows, its blink restarting
    /// at the time of the latest tick.
    pub open spec fn inc_cursor(self) -> AppView {
        if self.editor.tail.len() > 0 {
            AppView {
                editor: self.editor.move_right(),
                cursor_shown: true,
                last_blink: self.last_event,
                ..self
            }
        } else {
            self
        }
    }

    /// The caret moves one row up.
    pub open spec fn dec_line(self) -> AppView {
        AppView { editor: self.editor.move_up(self.desc_width_char), ..self }
    }

    /// The caret moves one row down.
    pub open spec fn inc_line(self) -> AppView {
        AppView { editor: self.editor.move_down(self.desc_width_char), ..self }
    }

    /// The character before the caret is deleted.
    pub open spec fn delete_in_field(self) -> AppView {
        AppView { editor: self.editor.backspace(), ..self }
    }

    /// `c` is typed before the caret.
    pub open spec fn type_in_field(self, c: char) -> AppView {
        AppView { editor: self.editor.insert(c), ..self }
    }

    /// The time that has passed at clock reading `clock` since the caret's
    /// blink last restarted.
    pub open spec fn since_blink(self, clock: Elapsed) -> Elapsed {
        clock.spec_minus(self.last_blink)
    }

    /// The caret at clock reading `clock`: if more than the blink time has
    /// passed since its blink last restarted, it flips, and the blink
    /// restarts at `clock`; otherwise nothing changes.
    pub open spec fn blink(self, clock: Elapsed) -> AppView {
        if self.since_blink(clock).total_nanos() > 400_000_000 {
            AppView { cursor_shown: !self.cursor_shown, last_blink: clock, ..self }
        } else {
            self
        }
    }

    /// The time that has passed at clock reading `clock` since the latest
    /// tick.
    pub open spec fn since_event(self, clock: Elapsed) -> Elapsed {
        clock.spec_minus(self.last_event)
    }

    /// The times at clock reading `clock`: the time since the latest tick
    /// goes to the active task, and `clock` becomes the tick reference,
    /// whether a task is active or not.
    pub open spec fn update_times(self, clock: Elapsed) -> AppView {
        AppView { last_event: clock, ..self.add_elapsed(self.since_event(clock)) }
    }

    /// One tick at clock reading `clock`: the times are updated, and in the
    /// edit view the caret blinks.
    pub open spec fn tick(self, clock: Elapsed) -> AppView {
        if self.state == AppState::EditTask {
            self.update_times(clock).blink(clock)
        } else {
            self.update_times(clock)
        }
    }

    /// The next batch becomes current, if there is one.
    pub open spec fn inc_arch_item(self) -> AppView {
        if self.curr_archive + 1 < self.archive.len() {
            AppView { curr_archive: self.curr_archive + 1, ..self }
        } else {
            self
        }
    }

    /// The batch before the current one becomes current, if there is one.
    pub open spec fn dec_arch_item(self) -> AppView {
        if self.curr_archive > 0 {
            AppView { curr_archive: (self.curr_archive - 1) as nat, ..self }
        } else {
            self
        }
    }

    /// The done tasks leave the active list for a new batch dated `now`,
    /// which becomes the current one. Without done tasks no batch is made.
    pub open spec fn archive_done_tasks(self, now: Timestamp) -> AppView {
        let batch = model::archived_batch(self.tasks);
        if batch.len() > 0 {
            AppView {
                tasks: model::after_archiving(self.tasks),
                archive: self.archive.push(ArchiveItemView { date: now, tasks: batch }),
                curr_archive: self.archive.len(),
                ..self
            }
        } else {
            AppView { tasks: model::after_archiving(self.tasks), ..self }
        }
    }

    /// The state after batch `c`, found empty, is removed from the archive:
    /// the current index stays in range, and is 0 where no batch is left.
    pub open spec fn drop_batch(self, c: int) -> AppView {
        let archive = self.archive.remove(c);
        AppView {
            archive,
            curr_archive: if archive.len() == 0 {
                0
            } else if c >= archive.len() {
                (archive.len() - 1) as nat
            } else {
                c as nat
            },
            ..self
        }
    }

    /// The selected task of the current batch goes back to the end of the
    /// active list, not done and not selected; the batch selects a
    /// neighbour, and is removed once it is empty.
    pub open spec fn dearchive_task(self) -> AppView {
        match self.current_batch() {
            Some(c) => {
                let batch = self.archive[c].tasks;
                let moved = match model::first_selected(batch) {
                    Some(i) => AppView {
                        tasks: self.tasks.push(model::restored(batch[i])),
                        ..self
                    }.with_batch_tasks(c, model::delete_selected(batch)),
                    None => self,
                };
                if moved.archive[c].tasks.len() == 0 {
                    moved.drop_batch(c)
                } else {
                    moved
                }
            },
            None => self,
        }
    }

    /// The current batch, if there is one.
    pub open spec fn get_curr_archive_item(self) -> Option<ArchiveItemView> {
        match self.current_batch() {
            Some(c) => Some(self.archive[c]),
            None => None,
        }
    }

    /// A blank task dated `now` is appended and selected, the new-task popup
    /// opens, and editing starts on its title.
    pub open spec fn add_task(self, now: Timestamp) -> AppView {
        AppView {
            tasks: model::add_blank(self.tasks, now),
            show_popup: true,
            popup_type: PopupType::NewTask,
            ..self
        }.enter_edit(EditField::Title)
    }

    /// The selected task is deleted.
    pub open spec fn del_task(self) -> AppView {
        AppView { tasks: model::delete_selected(self.tasks), ..self }
    }

    /// The settings selection moves one field down.
    pub open spec fn inc_setting_selection(self) -> AppView {
        AppView { edit_setting: self.edit_setting.spec_next(), ..self }
    }

    /// The settings selection moves one field up.
    pub open spec fn dec_setting_selection(self) -> AppView {
        AppView { edit_setting: self.edit_setting.spec_prev(), ..self }
    }

    /// The selected setting steps forward.
    pub open spec fn inc_setting(self) -> AppView {
        AppView { settings: self.settings.stepped(self.edit_setting, true), ..self }
    }

    /// The selected setting steps backward.
    pub open spec fn dec_setting(self) -> AppView {
        AppView { settings: self.settings.stepped(self.edit_setting, false), ..self }
    }

    /// The task whose title and description are on view: the selected task
    /// of the active list in the display and edit views, of the current
    /// batch in the archive view, and none in the settings view.
    pub open spec fn shown_task(self) -> Option<TaskView> {
        match self.state {
            AppState::Display | AppState::EditTask => match model::first_selected(self.tasks) {
                Some(i) => Some(self.tasks[i]),
                None => None,
            },
            AppState::Archived => match self.current_batch() {
                Some(c) => match model::first_selected(self.archive[c].tasks) {
                    Some(i) => Some(self.archive[c].tasks[i]),
                    None => None,
                },
                None => None,
            },
            AppState::Settings => None,
        }
    }

    /// The character drawn at the caret: an underscore while the caret
    /// shows; otherwise the character the caret sits on, or a blank where it
    /// sits on a line break or at the end of the buffer.
    pub open spec fn shown_caret(self) -> char {
        if self.cursor_shown {
            '_'
        } else {
            match self.editor.caret_char() {
                Some(c) => if c == '\n' {
                    ' '
                } else {
                    c
                },
                None => ' ',
            }
        }
    }

    /// The buffer as it is drawn on one line: the caret's character is
    /// replaced by the character drawn at the caret.
    pub open spec fn edit_line(self) -> Seq<char> {
        self.editor.prefix.push(self.shown_caret()) + self.editor.suffix()
    }

    /// The buffer as it is drawn as a block: as on one line, but a line
    /// break under the caret still breaks the line after the caret.
    pub open spec fn edit_block(self) -> Seq<char> {
        self.editor.prefix.push(self.shown_caret()) + (if self.editor.caret_char() == Some(
            '\n',
        ) {
            seq!['\n']
        } else {
            Seq::empty()
        }) + self.editor.suffix()
    }

    /// The title of the task on view.
    pub open spec fn get_sel_task_title(self) -> Option<Seq<char>> {
        match self.shown_task() {
            Some(t) => Some(t.title),
            None => None,
        }
    }

    /// The description of the task on view, as lines under a blank line.
    pub open spec fn get_sel_task_info(self) -> Option<Seq<Seq<char>>> {
        match self.shown_task() {
            Some(t) => Some(lines(seq!['\n'] + t.description)),
            None => None,
        }
    }

    /// The title of the task under edit: the buffer with its caret while
    /// the title is edited, the stored title while the description is.
    pub open spec fn get_sel_task_title_editable(self) -> Option<Seq<char>> {
        if self.state == AppState::EditTask {
            match model::first_selected(self.tasks) {
                Some(i) => Some(
                    if self.edit_field == EditField::Title {
                        self.edit_line()
                    } else {
                        self.tasks[i].title
                    },
                ),
                None => None,
            }
        } else {
            None
        }
    }

    /// The description of the task under edit, as lines under a blank line:
    /// the buffer with its caret while the description is edited, the stored
    /// description while the title is.
    pub open spec fn get_sel_task_info_editable(self) -> Option<Seq<Seq<char>>> {
        if self.state == AppState::EditTask {
            match model::first_selected(self.tasks) {
                Some(i) => Some(
                    lines(
                        seq!['\n'] + if self.edit_field == EditField::Description {
                            self.edit_block()
                        } else {
                            self.tasks[i].description
                        },
                    ),
                ),
                None => None,
            }
        } else {
            None
        }
    }

    /// Whether the archive confirmation is open.
    pub open spec fn confirming_archive(self) -> bool {
        self.show_popup && self.popup_type == PopupType::ArchiveTasks
    }

    /// Whether handling `key` reads the wall clock.
    pub open spec fn needs_clock(self, key: Key) -> bool {
        self.state == AppState::Display && (key == Key::Char('a') || (key == Key::Enter
            && self.confirming_archive()))
    }

    /// What the display view makes of `key`.
    #[verifier::opaque]
    pub open spec fn on_display_key(self, key: Key, now: Timestamp) -> (AppView, Action) {
        match key {
            Key::Char('q') | Key::Esc => if self.confirming_archive() {
                (AppView { show_popup: false, ..self }, Action::Continue)
            } else {
                (self, Action::Quit)
            },
            Key::Char('c') => (
                AppView { show_popup: true, popup_type: PopupType::ArchiveTasks, ..self },
                Action::Continue,
            ),
            Key::Char('s') => (self, Action::Save),
            Key::Char('j') | Key::Down => (self.inc_sel_task(), Action::Continue),
            Key::Char('k') | Key::Up => (self.dec_sel_task(), Action::Continue),
            Key::Char('u') => (self.move_task_down(), Action::Continue),
            Key::Char('i') => (self.move_task_up(), Action::Continue),
            Key::Enter => if self.confirming_archive() {
                (
                    AppView { show_popup: false, ..self.archive_done_tasks(now) },
                    Action::Continue,
                )
            } else {
                (self.activate_task(), Action::Continue)
            },
            Key::Char(' ') => (self.do_undo_task(), Action::Continue),
            Key::Char('a') => (self.add_task(now), Action::Continue),
            Key::Char('d') => (self.del_task(), Action::Continue),
            Key::Char('e') => (
                AppView {
                    show_popup: true,
                    popup_type: PopupType::EditTask,
                    ..self
                }.enter_edit(EditField::Description),
                Action::Continue,
            ),
            Key::Tab => (AppView { state: AppState::Archived, ..self }, Action::Continue),
            Key::BackTab => (AppView { state: AppState::Settings, ..self }, Action::Continue),
            _ => (self, Action::Continue),
        }
    }

    /// What the edit view makes of `key`.
    #[verifier::opaque]
    pub open spec fn on_edit_key(self, key: Key) -> (AppView, Action) {
        match key {
            Key::Esc => (self.enter_display(), Action::Continue),
            Key::Backspace => (self.delete_in_field(), Action::Continue),
            Key::Enter => (self.type_in_field('\n'), Action::Continue),
            Key::Left => (self.dec_cursor(), Action::Continue),
            Key::Right => (self.inc_cursor(), Action::Continue),
            Key::Up => (self.dec_line(), Action::Continue),
            Key::Down => (self.inc_line(), Action::Continue),
            Key::Char(c) => (self.type_in_field(c), Action::Continue),
            Key::Tab => (self.change_field(), Action::Continue),
            _ => (self, Action::Continue),
        }
    }

    /// What the archive view makes of `key`.
    #[verifier::opaque]
    pub open spec fn on_archive_key(self, key: Key) -> (AppView, Action) {
        match key {
            Key::Char('q') | Key::Esc => (self, Action::Quit),
            Key::Char('h') | Key::Left => (self.inc_arch_item(), Action::Continue),
            Key::Char('l') | Key::Right => (self.dec_arch_item(), Action::Continue),
            Key::Char('j') | Key::Down => (self.inc_sel_task(), Action::Continue),
            Key::Char('k') | Key::Up => (self.dec_sel_task(), Action::Continue),
            Key::Char(' ') => (self.dearchive_task(), Action::Continue),
            Key::Tab => (AppView { state: AppState::Settings, ..self }, Action::Continue),
            Key::BackTab => (self.enter_display(), Action::Continue),
            _ => (self, Action::Continue),
        }
    }

    /// What the settings view makes of `key`.
    #[verifier::opaque]
    pub open spec fn on_settings_key(self, key: Key) -> (AppView, Action) {
        match key {
            Key::Char('q') | Key::Esc => (self, Action::Quit),
            Key::Char('h') | Key::Char('l') => (
                AppView { state: AppState::Display, ..self },
                Action::Continue,
            ),
            Key::Up => (self.dec_setting_selection(), Action::Continue),
            Key::Down => (self.inc_setting_selection(), Action::Continue),
            Key::Right => (self.inc_setting(), Action::Continue),
            Key::Left => (self.dec_setting(), Action::Continue),
            Key::Tab | Key::BackTab => (self.enter_display(), Action::Continue),
            _ => (self, Action::Continue),
        }
    }

    /// The state after one event, and what the caller has to do. Every event
    /// first lets the clock tick at its reading `clock`. A key is then
    /// handled at wall-clock time `now`.
    pub open spec fn handle_event(
        self,
        event: Event,
        clock: Elapsed,
        now: Timestamp,
    ) -> (AppView, Action) {
        let ticked = self.tick(clock);
        match event {
            Event::KeyPress(key) => ticked.handle_key(key, now),
            Event::Tick => (ticked, Action::Continue),
        }
    }

    /// The state after `key`, and what the caller has to do. `now` is the
    /// wall-clock time at which the key is handled; it dates a new task or a
    /// new archive batch and matters to nothing else.
    pub open spec fn handle_key(self, key: Key, now: Timestamp) -> (AppView, Action) {
        match self.state {
            AppState::Display => self.on_display_key(key, now),
            AppState::EditTask => self.on_edit_key(key),
            AppState::Archived => self.on_archive_key(key),
            AppState::Settings => self.on_settings_key(key),
        }
    }

    /// One of the outcomes that `handle_event` has for some reading of the
    /// clocks.
    pub open spec fn may_become(self, event: Event, after: AppView, action: Action) -> bool {
        exists|clock: Elapsed, now: Timestamp|
            clock.wf() && (after, action) == #[trigger] self.handle_event(event, clock, now)
    }
}

/// A key that dates nothing has the same outcome at any time.
pub proof fn lemma_undated_key(app: AppView, key: Key, now: Timestamp, other: Timestamp)
    requires
        !app.needs_clock(key),
    ensures
        app.handle_key(key, now) == app.handle_key(key, other),
{
    reveal(AppView::on_display_key);
}

/// Reading the caret's column and row and sending the caret back to them
/// leaves the whole state as it was: not only the text of the buffer but
/// the very split around the caret.
pub proof fn lemma_cursor_round_trip(app: AppView)
    ensures
        app.set_cursor_pos(app.get_cursor_pos().0, app.get_cursor_pos().1) == app,
{
    crate::editor::lemma_cursor_round_trip(app.editor, app.desc_width_char);
}

/// Sending the caret anywhere, or moving it by a character or a row, never
/// changes the text of the buffer.
pub proof fn lemma_caret_moves_keep_text(app: AppView, x: nat, y: nat)
    ensures
        app.set_cursor_pos(x, y).editor.text() == app.editor.text(),
        app.dec_cursor().editor.text() == app.editor.text(),
        app.inc_cursor().editor.text() == app.editor.text(),
        app.dec_line().editor.text() == app.editor.text(),
        app.inc_line().editor.text() == app.editor.text(),
{
    crate::editor::lemma_set_cursor_keeps_text(app.editor, x, y, app.desc_width_char);
    crate::editor::lemma_row_moves_keep_text(app.editor, app.desc_width_char);
    crate::editor::lemma_edit_text(app.editor, ' ');
}

/// An edit that is entered and committed with nothing typed leaves the
/// field as it was: a description always, a title if it held no line break.
/// A title with line breaks comes back without them. Leaving the edit view
/// right after entering it therefore leaves such tasks untouched.
pub proof fn lemma_commit_without_change(app: AppView, field: EditField)
    requires
        model::first_selected(app.tasks) is Some,
    ensures
        ({
            let i = model::first_selected(app.tasks)->0;
            let before = app.tasks[i];
            let after = app.enter_edit(field).committed_tasks();
            &&& after == app.tasks.update(
                i,
                commit_field(before, field, field_text(before, field)),
            )
            &&& after[i].description == before.description
            &&& after[i].title == if field == EditField::Title {
                strip_line_breaks(before.title)
            } else {
                before.title
            }
            &&& (field == EditField::Description || !before.title.contains('\n')) ==> after
                == app.tasks && app.enter_edit(field).enter_display().tasks == app.tasks
        }),
{
    let i = model::first_selected(app.tasks)->0;
    let before = app.tasks[i];
    let entered = app.enter_edit(field);
    model::lemma_first_selected(app.tasks);
    assert(entered.editor.text() =~= field_text(before, field));
    if !before.title.contains('\n') {
        crate::text::lemma_strip_without_line_breaks(before.title);
    }
    let after = entered.committed_tasks();
    if field == EditField::Description || !before.title.contains('\n') {
        assert(commit_field(before, field, field_text(before, field)) == before);
        assert(after =~= app.tasks);
    }
}

/// Committing twice is committing once.
pub proof fn lemma_commit_twice(app: AppView)
    ensures
        app.commit().commit() == app.commit(),
{
    model::lemma_first_selected(app.tasks);
    let once = AppView { tasks: app.committed_tasks(), ..app };
    match model::first_selected(app.tasks) {
        Some(i) => {
            assert(model::is_first_selected(once.tasks, i));
            model::lemma_first_selected_is(once.tasks, i);
            crate::text::lemma_strip_is_clean(app.editor.text());
            assert(once.committed_tasks() =~= app.committed_tasks());
        },
        None => {},
    }
}

/// At the ends of the list on view the selection does not move: going down
/// from the last task, or up from the first, changes nothing, and neither
/// does either where nothing is selected.
pub proof fn lemma_select_at_ends(app: AppView)
    ensures
        app.state == AppState::Display && (model::first_selected(app.tasks) == Some(
            app.tasks.len() - 1,
        ) || model::first_selected(app.tasks) is None) ==> app.inc_sel_task() == app,
        app.state == AppState::Display && (model::first_selected(app.tasks) == Some(0int)
            || model::first_selected(app.tasks) is None) ==> app.dec_sel_task() == app,
        app.state == AppState::Archived && app.current_batch() is Some ==> {
            let batch = app.archive[app.current_batch()->0].tasks;
            &&& (model::first_selected(batch) == Some(batch.len() - 1) || model::first_selected(
                batch,
            ) is None) ==> app.inc_sel_task() == app
            &&& (model::first_selected(batch) == Some(0int) || model::first_selected(batch)
                is None) ==> app.dec_sel_task() == app
        },
{
}

/// Deleting the only task, which is selected, empties the list; deleting
/// from an empty list changes nothing.
pub proof fn lemma_delete_small(app: AppView)
    ensures
        app.tasks.len() == 1 && app.tasks[0].is_selected ==> app.del_task().tasks
            == Seq::<TaskView>::empty(),
        app.tasks.len() == 0 ==> app.del_task() == app,
{
    model::lemma_delete_small(app.tasks);
}

/// No key touches the tick reference, only a tick moves it; and nothing
/// ever moves the moment from which the tracker's clock counts.
pub proof fn lemma_key_keeps_reference(app: AppView, key: Key, now: Timestamp)
    ensures
        app.handle_key(key, now).0.last_event == app.last_event,
        app.handle_key(key, now).0.origin == app.origin,
        forall|event: Event, clock: Elapsed|
            (#[trigger] app.handle_event(event, clock, now)).0.origin == app.origin,
        forall|clock: Elapsed| (#[trigger] app.tick(clock)).origin == app.origin,
{
    assert forall|event: Event, clock: Elapsed|
        (#[trigger] app.handle_event(event, clock, now)).0.origin == app.origin by {
        match event {
            Event::KeyPress(k) => lemma_key_keeps_origin(app.tick(clock), k, now),
            Event::Tick => {},
        }
    }
    lemma_key_keeps_origin(app, key, now);
}

proof fn lemma_key_keeps_origin(app: AppView, key: Key, now: Timestamp)
    ensures
        app.handle_key(key, now).0.last_event == app.last_event,
        app.handle_key(key, now).0.origin == app.origin,
{
    reveal(AppView::on_display_key);
    reveal(AppView::on_edit_key);
    reveal(AppView::on_archive_key);
    reveal(AppView::on_settings_key);
}

/// A tick makes the clock reading the tick reference, whether a task is
/// active or not, so that time in which no task was active is never charged
/// to a task that becomes active later. Between two well-formed readings
/// that do not run backwards, the time charged to the active task is the
/// time between them, and nothing is charged where no task is active.
pub proof fn lemma_tick_restarts(app: AppView, clock: Elapsed)
    ensures
        app.update_times(clock).last_event == clock,
        app.tick(clock).last_event == clock,
        app.update_times(clock).tasks == model::accrue(app.tasks, app.since_event(clock)),
        app.tick(clock).tasks == app.update_times(clock).tasks,
        model::first_active(app.tasks) is None ==> app.tick(clock).tasks == app.tasks,
        clock.wf() && app.last_event.wf() && app.last_event.total_nanos() <= clock.total_nanos()
            ==> app.since_event(clock).total_nanos() == clock.total_nanos()
            - app.last_event.total_nanos(),
        clock.wf() ==> app.update_times(clock).since_event(clock) == (Elapsed {
            secs: 0,
            nanos: 0,
        }),
{
    if clock.wf() {
        crate::time::lemma_minus_then_plus(clock, clock);
        if app.last_event.wf() && app.last_event.total_nanos() <= clock.total_nanos() {
            crate::time::lemma_minus_then_plus(clock, app.last_event);
        }
    }
}

/// The caret's blink restarts exactly when the caret flips: a tick that
/// comes more than the blink time after the last restart flips the caret
/// and restarts the blink at its reading, and any other tick leaves both
/// as they are.
pub proof fn lemma_blink_restarts(app: AppView, clock: Elapsed)
    ensures
        app.since_blink(clock).total_nanos() > 400_000_000 ==> app.blink(clock).cursor_shown
            != app.cursor_shown && app.blink(clock).last_blink == clock,
        app.since_blink(clock).total_nanos() <= 400_000_000 ==> app.blink(clock) == app,
        clock.wf() ==> app.blink(clock).blink(clock) == app.blink(clock),
{
    if clock.wf() {
        crate::time::lemma_minus_then_plus(clock, clock);
    }
}

} // verus!
