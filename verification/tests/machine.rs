use task_tracker::app::{scroll_to, App};
use task_tracker::colour::Colour;
use task_tracker::settings::{EditSettingField, Settings};
use task_tracker::state::{Action, AppState, EditField, Event, Key, PopupType};
use task_tracker::task::{ArchiveItem, Task};
use task_tracker::time::{Elapsed, Timestamp};

const NOW: Timestamp = Timestamp { secs: 1_700_000_000, nanos: 5 };

fn named(title: &str, description: &str) -> Task {
    let mut task = Task::new(Timestamp { secs: 1, nanos: 0 });
    task.title = title.to_string();
    task.description = description.to_string();
    task.is_selected = false;
    task
}

fn app_with(titles: &[&str]) -> App {
    let tasks: Vec<Task> = titles.iter().map(|t| named(t, "")).collect();
    App::new("./".to_string(), tasks, Vec::new(), None)
}

fn press(app: &mut App, keys: &[Key]) {
    for key in keys {
        assert_eq!(app.handle_key_at(*key, NOW), Action::Continue);
    }
}

fn type_text(app: &mut App, text: &str) {
    for c in text.chars() {
        assert_eq!(app.handle_key_at(Key::Char(c), NOW), Action::Continue);
    }
}

fn titles(tasks: &[Task]) -> Vec<String> {
    tasks.iter().map(|t| t.title.clone()).collect()
}

fn selected(tasks: &[Task]) -> Vec<usize> {
    tasks.iter().enumerate().filter(|(_, t)| t.is_selected).map(|(i, _)| i).collect()
}

fn active(tasks: &[Task]) -> Vec<usize> {
    tasks.iter().enumerate().filter(|(_, t)| t.is_active).map(|(i, _)| i).collect()
}

fn lines_of(lines: &[&str]) -> Option<Vec<String>> {
    Some(lines.iter().map(|l| l.to_string()).collect())
}

#[test]
fn new_normalises_the_selection_and_starts_in_display() {
    let mut tasks = vec![named("a", ""), named("b", ""), named("c", "")];
    tasks[1].is_selected = true;
    tasks[2].is_selected = true;
    let mut batch = vec![named("x", ""), named("y", "")];
    batch[1].is_selected = true;
    let archive = vec![
        ArchiveItem { date: Timestamp { secs: 5, nanos: 0 }, tasks: vec![named("w", "")] },
        ArchiveItem { date: Timestamp { secs: 6, nanos: 0 }, tasks: batch },
    ];
    let app = App::new("data/".to_string(), tasks, archive, None);
    assert_eq!(selected(app.tasks()), vec![0]);
    assert_eq!(app.archive().len(), 2);
    assert_eq!(selected(&app.archive()[1].tasks), vec![1]);
    assert_eq!(selected(&app.archive()[0].tasks), Vec::<usize>::new());
    assert_eq!(app.curr_archive(), 1);
    assert_eq!(app.state(), AppState::Display);
    assert_eq!(app.edit_field(), EditField::Description);
    assert_eq!(app.edit_setting(), EditSettingField::Split);
    assert_eq!(app.popup(), None);
    assert_eq!(app.first_task(), 0);
    assert_eq!(app.desc_width_char(), 0);
    assert_eq!(app.task_block_height(), 0);
    assert!(!app.cursor_shown());
    assert_eq!(app.last_event(), Elapsed { secs: 0, nanos: 0 });
    assert_eq!(app.last_blink(), Elapsed { secs: 0, nanos: 0 });
    assert_eq!(app.data_path(), "data/");
    assert_eq!(*app.settings(), Settings::default_settings());
    assert_eq!(app.editor().cursor_offset(), 0);
}

#[test]
fn new_with_an_empty_store() {
    let app = App::new("./".to_string(), Vec::new(), Vec::new(), None);
    assert!(app.tasks().is_empty());
    assert!(app.archive().is_empty());
    assert_eq!(app.curr_archive(), 0);
    assert!(app.get_curr_archive_item().is_none());
}

#[test]
fn new_keeps_stored_settings() {
    let mut stored = Settings::default_settings();
    stored.inc_setting(EditSettingField::Border);
    stored.inc_setting(EditSettingField::Split);
    let app = App::new("./".to_string(), Vec::new(), Vec::new(), Some(stored));
    assert_eq!(*app.settings(), stored);
    assert_eq!(app.settings().border_colour, Colour::Blue);
}

#[test]
fn add_type_switch_type_and_leave() {
    let mut app = App::new("./".to_string(), Vec::new(), Vec::new(), None);
    press(&mut app, &[Key::Char('a')]);
    assert_eq!(app.state(), AppState::EditTask);
    assert_eq!(app.popup(), Some(PopupType::NewTask));
    assert_eq!(app.edit_field(), EditField::Title);
    type_text(&mut app, "Buy milk");
    press(&mut app, &[Key::Tab]);
    assert_eq!(app.edit_field(), EditField::Description);
    type_text(&mut app, "2%");
    press(&mut app, &[Key::Esc]);
    assert_eq!(app.state(), AppState::Display);
    assert_eq!(app.popup(), None);
    assert_eq!(app.tasks().len(), 1);
    let task = &app.tasks()[0];
    assert_eq!(task.title, "Buy milk");
    assert_eq!(task.description, "2%");
    assert!(!task.is_done);
    assert!(!task.is_active);
    assert!(task.is_selected);
    assert_eq!(task.created_on, NOW);
    assert_eq!(task.elapsed_time, Elapsed { secs: 0, nanos: 0 });
}

#[test]
fn archive_moves_the_done_task_into_a_dated_batch() {
    let mut app = app_with(&["a", "b"]);
    press(&mut app, &[Key::Char(' '), Key::Char('c')]);
    assert_eq!(app.popup(), Some(PopupType::ArchiveTasks));
    press(&mut app, &[Key::Enter]);
    assert_eq!(app.popup(), None);
    assert_eq!(titles(app.tasks()), vec!["b"]);
    assert_eq!(selected(app.tasks()), vec![0]);
    assert_eq!(app.archive().len(), 1);
    assert_eq!(app.curr_archive(), 0);
    let batch = app.get_curr_archive_item().unwrap();
    assert_eq!(batch.date, NOW);
    assert_eq!(titles(&batch.tasks), vec!["a"]);
    assert!(batch.tasks[0].is_done);
    assert!(batch.tasks[0].is_selected);
}

#[test]
fn dearchive_removes_the_empty_batch_and_restores_the_task() {
    let mut app = app_with(&["a", "b"]);
    press(&mut app, &[Key::Char(' '), Key::Char('c'), Key::Enter, Key::Tab]);
    assert_eq!(app.state(), AppState::Archived);
    press(&mut app, &[Key::Char(' ')]);
    assert!(app.archive().is_empty());
    assert_eq!(app.curr_archive(), 0);
    assert_eq!(titles(app.tasks()), vec!["b", "a"]);
    assert!(!app.tasks()[1].is_done);
    assert!(!app.tasks()[1].is_selected);
    assert_eq!(selected(app.tasks()), vec![0]);
}

#[test]
fn dearchive_into_an_empty_list_leaves_the_task_unselected_until_display() {
    let mut app = app_with(&["a"]);
    press(&mut app, &[Key::Char(' '), Key::Char('c'), Key::Enter]);
    assert!(app.tasks().is_empty());
    press(&mut app, &[Key::Tab, Key::Char(' ')]);
    assert_eq!(titles(app.tasks()), vec!["a"]);
    assert_eq!(selected(app.tasks()), Vec::<usize>::new());
    press(&mut app, &[Key::BackTab]);
    assert_eq!(app.state(), AppState::Display);
    assert_eq!(selected(app.tasks()), vec![0]);
}

#[test]
fn activity_moves_from_one_task_to_the_other() {
    let mut app = app_with(&["a", "b"]);
    press(&mut app, &[Key::Enter]);
    assert_eq!(active(app.tasks()), vec![0]);
    app.add_elapsed(Elapsed { secs: 10, nanos: 0 });
    press(&mut app, &[Key::Down, Key::Enter]);
    assert_eq!(active(app.tasks()), vec![1]);
    assert_eq!(app.tasks()[0].elapsed_time, Elapsed { secs: 10, nanos: 0 });
    assert_eq!(app.tasks()[1].elapsed_time, Elapsed { secs: 0, nanos: 0 });
    app.add_elapsed(Elapsed { secs: 3, nanos: 0 });
    assert_eq!(app.tasks()[0].elapsed_time, Elapsed { secs: 10, nanos: 0 });
    assert_eq!(app.tasks()[1].elapsed_time, Elapsed { secs: 3, nanos: 0 });
}

#[test]
fn typed_description_wraps_at_the_pane_width() {
    let mut app = app_with(&["a"]);
    app.set_layout(4, 10);
    press(&mut app, &[Key::Char('e')]);
    assert_eq!(app.state(), AppState::EditTask);
    assert_eq!(app.popup(), Some(PopupType::EditTask));
    type_text(&mut app, "abcdefgh");
    assert_eq!(app.get_cursor_pos(), (0, 2));
}

#[test]
fn every_list_keeps_one_selected_task() {
    let mut app = app_with(&["a", "b", "c", "d"]);
    let keys = [
        Key::Down,
        Key::Char(' '),
        Key::Char('j'),
        Key::Char('u'),
        Key::Char(' '),
        Key::Char('i'),
        Key::Char('d'),
        Key::Char('c'),
        Key::Enter,
        Key::Char('a'),
        Key::Char('x'),
        Key::Tab,
        Key::Esc,
        Key::Up,
        Key::Char('k'),
        Key::Char(' '),
        Key::Char('c'),
        Key::Enter,
        Key::Tab,
        Key::Down,
        Key::Char(' '),
        Key::Left,
        Key::Right,
        Key::BackTab,
        Key::Enter,
        Key::Char('d'),
    ];
    for key in keys {
        app.handle_key_at(key, NOW);
        if !app.tasks().is_empty() {
            assert_eq!(selected(app.tasks()).len(), 1);
        }
        for batch in app.archive() {
            assert!(!batch.tasks.is_empty());
            assert_eq!(selected(&batch.tasks).len(), 1);
        }
        assert!(active(app.tasks()).len() <= 1);
        assert!(app.tasks().iter().all(|t| !(t.is_done && t.is_active)));
        if app.archive().is_empty() {
            assert_eq!(app.curr_archive(), 0);
        } else {
            assert!(app.curr_archive() < app.archive().len());
        }
    }
}

#[test]
fn at_most_one_task_is_active() {
    let mut app = app_with(&["a", "b", "c"]);
    press(&mut app, &[Key::Enter, Key::Down, Key::Enter, Key::Down, Key::Enter]);
    assert_eq!(active(app.tasks()), vec![2]);
    press(&mut app, &[Key::Enter]);
    assert_eq!(active(app.tasks()), Vec::<usize>::new());
    press(&mut app, &[Key::Enter, Key::Char(' ')]);
    assert_eq!(active(app.tasks()), Vec::<usize>::new());
    assert!(app.tasks()[2].is_done);
    press(&mut app, &[Key::Enter]);
    assert_eq!(active(app.tasks()), Vec::<usize>::new());
}

#[test]
fn cursor_round_trip_through_the_app() {
    let mut app = app_with(&["a"]);
    app.set_layout(5, 3);
    press(&mut app, &[Key::Char('e')]);
    type_text(&mut app, "hello wide\nworld");
    press(&mut app, &[Key::Left, Key::Left, Key::Left]);
    let offset = app.editor().cursor_offset();
    let (x, y) = app.get_cursor_pos();
    app.set_cursor_pos(x, y);
    assert_eq!(app.editor().cursor_offset(), offset);
    assert_eq!(app.get_cursor_pos(), (x, y));
    press(&mut app, &[Key::Esc]);
    assert_eq!(app.tasks()[0].description, "hello wide\nworld");
}

#[test]
fn commit_without_changes_keeps_the_field() {
    let tasks = vec![named("title", "line one\nline two")];
    let mut app = App::new("./".to_string(), tasks, Vec::new(), None);
    press(&mut app, &[Key::Char('e'), Key::Esc]);
    assert_eq!(app.tasks()[0].title, "title");
    assert_eq!(app.tasks()[0].description, "line one\nline two");
    press(&mut app, &[Key::Char('e'), Key::Tab, Key::Tab, Key::Tab, Key::Esc]);
    assert_eq!(app.tasks()[0].title, "title");
    assert_eq!(app.tasks()[0].description, "line one\nline two");
}

#[test]
fn commit_with_the_caret_inside_the_text_keeps_the_field() {
    let tasks = vec![named("title", "abc\ndef")];
    let mut app = App::new("./".to_string(), tasks, Vec::new(), None);
    app.set_layout(20, 5);
    press(&mut app, &[Key::Char('e'), Key::Left, Key::Left, Key::Up, Key::Esc]);
    assert_eq!(app.tasks()[0].description, "abc\ndef");
}

#[test]
fn a_title_loses_its_line_breaks_on_commit() {
    let mut app = App::new("./".to_string(), Vec::new(), Vec::new(), None);
    press(&mut app, &[Key::Char('a')]);
    type_text(&mut app, "Buy");
    press(&mut app, &[Key::Enter]);
    type_text(&mut app, "milk");
    press(&mut app, &[Key::Tab]);
    assert_eq!(app.tasks()[0].title, "Buymilk");
    type_text(&mut app, "one");
    press(&mut app, &[Key::Enter]);
    type_text(&mut app, "two");
    press(&mut app, &[Key::Esc]);
    assert_eq!(app.tasks()[0].title, "Buymilk");
    assert_eq!(app.tasks()[0].description, "one\ntwo");
}

#[test]
fn select_next_at_the_last_index_is_a_no_op() {
    let mut app = app_with(&["a", "b"]);
    app.set_layout(10, 5);
    press(&mut app, &[Key::Down]);
    assert_eq!(selected(app.tasks()), vec![1]);
    let before = app.tasks().clone();
    press(&mut app, &[Key::Down, Key::Char('j')]);
    assert_eq!(*app.tasks(), before);
    assert_eq!(app.first_task(), 0);
}

#[test]
fn select_previous_at_index_zero_is_a_no_op() {
    let mut app = app_with(&["a", "b"]);
    let before = app.tasks().clone();
    press(&mut app, &[Key::Up, Key::Char('k')]);
    assert_eq!(*app.tasks(), before);
}

#[test]
fn delete_on_a_single_element_list_empties_it() {
    let mut app = app_with(&["a"]);
    press(&mut app, &[Key::Char('d')]);
    assert!(app.tasks().is_empty());
    press(&mut app, &[Key::Char('d')]);
    assert!(app.tasks().is_empty());
    assert_eq!(app.state(), AppState::Display);
}

#[test]
fn delete_selects_a_neighbour() {
    let mut app = app_with(&["a", "b", "c"]);
    press(&mut app, &[Key::Down, Key::Char('d')]);
    assert_eq!(titles(app.tasks()), vec!["a", "c"]);
    assert_eq!(selected(app.tasks()), vec![1]);
    press(&mut app, &[Key::Char('d')]);
    assert_eq!(titles(app.tasks()), vec!["a"]);
    assert_eq!(selected(app.tasks()), vec![0]);
}

#[test]
fn the_window_follows_the_selection() {
    let mut app = app_with(&["a", "b", "c", "d", "e", "f"]);
    app.set_layout(10, 3);
    press(&mut app, &[Key::Down, Key::Down]);
    assert_eq!(app.first_task(), 0);
    press(&mut app, &[Key::Down]);
    assert_eq!(app.first_task(), 1);
    press(&mut app, &[Key::Down, Key::Down]);
    assert_eq!(app.first_task(), 3);
    press(&mut app, &[Key::Up, Key::Up]);
    assert_eq!(app.first_task(), 3);
    press(&mut app, &[Key::Up]);
    assert_eq!(app.first_task(), 2);
    press(&mut app, &[Key::Up, Key::Up]);
    assert_eq!(app.first_task(), 0);
}

#[test]
fn scroll_to_makes_the_least_shift() {
    assert_eq!(scroll_to(0, 3, 0), 0);
    assert_eq!(scroll_to(0, 3, 2), 0);
    assert_eq!(scroll_to(0, 3, 3), 1);
    assert_eq!(scroll_to(2, 3, 9), 7);
    assert_eq!(scroll_to(5, 3, 4), 4);
    assert_eq!(scroll_to(5, 3, 0), 0);
    assert_eq!(scroll_to(5, 0, 6), 6);
    assert_eq!(scroll_to(5, 1, 6), 6);
    assert_eq!(scroll_to(5, 1, 5), 5);
}

#[test]
fn reordering_keys_move_the_selected_task() {
    let mut app = app_with(&["a", "b", "c"]);
    press(&mut app, &[Key::Char('u')]);
    assert_eq!(titles(app.tasks()), vec!["b", "a", "c"]);
    press(&mut app, &[Key::Char('u'), Key::Char('u')]);
    assert_eq!(titles(app.tasks()), vec!["b", "c", "a"]);
    press(&mut app, &[Key::Char('i')]);
    assert_eq!(titles(app.tasks()), vec!["b", "a", "c"]);
    assert_eq!(selected(app.tasks()), vec![1]);
}

#[test]
fn quit_and_save_are_signalled() {
    let mut app = app_with(&["a"]);
    assert_eq!(app.handle_key_at(Key::Char('s'), NOW), Action::Save);
    assert_eq!(app.handle_key_at(Key::Char('q'), NOW), Action::Quit);
    assert_eq!(app.handle_key_at(Key::Esc, NOW), Action::Quit);
    press(&mut app, &[Key::Tab]);
    assert_eq!(app.handle_key_at(Key::Char('q'), NOW), Action::Quit);
    assert_eq!(app.handle_key_at(Key::Esc, NOW), Action::Quit);
    assert_eq!(app.handle_key_at(Key::Char('s'), NOW), Action::Continue);
    press(&mut app, &[Key::Tab]);
    assert_eq!(app.state(), AppState::Settings);
    assert_eq!(app.handle_key_at(Key::Char('q'), NOW), Action::Quit);
    assert_eq!(app.handle_key_at(Key::Esc, NOW), Action::Quit);
}

#[test]
fn quit_keys_only_close_the_archive_confirmation() {
    let mut app = app_with(&["a"]);
    press(&mut app, &[Key::Char(' '), Key::Char('c'), Key::Char('q')]);
    assert_eq!(app.popup(), None);
    press(&mut app, &[Key::Char('c'), Key::Esc]);
    assert_eq!(app.popup(), None);
    assert_eq!(titles(app.tasks()), vec!["a"]);
    assert!(app.archive().is_empty());
}

#[test]
fn archiving_without_done_tasks_makes_no_batch() {
    let mut app = app_with(&["a", "b"]);
    press(&mut app, &[Key::Char('c'), Key::Enter]);
    assert!(app.archive().is_empty());
    assert_eq!(titles(app.tasks()), vec!["a", "b"]);
    assert_eq!(app.popup(), None);
}

#[test]
fn tabs_cycle_through_the_views() {
    let mut app = app_with(&["a"]);
    press(&mut app, &[Key::Tab]);
    assert_eq!(app.state(), AppState::Archived);
    press(&mut app, &[Key::Tab]);
    assert_eq!(app.state(), AppState::Settings);
    press(&mut app, &[Key::Tab]);
    assert_eq!(app.state(), AppState::Display);
    press(&mut app, &[Key::BackTab]);
    assert_eq!(app.state(), AppState::Settings);
    press(&mut app, &[Key::BackTab]);
    assert_eq!(app.state(), AppState::Display);
    press(&mut app, &[Key::BackTab, Key::Char('h')]);
    assert_eq!(app.state(), AppState::Display);
    press(&mut app, &[Key::BackTab, Key::Char('l')]);
    assert_eq!(app.state(), AppState::Display);
    press(&mut app, &[Key::Tab, Key::BackTab]);
    assert_eq!(app.state(), AppState::Display);
}

#[test]
fn settings_keys_select_and_step() {
    let mut app = app_with(&[]);
    press(&mut app, &[Key::BackTab, Key::Up]);
    assert_eq!(app.edit_setting(), EditSettingField::Split);
    press(&mut app, &[Key::Right]);
    assert!(!app.settings().is_horizontal);
    press(&mut app, &[Key::Left]);
    assert!(app.settings().is_horizontal);
    press(&mut app, &[Key::Down, Key::Right]);
    assert_eq!(app.edit_setting(), EditSettingField::NormalFg);
    assert_eq!(app.settings().normal_fg_colour, Colour::Cyan);
    assert_eq!(app.settings().default.fg, Colour::Cyan);
    press(&mut app, &[Key::Left, Key::Left]);
    assert_eq!(app.settings().normal_fg_colour, Colour::Black);
    for _ in 0..10 {
        press(&mut app, &[Key::Down]);
    }
    assert_eq!(app.edit_setting(), EditSettingField::Border);
    press(&mut app, &[Key::Up]);
    assert_eq!(app.edit_setting(), EditSettingField::Title);
}

#[test]
fn archive_keys_walk_the_batches() {
    let batches = vec![
        ArchiveItem { date: Timestamp { secs: 1, nanos: 0 }, tasks: vec![Task::new(NOW), named("b", "")] },
        ArchiveItem { date: Timestamp { secs: 2, nanos: 0 }, tasks: vec![Task::new(NOW)] },
        ArchiveItem { date: Timestamp { secs: 3, nanos: 0 }, tasks: vec![Task::new(NOW)] },
    ];
    let mut app = App::new("./".to_string(), Vec::new(), batches, None);
    press(&mut app, &[Key::Tab]);
    assert_eq!(app.curr_archive(), 2);
    press(&mut app, &[Key::Char('h'), Key::Left]);
    assert_eq!(app.curr_archive(), 2);
    press(&mut app, &[Key::Char('l')]);
    assert_eq!(app.curr_archive(), 1);
    press(&mut app, &[Key::Right, Key::Right]);
    assert_eq!(app.curr_archive(), 0);
    assert_eq!(app.get_curr_archive_item().unwrap().date, Timestamp { secs: 1, nanos: 0 });
    press(&mut app, &[Key::Down]);
    assert_eq!(selected(&app.archive()[0].tasks), vec![1]);
    press(&mut app, &[Key::Char('k')]);
    assert_eq!(selected(&app.archive()[0].tasks), vec![0]);
    press(&mut app, &[Key::Left]);
    assert_eq!(app.curr_archive(), 1);
    press(&mut app, &[Key::Char(' ')]);
    assert_eq!(app.archive().len(), 2);
    assert_eq!(app.curr_archive(), 1);
    assert_eq!(app.get_curr_archive_item().unwrap().date, Timestamp { secs: 3, nanos: 0 });
    press(&mut app, &[Key::Char(' ')]);
    assert_eq!(app.archive().len(), 1);
    assert_eq!(app.curr_archive(), 0);
    assert_eq!(app.tasks().len(), 2);
}

#[test]
fn edit_keys_move_the_caret() {
    let mut app = app_with(&["a"]);
    app.set_layout(10, 5);
    press(&mut app, &[Key::Char('e')]);
    type_text(&mut app, "abc");
    press(&mut app, &[Key::Enter]);
    type_text(&mut app, "def");
    assert_eq!(app.get_cursor_pos(), (3, 1));
    press(&mut app, &[Key::Left]);
    assert!(app.cursor_shown());
    assert_eq!(app.get_cursor_pos(), (2, 1));
    press(&mut app, &[Key::Up]);
    assert_eq!(app.get_cursor_pos(), (2, 0));
    press(&mut app, &[Key::Up]);
    assert_eq!(app.get_cursor_pos(), (0, 0));
    press(&mut app, &[Key::Down]);
    assert_eq!(app.get_cursor_pos(), (0, 1));
    press(&mut app, &[Key::Right, Key::Backspace]);
    assert_eq!(app.get_cursor_pos(), (0, 1));
    press(&mut app, &[Key::Down, Key::Other]);
    assert_eq!(app.editor().caret_char(), None);
    press(&mut app, &[Key::Esc]);
    assert_eq!(app.tasks()[0].description, "abc\nef");
}

#[test]
fn edit_on_an_empty_list_opens_the_popup_only() {
    let mut app = app_with(&[]);
    press(&mut app, &[Key::Char('e')]);
    assert_eq!(app.state(), AppState::Display);
    assert_eq!(app.popup(), Some(PopupType::EditTask));
}

#[test]
fn shown_texts_in_the_display_view() {
    let tasks = vec![named("first", "one\ntwo"), named("second", "")];
    let mut app = App::new("./".to_string(), tasks, Vec::new(), None);
    assert_eq!(app.get_sel_task_title(), Some("first".to_string()));
    assert_eq!(app.get_sel_task_info(), lines_of(&["", "one", "two"]));
    assert_eq!(app.get_sel_task_title_editable(), None);
    assert_eq!(app.get_sel_task_info_editable(), None);
    press(&mut app, &[Key::Down]);
    assert_eq!(app.get_sel_task_title(), Some("second".to_string()));
    assert_eq!(app.get_sel_task_info(), lines_of(&["", ""]));
    assert_eq!(app.shown_task().map(|t| t.title.clone()), Some("second".to_string()));
    press(&mut app, &[Key::BackTab]);
    assert_eq!(app.get_sel_task_title(), None);
    assert_eq!(app.get_sel_task_info(), None);
}

#[test]
fn shown_texts_in_the_archive_view() {
    let mut app = app_with(&["a", "b"]);
    press(&mut app, &[Key::Tab]);
    assert_eq!(app.get_sel_task_title(), None);
    press(&mut app, &[Key::BackTab, Key::Char(' '), Key::Char('c'), Key::Enter, Key::Tab]);
    assert_eq!(app.get_sel_task_title(), Some("a".to_string()));
    assert_eq!(app.get_sel_task_info(), lines_of(&["", ""]));
}

#[test]
fn shown_texts_while_editing() {
    let tasks = vec![named("title", "ab\ncd")];
    let mut app = App::new("./".to_string(), tasks, Vec::new(), None);
    app.set_layout(10, 5);
    press(&mut app, &[Key::Char('e')]);
    assert_eq!(app.shown_caret(), ' ');
    assert_eq!(app.get_sel_task_title_editable(), Some("title".to_string()));
    assert_eq!(app.get_sel_task_info_editable(), lines_of(&["", "ab", "cd "]));
    assert_eq!(app.get_sel_task_info(), lines_of(&["", "ab", "cd"]));
    assert_eq!(app.last_blink(), Elapsed { secs: 0, nanos: 0 });
    assert!(app.blink(Elapsed { secs: 0, nanos: 400_000_001 }));
    assert_eq!(app.last_blink(), Elapsed { secs: 0, nanos: 400_000_001 });
    assert_eq!(app.shown_caret(), '_');
    assert_eq!(app.get_sel_task_info_editable(), lines_of(&["", "ab", "cd_"]));
    press(&mut app, &[Key::Left, Key::Left, Key::Left]);
    assert_eq!(app.get_sel_task_info_editable(), lines_of(&["", "ab_", "cd"]));
    assert!(app.blink(Elapsed { secs: 1, nanos: 0 }));
    assert!(!app.cursor_shown());
    assert_eq!(app.get_sel_task_info_editable(), lines_of(&["", "ab ", "cd"]));
    press(&mut app, &[Key::Left]);
    assert!(app.cursor_shown());
    assert_eq!(app.last_blink(), app.last_event());
    assert!(app.blink(Elapsed { secs: 1, nanos: 0 }));
    assert!(!app.blink(Elapsed { secs: 1, nanos: 400_000_000 }));
    assert_eq!(app.last_blink(), Elapsed { secs: 1, nanos: 0 });
    assert_eq!(app.shown_caret(), 'b');
    assert_eq!(app.get_sel_task_info_editable(), lines_of(&["", "ab", "cd"]));
    press(&mut app, &[Key::Tab]);
    assert_eq!(app.get_sel_task_info_editable(), lines_of(&["", "ab", "cd"]));
    assert_eq!(app.get_sel_task_title_editable(), Some("title ".to_string()));
    press(&mut app, &[Key::Left, Key::Left]);
    assert_eq!(app.get_sel_task_title_editable(), Some("tit_e".to_string()));
}

#[test]
fn the_clock_dates_new_tasks_and_batches() {
    let mut app = app_with(&[]);
    assert_eq!(app.handle_key(Key::Char('a')), Action::Continue);
    assert_eq!(app.handle_key(Key::Esc), Action::Continue);
    assert_eq!(app.tasks().len(), 1);
    assert!(app.tasks()[0].created_on.secs > 1_600_000_000);
    assert!(app.tasks()[0].created_on.nanos < 2_000_000_000);
    assert_eq!(app.handle_key(Key::Char(' ')), Action::Continue);
    assert_eq!(app.handle_key(Key::Char('c')), Action::Continue);
    assert_eq!(app.handle_key(Key::Enter), Action::Continue);
    assert_eq!(app.archive().len(), 1);
    assert!(app.archive()[0].date.secs >= app.archive()[0].tasks[0].created_on.secs);
    app.add_task();
    assert_eq!(app.state(), AppState::EditTask);
    app.enter_display();
    app.do_undo_task();
    app.archive_done_tasks();
    assert_eq!(app.archive().len(), 2);
    assert!(app.archive()[1].date.secs > 1_600_000_000);
}

#[test]
fn ticks_add_time_to_the_active_task_only() {
    let mut app = app_with(&["a", "b"]);
    app.tick();
    let first = app.last_event();
    app.update_times();
    let second = app.last_event();
    assert!(first.nanos < 1_000_000_000);
    assert!(second.nanos < 1_000_000_000);
    assert!((second.secs, second.nanos) >= (first.secs, first.nanos));
    assert_eq!(app.tasks()[0].elapsed_time, Elapsed { secs: 0, nanos: 0 });
    press(&mut app, &[Key::Enter]);
    app.tick();
    app.update_times();
    let spent = app.tasks()[0].elapsed_time;
    assert_eq!(spent, app.last_event().minus(second));
    assert!(spent.secs < 5);
    assert!(spent.nanos < 1_000_000_000);
    assert_eq!(app.tasks()[1].elapsed_time, Elapsed { secs: 0, nanos: 0 });
}

#[test]
fn commands_by_name() {
    let mut app = app_with(&["a", "b", "c"]);
    app.inc_sel_task();
    app.move_task_up();
    assert_eq!(titles(app.tasks()), vec!["b", "a", "c"]);
    app.move_task_down();
    app.dec_sel_task();
    assert_eq!(selected(app.tasks()), vec![0]);
    app.activate_task();
    app.do_undo_task();
    assert!(app.tasks()[0].is_done);
    assert!(!app.tasks()[0].is_active);
    app.archive_done_tasks_at(NOW);
    assert_eq!(titles(app.tasks()), vec!["b", "c"]);
    app.del_task();
    assert_eq!(titles(app.tasks()), vec!["c"]);
    app.enter_edit(EditField::Title);
    app.type_in_field('!');
    app.dec_cursor();
    app.dec_cursor();
    app.delete_in_field();
    app.inc_cursor();
    app.inc_line();
    app.dec_line();
    app.change_field();
    app.type_in_field('d');
    app.enter_display();
    assert_eq!(app.tasks()[0].title, "c!");
    assert_eq!(app.tasks()[0].description, "d");
    app.add_task_at(NOW);
    app.enter_display();
    assert_eq!(selected(app.tasks()), vec![1]);
    app.inc_setting_selection();
    app.inc_setting();
    app.dec_setting_selection();
    app.dec_setting();
    assert_eq!(app.settings().normal_fg_colour, Colour::Cyan);
    assert!(!app.settings().is_horizontal);
    app.inc_arch_item();
    app.dec_arch_item();
    assert_eq!(app.curr_archive(), 0);
    let mut archived = App::new("./".to_string(), Vec::new(), Vec::new(), None);
    archived.dearchive_task();
    assert!(archived.tasks().is_empty());
}

#[test]
fn ten_seconds_on_one_task_then_the_other() {
    let none = Elapsed { secs: 0, nanos: 0 };
    let at = |secs: u64, nanos: u32| Elapsed { secs, nanos };
    let mut app = app_with(&["a", "b"]);
    assert_eq!(app.handle_event_at(Event::KeyPress(Key::Enter), at(5, 0), NOW), Action::Continue);
    assert_eq!(app.last_event(), at(5, 0));
    assert_eq!(app.handle_event_at(Event::Tick, at(15, 0), NOW), Action::Continue);
    assert_eq!(app.last_event(), at(15, 0));
    assert_eq!(app.tasks()[0].elapsed_time, at(10, 0));
    assert_eq!(app.tasks()[1].elapsed_time, none);
    assert_eq!(active(app.tasks()), vec![0]);
    assert_eq!(app.handle_event_at(Event::KeyPress(Key::Down), at(15, 0), NOW), Action::Continue);
    assert_eq!(app.handle_event_at(Event::KeyPress(Key::Enter), at(15, 0), NOW), Action::Continue);
    assert_eq!(active(app.tasks()), vec![1]);
    assert_eq!(app.tasks()[0].elapsed_time, at(10, 0));
    assert_eq!(app.tasks()[1].elapsed_time, none);
    app.handle_event_at(Event::Tick, at(15, 200_000_000), NOW);
    assert_eq!(app.tasks()[0].elapsed_time, at(10, 0));
    assert_eq!(app.tasks()[1].elapsed_time, at(0, 200_000_000));
    assert_eq!(app.last_event(), at(15, 200_000_000));
}

#[test]
fn update_times_charges_the_time_since_the_reference_and_restarts_it() {
    let at = |secs: u64| Elapsed { secs, nanos: 0 };
    let mut app = app_with(&["a", "b"]);
    app.update_times_at(at(7));
    press(&mut app, &[Key::Enter]);
    assert_eq!(app.last_event(), at(7));
    app.update_times_at(at(17));
    assert_eq!(app.tasks()[0].elapsed_time, at(10));
    assert_eq!(app.tasks()[1].elapsed_time, at(0));
    assert!(app.tasks()[0].is_active);
    assert!(!app.tasks()[1].is_active);
    assert_eq!(app.last_event(), at(17));
}

#[test]
fn idle_time_is_never_charged_to_a_task_activated_later() {
    let at = |secs: u64| Elapsed { secs, nanos: 0 };
    let mut app = app_with(&["a", "b"]);
    app.update_times_at(at(3600));
    assert_eq!(app.last_event(), at(3600));
    assert_eq!(app.tasks()[0].elapsed_time, at(0));
    assert_eq!(app.tasks()[1].elapsed_time, at(0));
    app.tick_at(at(7200));
    assert_eq!(app.last_event(), at(7200));
    press(&mut app, &[Key::Enter]);
    app.tick_at(at(7201));
    assert_eq!(app.tasks()[0].elapsed_time, at(1));
    assert_eq!(app.last_event(), at(7201));
}

#[test]
fn a_clock_that_runs_backwards_charges_nothing() {
    let at = |secs: u64| Elapsed { secs, nanos: 0 };
    let mut app = app_with(&["a"]);
    press(&mut app, &[Key::Enter]);
    app.tick_at(at(10));
    app.tick_at(at(4));
    assert_eq!(app.tasks()[0].elapsed_time, at(10));
    assert_eq!(app.last_event(), at(4));
    app.tick_at(at(6));
    assert_eq!(app.tasks()[0].elapsed_time, at(12));
}

#[test]
fn an_event_lets_the_clock_tick_before_the_key() {
    let mut app = app_with(&["a", "b"]);
    press(&mut app, &[Key::Enter]);
    let three = Elapsed { secs: 3, nanos: 0 };
    assert_eq!(app.handle_event_at(Event::KeyPress(Key::Enter), three, NOW), Action::Continue);
    assert_eq!(active(app.tasks()), Vec::<usize>::new());
    assert_eq!(app.tasks()[0].elapsed_time, three);
    let nine = Elapsed { secs: 9, nanos: 0 };
    assert_eq!(app.handle_event_at(Event::KeyPress(Key::Char('q')), nine, NOW), Action::Quit);
    assert_eq!(app.handle_event_at(Event::KeyPress(Key::Char('s')), nine, NOW), Action::Save);
    assert_eq!(app.tasks()[0].elapsed_time, three);
    assert_eq!(app.last_event(), nine);
}

#[test]
fn ticks_flip_the_caret_only_in_the_edit_view() {
    let at = |secs: u64, nanos: u32| Elapsed { secs, nanos };
    let mut app = app_with(&["a"]);
    app.tick_at(at(0, 500_000_000));
    assert!(!app.cursor_shown());
    assert_eq!(app.last_blink(), at(0, 0));
    app.tick_at(at(2, 0));
    press(&mut app, &[Key::Char('e')]);
    assert_eq!(app.last_blink(), at(2, 0));
    app.tick_at(at(2, 400_000_000));
    assert!(!app.cursor_shown());
    assert_eq!(app.last_blink(), at(2, 0));
    app.tick_at(at(2, 400_000_001));
    assert!(app.cursor_shown());
    assert_eq!(app.last_blink(), at(2, 400_000_001));
    app.tick_at(at(2, 600_000_000));
    assert!(app.cursor_shown());
    app.handle_event_at(Event::Tick, at(3, 0), NOW);
    assert!(!app.cursor_shown());
    assert_eq!(app.last_blink(), at(3, 0));
    assert_eq!(app.last_event(), at(3, 0));
}

#[test]
fn keys_restart_the_blink_at_the_latest_tick_and_leave_the_reference() {
    let at = |secs: u64| Elapsed { secs, nanos: 0 };
    let mut app = app_with(&["a"]);
    app.tick_at(at(4));
    press(&mut app, &[Key::Char('e')]);
    assert_eq!(app.last_blink(), at(4));
    app.update_times_at(at(6));
    type_text(&mut app, "xy");
    assert_eq!(app.last_blink(), at(4));
    press(&mut app, &[Key::Left]);
    assert_eq!(app.last_blink(), at(6));
    app.update_times_at(at(8));
    press(&mut app, &[Key::Right]);
    assert_eq!(app.last_blink(), at(8));
    press(&mut app, &[Key::Right]);
    app.update_times_at(at(9));
    press(&mut app, &[Key::Right]);
    assert_eq!(app.last_blink(), at(8));
    press(&mut app, &[Key::Tab]);
    assert_eq!(app.last_blink(), at(9));
    assert_eq!(app.last_event(), at(9));
}

#[test]
fn events_read_the_clocks_themselves() {
    let mut app = app_with(&["a"]);
    assert!(!app.needs_clock(Key::Enter));
    assert!(app.needs_clock(Key::Char('a')));
    assert_eq!(app.handle_event(Event::KeyPress(Key::Enter)), Action::Continue);
    assert_eq!(app.handle_event(Event::Tick), Action::Continue);
    assert_eq!(active(app.tasks()), vec![0]);
    assert!(app.tasks()[0].elapsed_time.secs < 5);
    assert_eq!(app.handle_event(Event::KeyPress(Key::Char('a'))), Action::Continue);
    assert!(app.tasks()[1].created_on.secs > 1_600_000_000);
    assert_eq!(app.handle_event(Event::KeyPress(Key::Esc)), Action::Continue);
    assert_eq!(app.handle_event(Event::KeyPress(Key::Char(' '))), Action::Continue);
    assert_eq!(app.handle_event(Event::KeyPress(Key::Char('c'))), Action::Continue);
    assert!(app.needs_clock(Key::Enter));
    assert_eq!(app.handle_event(Event::KeyPress(Key::Enter)), Action::Continue);
    assert_eq!(app.archive().len(), 1);
    assert_eq!(app.handle_event(Event::KeyPress(Key::Char('q'))), Action::Quit);
}

#[test]
fn commit_writes_the_buffer_to_the_field_under_edit() {
    let tasks = vec![named("old title", "old text"), named("other", "untouched")];
    let mut app = App::new("./".to_string(), tasks, Vec::new(), None);
    app.enter_edit(EditField::Description);
    app.type_in_field('!');
    app.commit();
    assert_eq!(app.tasks()[0].description, "old text!");
    assert_eq!(app.tasks()[0].title, "old title");
    assert_eq!(app.state(), AppState::EditTask);
    app.commit();
    assert_eq!(app.tasks()[0].description, "old text!");
    app.enter_edit(EditField::Title);
    app.type_in_field('\n');
    app.type_in_field('2');
    app.dec_cursor();
    app.commit();
    assert_eq!(app.tasks()[0].title, "old title2");
    assert_eq!(app.tasks()[1].title, "other");
    assert_eq!(app.tasks()[1].description, "untouched");
}
