//! What a renderer needs computed from the state before it draws: the tab
//! of a view, the line and the style of a task, the rows of a list that fit
//! the window, and the heading of an archive batch.

use vstd::prelude::*;
use crate::settings::{Settings, Style};
use crate::state::AppState;
use crate::task::{Task, TaskView};
use crate::text::{chars_of, string_of};

verus! {

/// The style a task is drawn in: highlighted if it is selected, in the
/// active colour if it is active.
pub open spec fn spec_task_style(settings: Settings, task: TaskView) -> Style {
    if task.is_selected {
        if task.is_active {
            settings.active_highlight
        } else {
            settings.highlight
        }
    } else if task.is_active {
        settings.active_normal
    } else {
        settings.default
    }
}

/// The line a task is listed with: a ticked or an empty box, then the
/// title.
pub open spec fn spec_task_line(task: TaskView) -> Seq<char> {
    (if task.is_done {
        seq!['[', 'X', ']', ' ']
    } else {
        seq!['[', ' ', ']', ' ']
    }) + task.title
}

/// The rows of a list of `len` rows that a window of `height` rows shows
/// when it starts at row `first`: all of them if they fit, else the rows
/// from `first` on that fit the window and exist.
pub open spec fn spec_visible_range(len: nat, first: nat, height: nat) -> (nat, nat) {
    if len <= height {
        (0, len)
    } else if first >= len {
        (len, len)
    } else if len - first <= height {
        (first, len)
    } else {
        (first, first + height)
    }
}

/// The heading of the archive batch at index `curr` of `count`: the date
/// between an arrow to the left if a later batch exists and an arrow to the
/// right if an earlier one does, blanks in their places otherwise.
pub open spec fn spec_archive_title(date: Seq<char>, curr: nat, count: nat) -> Seq<char> {
    seq![' '] + (if curr + 1 < count {
        seq!['<', '-', ' ']
    } else {
        seq![' ', ' ', ' ']
    }) + date + (if curr > 0 {
        seq![' ', '-', '>']
    } else {
        seq![' ', ' ', ' ']
    }) + seq![' ']
}

/// The tab that stands for a view: the edit view shares the tab of the
/// display view.
pub open spec fn spec_tab_index(state: AppState) -> nat {
    match state {
        AppState::Display => 0,
        AppState::EditTask => 0,
        AppState::Archived => 1,
        AppState::Settings => 2,
    }
}

/// The index of the tab to highlight for `state`.
pub fn tab_index(state: AppState) -> (index: usize)
    ensures
        index == spec_tab_index(state),
        index < 3,
{
    match state {
        AppState::Display => 0,
        AppState::EditTask => 0,
        AppState::Archived => 1,
        AppState::Settings => 2,
    }
}

/// The style to draw `task` in.
pub fn task_style(settings: &Settings, task: &Task) -> (style: Style)
    ensures
        style == spec_task_style(*settings, task@),
{
    if task.is_selected {
        if task.is_active {
            settings.active_highlight
        } else {
            settings.highlight
        }
    } else if task.is_active {
        settings.active_normal
    } else {
        settings.default
    }
}

/// The line to list `task` with.
pub fn task_line(task: &Task) -> (line: String)
    ensures
        line@ == spec_task_line(task@),
{
    let mut line: Vec<char> = Vec::new();
    line.push('[');
    line.push(if task.is_done {
        'X'
    } else {
        ' '
    });
    line.push(']');
    line.push(' ');
    let mut title = chars_of(task.title.as_str());
    line.append(&mut title);
    assert(line@ =~= spec_task_line(task@));
    string_of(&line)
}

/// The first row to draw and the row after the last one to draw.
pub fn visible_range(len: usize, first: usize, height: usize) -> (range: (usize, usize))
    ensures
        (range.0 as nat, range.1 as nat) == spec_visible_range(
            len as nat,
            first as nat,
            height as nat,
        ),
        range.0 <= range.1 <= len,
        range.1 - range.0 <= height,
{
    if len <= height {
        (0, len)
    } else if first >= len {
        (len, len)
    } else if len - first <= height {
        (first, len)
    } else {
        (first, first + height)
    }
}

/// The heading of the archive batch at index `curr` of `count`, dated
/// `date`.
pub fn archive_title(date: &str, curr: usize, count: usize) -> (title: String)
    ensures
        title@ == spec_archive_title(date@, curr as nat, count as nat),
{
    let mut title: Vec<char> = Vec::new();
    title.push(' ');
    if curr < count && curr < count - 1 {
        title.push('<');
        title.push('-');
        title.push(' ');
    } else {
        title.push(' ');
        title.push(' ');
        title.push(' ');
    }
    let mut text = chars_of(date);
    title.append(&mut text);
    if curr > 0 {
        title.push(' ');
        title.push('-');
        title.push('>');
    } else {
        title.push(' ');
        title.push(' ');
        title.push(' ');
    }
    title.push(' ');
    assert(title@ =~= spec_archive_title(date@, curr as nat, count as nat));
    string_of(&title)
}

/// After the window has followed the selection to row `j`, that row is
/// among the rows drawn, if the window has any height and `j` is a row of
/// the list.
pub proof fn lemma_scrolled_row_is_visible(first: nat, height: nat, j: nat, len: nat)
    requires
        height > 0,
        j < len,
    ensures
        ({
            let range = spec_visible_range(len, crate::state::scroll_to(first, height, j), height);
            range.0 <= j < range.1
        }),
{
}

/// The shift that brings a row into view is the least one: the window stays
/// where it is if the row is already in view, and otherwise moves just far
/// enough for the row to be its first or its last row.
pub proof fn lemma_scroll_is_least(first: nat, height: nat, j: nat)
    requires
        height > 0,
    ensures
        first <= j < first + height ==> crate::state::scroll_to(first, height, j) == first,
        j < first ==> crate::state::scroll_to(first, height, j) == j,
        j >= first + height ==> crate::state::scroll_to(first, height, j) + height == j + 1,
{
}

} // verus!
