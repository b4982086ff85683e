use task_tracker::editor::TextEdit;
use task_tracker::text::{chars_of, split_lines, string_of, without_line_breaks};

fn edit_of(text: &str) -> TextEdit {
    TextEdit::enter(chars_of(text))
}

fn typed(text: &str) -> TextEdit {
    let mut edit = TextEdit::new();
    for c in text.chars() {
        edit.insert(c);
    }
    edit
}

fn parts(edit: &TextEdit) -> (String, Option<char>, String) {
    let prefix: String = edit.prefix.iter().collect();
    let suffix: String = edit.tail.iter().skip(1).collect();
    (prefix, edit.caret_char(), suffix)
}

#[test]
fn wrapped_text_puts_the_caret_on_the_third_row() {
    let edit = typed("abcdefgh");
    assert_eq!(edit.cursor_position(4), (0, 2));
}

#[test]
fn cursor_position_counts_columns_until_the_width() {
    assert_eq!(typed("").cursor_position(4), (0, 0));
    assert_eq!(typed("a").cursor_position(4), (1, 0));
    assert_eq!(typed("abc").cursor_position(4), (3, 0));
    assert_eq!(typed("abcd").cursor_position(4), (0, 1));
    assert_eq!(typed("abcde").cursor_position(4), (1, 1));
}

#[test]
fn cursor_position_starts_a_row_at_a_line_break() {
    assert_eq!(typed("ab\n").cursor_position(10), (0, 1));
    assert_eq!(typed("ab\ncd").cursor_position(10), (2, 1));
    assert_eq!(typed("\n\n\n").cursor_position(10), (0, 3));
    assert_eq!(typed("abcd\n").cursor_position(4), (0, 2));
}

#[test]
fn cursor_position_counts_code_points() {
    assert_eq!(typed("héllo wörld").cursor_position(80), (11, 0));
    assert_eq!(typed("日本語").cursor_position(2), (1, 1));
}

#[test]
fn cursor_position_at_width_zero_moves_a_row_per_character() {
    assert_eq!(typed("abc").cursor_position(0), (3, 3));
}

#[test]
fn cursor_position_only_looks_before_the_caret() {
    let mut edit = typed("abcdef");
    edit.move_left();
    edit.move_left();
    assert_eq!(edit.cursor_position(80), (4, 0));
    assert_eq!(edit.cursor_offset(), 4);
}

#[test]
fn enter_puts_the_caret_at_the_end() {
    let edit = edit_of("hello");
    assert_eq!(parts(&edit), ("hello".to_string(), None, "".to_string()));
    assert_eq!(edit.cursor_offset(), 5);
    assert_eq!(string_of(&edit.text()), "hello");
}

#[test]
fn insert_types_before_the_caret() {
    let mut edit = edit_of("held");
    edit.move_left();
    edit.insert('l');
    assert_eq!(parts(&edit), ("hell".to_string(), Some('d'), "".to_string()));
    assert_eq!(string_of(&edit.text()), "helld");
}

#[test]
fn backspace_deletes_before_the_caret() {
    let mut edit = edit_of("abc");
    edit.move_left();
    edit.backspace();
    assert_eq!(string_of(&edit.text()), "ac");
    assert_eq!(parts(&edit), ("a".to_string(), Some('c'), "".to_string()));
}

#[test]
fn backspace_on_an_empty_prefix_does_nothing() {
    let mut edit = edit_of("ab");
    edit.move_left();
    edit.move_left();
    edit.backspace();
    assert_eq!(string_of(&edit.text()), "ab");
    assert_eq!(edit.cursor_offset(), 0);
    let mut empty = TextEdit::new();
    empty.backspace();
    assert_eq!(string_of(&empty.text()), "");
}

#[test]
fn move_left_and_right_cross_one_character() {
    let mut edit = edit_of("abc");
    assert!(edit.move_left());
    assert_eq!(parts(&edit), ("ab".to_string(), Some('c'), "".to_string()));
    assert!(edit.move_left());
    assert_eq!(parts(&edit), ("a".to_string(), Some('b'), "c".to_string()));
    assert!(edit.move_right());
    assert_eq!(parts(&edit), ("ab".to_string(), Some('c'), "".to_string()));
    assert!(edit.move_right());
    assert_eq!(parts(&edit), ("abc".to_string(), None, "".to_string()));
}

#[test]
fn moves_stop_at_both_ends() {
    let mut edit = edit_of("ab");
    assert!(!edit.move_right());
    assert_eq!(parts(&edit), ("ab".to_string(), None, "".to_string()));
    edit.move_left();
    edit.move_left();
    assert!(!edit.move_left());
    assert_eq!(parts(&edit), ("".to_string(), Some('a'), "b".to_string()));
}

#[test]
fn set_cursor_position_finds_column_and_row() {
    let mut edit = edit_of("abcdefgh");
    edit.set_cursor_position(2, 1, 4);
    assert_eq!(parts(&edit), ("abcdef".to_string(), Some('g'), "h".to_string()));
    assert_eq!(edit.cursor_position(4), (2, 1));
    edit.set_cursor_position(0, 0, 4);
    assert_eq!(parts(&edit), ("".to_string(), Some('a'), "bcdefgh".to_string()));
}

#[test]
fn set_cursor_position_stops_at_the_line_break_of_a_short_row() {
    let mut edit = edit_of("ab\ncdef");
    edit.set_cursor_position(3, 0, 10);
    assert_eq!(parts(&edit), ("ab".to_string(), Some('\n'), "cdef".to_string()));
}

#[test]
fn set_cursor_position_beyond_the_text_goes_to_the_end() {
    let mut edit = edit_of("ab\ncd");
    edit.move_left();
    edit.move_left();
    edit.set_cursor_position(0, 7, 10);
    assert_eq!(parts(&edit), ("ab\ncd".to_string(), None, "".to_string()));
    edit.set_cursor_position(5, 1, 10);
    assert_eq!(parts(&edit), ("ab\ncd".to_string(), None, "".to_string()));
}

#[test]
fn set_cursor_position_keeps_the_text() {
    let text = "one two\nthree four five\n\nsix";
    for width in 0..8 {
        for y in 0..12 {
            for x in 0..8 {
                let mut edit = edit_of(text);
                edit.set_cursor_position(x, y, width);
                assert_eq!(string_of(&edit.text()), text);
            }
        }
    }
}

#[test]
fn cursor_round_trip_restores_the_split() {
    let text = "one two\nthree four five\n\nsix";
    let length = text.chars().count();
    for width in 0..9 {
        for offset in 0..=length {
            let mut edit = edit_of(text);
            for _ in offset..length {
                edit.move_left();
            }
            let before = parts(&edit);
            let (x, y) = edit.cursor_position(width);
            edit.set_cursor_position(x, y, width);
            assert_eq!(parts(&edit), before);
        }
    }
}

#[test]
fn move_down_keeps_the_column_across_wrapped_rows() {
    let mut edit = edit_of("abcdefghij");
    edit.set_cursor_position(1, 0, 4);
    edit.move_down(4);
    assert_eq!(edit.cursor_position(4), (1, 1));
    assert_eq!(parts(&edit), ("abcde".to_string(), Some('f'), "ghij".to_string()));
    edit.move_down(4);
    assert_eq!(edit.cursor_position(4), (1, 2));
}

#[test]
fn move_down_past_the_last_row_goes_to_the_end() {
    let mut edit = edit_of("abc\ndef");
    edit.set_cursor_position(1, 1, 10);
    edit.move_down(10);
    assert_eq!(parts(&edit), ("abc\ndef".to_string(), None, "".to_string()));
}

#[test]
fn move_up_keeps_the_column() {
    let mut edit = edit_of("abc\ndef");
    edit.move_left();
    edit.move_up(10);
    assert_eq!(parts(&edit), ("ab".to_string(), Some('c'), "\ndef".to_string()));
}

#[test]
fn move_up_on_the_first_row_goes_to_the_start() {
    let mut edit = edit_of("abc\ndef");
    edit.set_cursor_position(2, 0, 10);
    edit.move_up(10);
    assert_eq!(parts(&edit), ("".to_string(), Some('a'), "bc\ndef".to_string()));
}

#[test]
fn move_up_at_the_start_does_nothing() {
    let mut edit = edit_of("abc");
    edit.set_cursor_position(0, 0, 10);
    edit.move_up(10);
    assert_eq!(parts(&edit), ("".to_string(), Some('a'), "bc".to_string()));
}

#[test]
fn chars_and_strings_convert_both_ways() {
    assert_eq!(chars_of("aé日"), vec!['a', 'é', '日']);
    assert_eq!(string_of(&vec!['a', 'é', '日']), "aé日");
    assert_eq!(string_of(&chars_of("")), "");
}

#[test]
fn line_breaks_are_stripped() {
    assert_eq!(without_line_breaks(&chars_of("a\nb\n\nc")), chars_of("abc"));
    assert_eq!(without_line_breaks(&chars_of("abc")), chars_of("abc"));
    assert_eq!(without_line_breaks(&chars_of("\n")), chars_of(""));
}

#[test]
fn lines_are_split_at_line_breaks() {
    assert_eq!(split_lines(&chars_of("")), vec!["".to_string()]);
    assert_eq!(split_lines(&chars_of("ab")), vec!["ab".to_string()]);
    assert_eq!(
        split_lines(&chars_of("ab\ncd\n")),
        vec!["ab".to_string(), "cd".to_string(), "".to_string()]
    );
    assert_eq!(
        split_lines(&chars_of("\n\nx")),
        vec!["".to_string(), "".to_string(), "x".to_string()]
    );
}
