//! The text edit engine: a buffer split at the caret, and the mapping
//! between the caret's offset in the buffer and its column and row on a
//! screen that wraps lines at a given width.

use vstd::prelude::*;

verus! {

/// Where the caret stands after one more character `c`, on a screen
/// `wrap_width` columns wide: a line break starts the next row; any other
/// character takes one column, and a row that has reached the width wraps
/// into the next.
pub open spec fn advance(pos: (nat, nat), c: char, wrap_width: nat) -> (nat, nat) {
    if c == '\n' {
        (0nat, pos.1 + 1)
    } else if pos.0 + 1 >= wrap_width {
        ((pos.0 + 1 - wrap_width) as nat, pos.1 + 1)
    } else {
        (pos.0 + 1, pos.1)
    }
}

/// The column and row of a caret that stands right after the text `s`.
pub open spec fn position(s: Seq<char>, wrap_width: nat) -> (nat, nat)
    decreases s.len(),
{
    if s.len() == 0 {
        (0nat, 0nat)
    } else {
        advance(position(s.drop_last(), wrap_width), s.last(), wrap_width)
    }
}

/// Whether a caret looking for column `x` on row `y` comes to rest on the
/// character at index `i` of `text`: the caret before that character is on
/// row `y`, and it is at or past column `x`, or the character ends the row.
pub open spec fn stops_at(text: Seq<char>, i: int, x: nat, y: nat, wrap_width: nat) -> bool {
    let pos = position(text.take(i), wrap_width);
    pos.1 == y && (pos.0 >= x || text[i] == '\n')
}

/// Whether `i` is the first index of `text` at which the caret comes to
/// rest, or the end of the text if there is none.
pub open spec fn is_target(text: Seq<char>, i: int, x: nat, y: nat, wrap_width: nat) -> bool {
    &&& 0 <= i <= text.len()
    &&& i < text.len() ==> stops_at(text, i, x, y, wrap_width)
    &&& forall|j: int| 0 <= j < i ==> !stops_at(text, j, x, y, wrap_width)
}

/// The offset at which a caret sent to column `x` of row `y` is placed.
pub open spec fn target_index(text: Seq<char>, x: nat, y: nat, wrap_width: nat) -> int {
    choose|i: int| is_target(text, i, x, y, wrap_width)
}

/// An edit buffer split at the caret. `prefix` is the text before the
/// caret; `tail` is the text from the caret on, so its first character is the
/// one the caret sits on. An empty `tail` means the caret is at the end of the
/// buffer, where it sits on no character.
pub struct TextEdit {
    pub prefix: Vec<char>,
    pub tail: Vec<char>,
}

/// The mathematical value of a `TextEdit`.
pub struct TextEditView {
    pub prefix: Seq<char>,
    pub tail: Seq<char>,
}

impl View for TextEdit {
    type V = TextEditView;

    open spec fn view(&self) -> TextEditView {
        TextEditView { prefix: self.prefix@, tail: self.tail@ }
    }
}

impl TextEditView {
    /// The whole buffer.
    pub open spec fn text(self) -> Seq<char> {
        self.prefix + self.tail
    }

    /// The character the caret sits on, if it is not at the end.
    pub open spec fn caret_char(self) -> Option<char> {
        if self.tail.len() > 0 {
            Some(self.tail[0])
        } else {
            None
        }
    }

    /// The text after the character the caret sits on.
    pub open spec fn suffix(self) -> Seq<char> {
        if self.tail.len() > 0 {
            self.tail.drop_first()
        } else {
            Seq::empty()
        }
    }

    /// A buffer that holds `value`, the caret at its end.
    pub open spec fn enter(value: Seq<char>) -> TextEditView {
        TextEditView { prefix: value, tail: Seq::empty() }
    }

    /// The buffer after `c` is typed before the caret.
    pub open spec fn insert(self, c: char) -> TextEditView {
        TextEditView { prefix: self.prefix.push(c), ..self }
    }

    /// The buffer after the character before the caret is deleted.
    pub open spec fn backspace(self) -> TextEditView {
        if self.prefix.len() > 0 {
            TextEditView { prefix: self.prefix.drop_last(), ..self }
        } else {
            self
        }
    }

    /// The buffer after the caret moves one character towards the start.
    pub open spec fn move_left(self) -> TextEditView {
        if self.prefix.len() > 0 {
            TextEditView {
                prefix: self.prefix.drop_last(),
                tail: seq![self.prefix.last()] + self.tail,
            }
        } else {
            self
        }
    }

    /// The buffer after the caret moves one character towards the end.
    pub open spec fn move_right(self) -> TextEditView {
        if self.tail.len() > 0 {
            TextEditView { prefix: self.prefix.push(self.tail[0]), tail: self.tail.drop_first() }
        } else {
            self
        }
    }

    /// The caret's column and row.
    pub open spec fn cursor_position(self, wrap_width: nat) -> (nat, nat) {
        position(self.prefix, wrap_width)
    }

    /// The buffer with the caret sent to column `x` of row `y`.
    pub open spec fn set_cursor(self, x: nat, y: nat, wrap_width: nat) -> TextEditView {
        let i = target_index(self.text(), x, y, wrap_width);
        TextEditView { prefix: self.text().take(i), tail: self.text().skip(i) }
    }

    /// The buffer after the caret moves one row up, keeping its column. On
    /// the first row the caret goes to the start of the buffer.
    pub open spec fn move_up(self, wrap_width: nat) -> TextEditView {
        let pos = self.cursor_position(wrap_width);
        if self.prefix.len() == 0 {
            self
        } else if pos.1 > 0 {
            self.set_cursor(pos.0, (pos.1 - 1) as nat, wrap_width)
        } else {
            self.set_cursor(0, 0, wrap_width)
        }
    }

    /// The buffer after the caret moves one row down, keeping its column.
    /// Below the last row the caret goes to the end of the buffer.
    pub open spec fn move_down(self, wrap_width: nat) -> TextEditView {
        let pos = self.cursor_position(wrap_width);
        self.set_cursor(pos.0, pos.1 + 1, wrap_width)
    }
}

/// Neither the column nor the row of a caret exceeds the number of
/// characters before it, and on a screen at least one column wide the
/// column stays below the width.
pub proof fn lemma_position_bounds(s: Seq<char>, wrap_width: nat)
    ensures
        position(s, wrap_width).0 <= s.len(),
        position(s, wrap_width).1 <= s.len(),
        wrap_width > 0 ==> position(s, wrap_width).0 < wrap_width,
    decreases s.len(),
{
    if s.len() > 0 {
        lemma_position_bounds(s.drop_last(), wrap_width);
    }
}

/// The position after `i + 1` characters is one step from the position
/// after `i`.
pub proof fn lemma_position_step(text: Seq<char>, i: int, wrap_width: nat)
    requires
        0 <= i < text.len(),
    ensures
        position(text.take(i + 1), wrap_width) == advance(
            position(text.take(i), wrap_width),
            text[i],
            wrap_width,
        ),
{
    assert(text.take(i + 1).drop_last() =~= text.take(i));
    assert(text.take(i + 1).last() == text[i]);
}

/// Along a text the caret only moves forward: a later offset is on the same
/// row or a later one, and where two offsets share a row, the columns
/// between them count the characters and no line break lies between.
pub proof fn lemma_position_monotonic(text: Seq<char>, i: int, j: int, wrap_width: nat)
    requires
        0 <= i <= j <= text.len(),
    ensures
        position(text.take(i), wrap_width).1 <= position(text.take(j), wrap_width).1,
        position(text.take(i), wrap_width).1 == position(text.take(j), wrap_width).1 ==> {
            &&& position(text.take(j), wrap_width).0 == position(text.take(i), wrap_width).0 + (j
                - i)
            &&& forall|k: int| i <= k < j ==> text[k] != '\n'
        },
    decreases j - i,
{
    if i < j {
        lemma_position_monotonic(text, i, j - 1, wrap_width);
        lemma_position_step(text, j - 1, wrap_width);
    }
}

/// There is exactly one offset that `is_target` accepts, and `target_index`
/// names it.
pub proof fn lemma_target_unique(text: Seq<char>, i: int, x: nat, y: nat, wrap_width: nat)
    requires
        is_target(text, i, x, y, wrap_width),
    ensures
        target_index(text, x, y, wrap_width) == i,
{
    let k = target_index(text, x, y, wrap_width);
    assert(is_target(text, k, x, y, wrap_width));
    if k < i {
        assert(stops_at(text, k, x, y, wrap_width));
    } else if i < k {
        assert(stops_at(text, i, x, y, wrap_width));
    }
}

/// A target offset always exists and lies within the text.
pub proof fn lemma_target_exists(text: Seq<char>, x: nat, y: nat, wrap_width: nat)
    ensures
        is_target(text, target_index(text, x, y, wrap_width), x, y, wrap_width),
        0 <= target_index(text, x, y, wrap_width) <= text.len(),
{
    lemma_target_search(text, 0, x, y, wrap_width);
}

proof fn lemma_target_search(text: Seq<char>, from: int, x: nat, y: nat, wrap_width: nat)
    requires
        0 <= from <= text.len(),
        forall|j: int| 0 <= j < from ==> !stops_at(text, j, x, y, wrap_width),
    ensures
        is_target(text, target_index(text, x, y, wrap_width), x, y, wrap_width),
    decreases text.len() - from,
{
    if from == text.len() || stops_at(text, from, x, y, wrap_width) {
        assert(is_target(text, from, x, y, wrap_width));
    } else {
        lemma_target_search(text, from + 1, x, y, wrap_width);
    }
}

/// A caret sent to the place where it already stands stays there: the
/// offset found for the caret's own column and row is the caret's offset.
pub proof fn lemma_target_of_own_position(text: Seq<char>, n: int, wrap_width: nat)
    requires
        0 <= n <= text.len(),
    ensures
        target_index(
            text,
            position(text.take(n), wrap_width).0,
            position(text.take(n), wrap_width).1,
            wrap_width,
        ) == n,
{
    let pos = position(text.take(n), wrap_width);
    assert forall|j: int| 0 <= j < n implies !stops_at(text, j, pos.0, pos.1, wrap_width) by {
        lemma_position_monotonic(text, j, n, wrap_width);
        lemma_position_monotonic(text, j, j + 1, wrap_width);
        lemma_position_monotonic(text, j + 1, n, wrap_width);
        lemma_position_step(text, j, wrap_width);
    }
    assert(is_target(text, n, pos.0, pos.1, wrap_width));
    lemma_target_unique(text, n, pos.0, pos.1, wrap_width);
}

/// A caret sent to a row below the last one goes to the end of the text.
pub proof fn lemma_target_below_text(text: Seq<char>, x: nat, y: nat, wrap_width: nat)
    requires
        y > text.len(),
    ensures
        target_index(text, x, y, wrap_width) == text.len(),
{
    assert forall|j: int| 0 <= j < text.len() implies !stops_at(text, j, x, y, wrap_width) by {
        lemma_position_bounds(text.take(j), wrap_width);
    }
    assert(is_target(text, text.len() as int, x, y, wrap_width));
    lemma_target_unique(text, text.len() as int, x, y, wrap_width);
}

impl TextEdit {
    /// An empty buffer.
    pub fn new() -> (edit: TextEdit)
        ensures
            edit@ == TextEditView::enter(Seq::empty()),
    {
        TextEdit { prefix: Vec::new(), tail: Vec::new() }
    }

    /// A buffer loaded with `value`, the caret at its end.
    pub fn enter(value: Vec<char>) -> (edit: TextEdit)
        ensures
            edit@ == TextEditView::enter(value@),
    {
        TextEdit { prefix: value, tail: Vec::new() }
    }

    /// The number of characters before the caret.
    pub fn cursor_offset(&self) -> (n: usize)
        ensures
            n == self@.prefix.len(),
    {
        self.prefix.len()
    }

    /// The character the caret sits on; `None` at the end of the buffer.
    pub fn caret_char(&self) -> (c: Option<char>)
        ensures
            c == self@.caret_char(),
    {
        if self.tail.len() > 0 {
            Some(self.tail[0])
        } else {
            None
        }
    }

    /// Types `c` before the caret.
    pub fn insert(&mut self, c: char)
        ensures
            final(self)@ == old(self)@.insert(c),
    {
        self.prefix.push(c);
    }

    /// Deletes the character before the caret, if there is one.
    pub fn backspace(&mut self)
        ensures
            final(self)@ == old(self)@.backspace(),
    {
        let _ = self.prefix.pop();
    }

    /// Moves the caret one character towards the start, if it is not there.
    pub fn move_left(&mut self) -> (moved: bool)
        ensures
            final(self)@ == old(self)@.move_left(),
            moved == (old(self)@.prefix.len() > 0),
    {
        match self.prefix.pop() {
            Some(c) => {
                self.tail.insert(0, c);
                assert(self.tail@ =~= seq![c] + old(self).tail@);
                true
            },
            None => false,
        }
    }

    /// Moves the caret one character towards the end, if it is not there.
    pub fn move_right(&mut self) -> (moved: bool)
        ensures
            final(self)@ == old(self)@.move_right(),
            moved == (old(self)@.tail.len() > 0),
    {
        if self.tail.len() > 0 {
            let c = self.tail.remove(0);
            self.prefix.push(c);
            assert(self.tail@ =~= old(self).tail@.drop_first());
            true
        } else {
            false
        }
    }

    /// The caret's column and row on a screen `wrap_width` columns wide.
    pub fn cursor_position(&self, wrap_width: usize) -> (pos: (usize, usize))
        ensures
            (pos.0 as nat, pos.1 as nat) == self@.cursor_position(wrap_width as nat),
    {
        let mut i: usize = 0;
        let mut x: usize = 0;
        let mut y: usize = 0;
        let n = self.prefix.len();
        while i < n
            invariant
                n == self.prefix.len(),
                i <= n,
                (x as nat, y as nat) == position(self.prefix@.take(i as int), wrap_width as nat),
                x <= i,
                y <= i,
            decreases n - i,
        {
            proof {
                lemma_position_step(self.prefix@, i as int, wrap_width as nat);
                lemma_position_bounds(self.prefix@.take(i + 1), wrap_width as nat);
            }
            if self.prefix[i] == '\n' {
                x = 0;
                y += 1;
            } else if x + 1 >= wrap_width {
                x = x + 1 - wrap_width;
                y += 1;
            } else {
                x += 1;
            }
            i += 1;
        }
        assert(self.prefix@.take(n as int) =~= self.prefix@);
        (x, y)
    }

    /// Sends the caret to column `x` of row `y`: to the first character of
    /// that row at or past the column, or to the row's line break if the row
    /// is shorter, or to the end of the buffer if there is no such row. The
    /// text itself does not change.
    pub fn set_cursor_position(&mut self, x: usize, y: usize, wrap_width: usize)
        ensures
            final(self)@ == old(self)@.set_cursor(x as nat, y as nat, wrap_width as nat),
            final(self)@.text() == old(self)@.text(),
    {
        let ghost text = self@.text();
        self.prefix.append(&mut self.tail);
        let n = self.prefix.len();
        let mut i: usize = 0;
        let mut cx: usize = 0;
        let mut cy: usize = 0;
        let mut found = false;
        while i < n && !found
            invariant
                self.prefix@ == text,
                self.tail@ == Seq::<char>::empty(),
                n == text.len(),
                i <= n,
                (cx as nat, cy as nat) == position(text.take(i as int), wrap_width as nat),
                cx <= i,
                cy <= i,
                forall|j: int|
                    0 <= j < i ==> !stops_at(text, j, x as nat, y as nat, wrap_width as nat),
                found ==> i < n && stops_at(text, i as int, x as nat, y as nat, wrap_width as nat),
            decreases n - i, if found { 0int } else { 1int },
        {
            let c = self.prefix[i];
            if cy == y && (cx >= x || c == '\n') {
                found = true;
            } else {
                proof {
                    lemma_position_step(text, i as int, wrap_width as nat);
                    lemma_position_bounds(text.take(i + 1), wrap_width as nat);
                }
                if c == '\n' {
                    cx = 0;
                    cy += 1;
                } else if cx + 1 >= wrap_width {
                    cx = cx + 1 - wrap_width;
                    cy += 1;
                } else {
                    cx += 1;
                }
                i += 1;
            }
        }
        self.tail = self.prefix.split_off(i);
        proof {
            assert(is_target(text, i as int, x as nat, y as nat, wrap_width as nat));
            lemma_target_unique(text, i as int, x as nat, y as nat, wrap_width as nat);
            assert(self.prefix@ =~= text.take(i as int));
            assert(self.tail@ =~= text.skip(i as int));
            assert(self@.text() =~= text);
        }
    }

    /// Moves the caret one row up, keeping its column; from the first row
    /// it goes to the start of the buffer.
    pub fn move_up(&mut self, wrap_width: usize)
        ensures
            final(self)@ == old(self)@.move_up(wrap_width as nat),
            final(self)@.text() == old(self)@.text(),
    {
        if self.prefix.len() > 0 {
            let (x, y) = self.cursor_position(wrap_width);
            if y > 0 {
                self.set_cursor_position(x, y - 1, wrap_width);
            } else {
                self.set_cursor_position(0, 0, wrap_width);
            }
        }
    }

    /// Moves the caret one row down, keeping its column; from the last row
    /// it goes to the end of the buffer.
    pub fn move_down(&mut self, wrap_width: usize)
        ensures
            final(self)@ == old(self)@.move_down(wrap_width as nat),
            final(self)@.text() == old(self)@.text(),
    {
        let (x, y) = self.cursor_position(wrap_width);
        if y < usize::MAX {
            self.set_cursor_position(x, y + 1, wrap_width);
        } else {
            let ghost text = self@.text();
            self.prefix.append(&mut self.tail);
            let n = self.prefix.len();
            proof {
                assert(n == text.len());
                lemma_target_below_text(text, x as nat, y as nat + 1, wrap_width as nat);
                assert(self.prefix@ =~= text.take(text.len() as int));
                assert(self.tail@ =~= text.skip(text.len() as int));
                assert(self@.text() =~= text);
            }
        }
    }

    /// The whole buffer as one sequence of characters.
    pub fn text(&self) -> (chars: Vec<char>)
        ensures
            chars@ == self@.text(),
    {
        let mut chars: Vec<char> = Vec::new();
        let mut i: usize = 0;
        while i < self.prefix.len()
            invariant
                i <= self.prefix.len(),
                chars@ == self.prefix@.take(i as int),
            decreases self.prefix.len() - i,
        {
            chars.push(self.prefix[i]);
            i += 1;
            assert(self.prefix@.take(i as int) =~= self.prefix@.take(i - 1).push(
                self.prefix@[i - 1],
            ));
        }
        assert(self.prefix@.take(self.prefix.len() as int) =~= self.prefix@);
        let mut k: usize = 0;
        while k < self.tail.len()
            invariant
                k <= self.tail.len(),
                chars@ == self.prefix@ + self.tail@.take(k as int),
            decreases self.tail.len() - k,
        {
            chars.push(self.tail[k]);
            k += 1;
            assert(self.prefix@ + self.tail@.take(k as int) =~= (self.prefix@ + self.tail@.take(
                k - 1,
            )).push(self.tail@[k - 1]));
        }
        assert(self.tail@.take(self.tail.len() as int) =~= self.tail@);
        chars
    }
}

/// Typing, deleting and moving the caret by one character never change the
/// text other than by the character typed or deleted.
pub proof fn lemma_edit_text(edit: TextEditView, c: char)
    ensures
        edit.insert(c).text() == edit.prefix.push(c) + edit.tail,
        edit.move_left().text() == edit.text(),
        edit.move_right().text() == edit.text(),
        edit.backspace().text() == if edit.prefix.len() > 0 {
            edit.prefix.drop_last() + edit.tail
        } else {
            edit.text()
        },
{
    assert(edit.move_left().text() =~= edit.text());
    assert(edit.move_right().text() =~= edit.text());
}

/// Typing a character and deleting it at once restores the buffer.
pub proof fn lemma_insert_then_backspace(edit: TextEditView, c: char)
    ensures
        edit.insert(c).backspace() == edit,
{
    assert(edit.prefix.push(c).drop_last() =~= edit.prefix);
}

/// Moving left and then right, or right and then left, restores the buffer
/// wherever the first move was possible.
pub proof fn lemma_moves_invert(edit: TextEditView)
    ensures
        edit.prefix.len() > 0 ==> edit.move_left().move_right() == edit,
        edit.tail.len() > 0 ==> edit.move_right().move_left() == edit,
{
    if edit.prefix.len() > 0 {
        let l = edit.move_left();
        assert(l.tail.drop_first() =~= edit.tail);
        assert(l.prefix.push(l.tail[0]) =~= edit.prefix);
    }
    if edit.tail.len() > 0 {
        let r = edit.move_right();
        assert(r.prefix.drop_last() =~= edit.prefix);
        assert(seq![r.prefix.last()] + r.tail =~= edit.tail);
    }
}

/// A text cut in two at any offset is the two pieces put together.
pub proof fn lemma_cut_and_join(text: Seq<char>, i: int)
    requires
        0 <= i <= text.len(),
    ensures
        text.take(i) + text.skip(i) == text,
{
    assert(text.take(i) + text.skip(i) =~= text);
}

/// Sending the caret anywhere keeps the text: only the split moves.
pub proof fn lemma_set_cursor_keeps_text(edit: TextEditView, x: nat, y: nat, wrap_width: nat)
    ensures
        edit.set_cursor(x, y, wrap_width).text() == edit.text(),
{
    lemma_target_exists(edit.text(), x, y, wrap_width);
    lemma_cut_and_join(edit.text(), target_index(edit.text(), x, y, wrap_width));
}

/// Moving the caret a row up or down keeps the text.
pub proof fn lemma_row_moves_keep_text(edit: TextEditView, wrap_width: nat)
    ensures
        edit.move_up(wrap_width).text() == edit.text(),
        edit.move_down(wrap_width).text() == edit.text(),
{
    let pos = edit.cursor_position(wrap_width);
    lemma_set_cursor_keeps_text(edit, pos.0, pos.1 + 1, wrap_width);
    lemma_set_cursor_keeps_text(edit, 0, 0, wrap_width);
    if pos.1 > 0 {
        lemma_set_cursor_keeps_text(edit, pos.0, (pos.1 - 1) as nat, wrap_width);
    }
}

/// Reading the caret's column and row and sending the caret back to them,
/// at the same width, restores the very same split of the buffer.
pub proof fn lemma_cursor_round_trip(edit: TextEditView, wrap_width: nat)
    ensures
        edit.set_cursor(
            edit.cursor_position(wrap_width).0,
            edit.cursor_position(wrap_width).1,
            wrap_width,
        ) == edit,
{
    let text = edit.text();
    let n = edit.prefix.len() as int;
    assert(text.take(n) =~= edit.prefix);
    assert(text.skip(n) =~= edit.tail);
    lemma_target_of_own_position(text, n, wrap_width);
}

/// After the caret is sent to a column and row, it stands on that row at or
/// past that column, unless it went to a line break or to the end of the
/// buffer.
pub proof fn lemma_set_cursor_lands(edit: TextEditView, x: nat, y: nat, wrap_width: nat)
    ensures
        ({
            let moved = edit.set_cursor(x, y, wrap_width);
            let pos = moved.cursor_position(wrap_width);
            moved.tail.len() == 0 || (pos.1 == y && (pos.0 >= x || moved.tail[0] == '\n'))
        }),
{
    lemma_target_exists(edit.text(), x, y, wrap_width);
}

} // verus!
