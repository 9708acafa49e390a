use vstd::prelude::*;

use crate::keys::Key;
use crate::text::{join_crlf, join_lines, parse_rows, rows_of_text, rows_view};

verus! {

/// The mathematical model of an editor: the text rows, the cursor, the first
/// visible row and the screen geometry.
pub struct EditorModel {
    pub lines: Seq<Seq<char>>,
    pub cursor_y: nat,
    pub cursor_x: nat,
    pub viewport_offset: nat,
    pub screen_rows: nat,
    pub screen_cols: nat,
    pub file_path: Option<Seq<char>>,
}

/// There is at least one row, the cursor stands on a row and at most one
/// column past its last character, and the screen shows at least one row.
pub open spec fn wf(m: EditorModel) -> bool {
    &&& m.lines.len() >= 1
    &&& m.cursor_y < m.lines.len()
    &&& m.cursor_x <= m.lines[m.cursor_y as int].len()
    &&& m.screen_rows >= 1
}

pub open spec fn row_len(m: EditorModel, y: nat) -> nat {
    m.lines[y as int].len()
}

pub open spec fn at(m: EditorModel, y: nat, x: nat) -> EditorModel {
    EditorModel { cursor_y: y, cursor_x: x, ..m }
}

pub open spec fn clamp(x: nat, len: nat) -> nat {
    if x > len {
        len
    } else {
        x
    }
}

/// One column left; from the first column of a row (after the step) to the
/// end of the row above.
pub open spec fn move_left(m: EditorModel) -> EditorModel {
    let x = if m.cursor_x > 0 {
        (m.cursor_x - 1) as nat
    } else {
        m.cursor_x
    };
    if x == 0 && m.cursor_y > 0 {
        let y = (m.cursor_y - 1) as nat;
        at(m, y, row_len(m, y))
    } else {
        at(m, m.cursor_y, x)
    }
}

/// One column right; from the end of a row (after the step) to the start of
/// the row below, when there is one.
pub open spec fn move_right(m: EditorModel) -> EditorModel {
    let len = row_len(m, m.cursor_y);
    let x = if m.cursor_x < len {
        m.cursor_x + 1
    } else {
        m.cursor_x
    };
    if x == len && m.cursor_y + 1 < m.lines.len() {
        at(m, m.cursor_y + 1, 0)
    } else {
        at(m, m.cursor_y, x)
    }
}

pub open spec fn move_up(m: EditorModel) -> EditorModel {
    if m.cursor_y > 0 {
        let y = (m.cursor_y - 1) as nat;
        at(m, y, clamp(m.cursor_x, row_len(m, y)))
    } else {
        m
    }
}

pub open spec fn move_down(m: EditorModel) -> EditorModel {
    if m.cursor_y + 1 < m.lines.len() {
        let y = m.cursor_y + 1;
        at(m, y, clamp(m.cursor_x, row_len(m, y)))
    } else {
        m
    }
}

/// `n` steps up, one at a time.
pub open spec fn move_up_n(m: EditorModel, n: nat) -> EditorModel
    decreases n,
{
    if n == 0 {
        m
    } else {
        move_up(move_up_n(m, (n - 1) as nat))
    }
}

/// `n` steps down, one at a time.
pub open spec fn move_down_n(m: EditorModel, n: nat) -> EditorModel
    decreases n,
{
    if n == 0 {
        m
    } else {
        move_down(move_down_n(m, (n - 1) as nat))
    }
}

pub open spec fn insert_char(m: EditorModel, c: char) -> EditorModel {
    let y = m.cursor_y as int;
    EditorModel {
        lines: m.lines.update(y, m.lines[y].insert(m.cursor_x as int, c)),
        cursor_x: m.cursor_x + 1,
        ..m
    }
}

/// An empty row right below the cursor's row, and the cursor at its start.
pub open spec fn new_row(m: EditorModel) -> EditorModel {
    EditorModel {
        lines: m.lines.insert(m.cursor_y + 1 as int, Seq::empty()),
        cursor_y: m.cursor_y + 1,
        cursor_x: 0,
        ..m
    }
}

/// Deletes the character before the cursor; at the start of a row below the
/// first, drops the whole row and moves to the end of the row above.
pub open spec fn backspace(m: EditorModel) -> EditorModel {
    let y = m.cursor_y as int;
    if m.cursor_x > 0 {
        EditorModel {
            lines: m.lines.update(y, m.lines[y].remove(m.cursor_x - 1)),
            cursor_x: (m.cursor_x - 1) as nat,
            ..m
        }
    } else if m.cursor_y > 0 {
        let up = (m.cursor_y - 1) as nat;
        EditorModel {
            lines: m.lines.remove(y),
            cursor_y: up,
            cursor_x: row_len(m, up),
            ..m
        }
    } else {
        m
    }
}

pub open spec fn clear_row(m: EditorModel) -> EditorModel {
    EditorModel {
        lines: m.lines.update(m.cursor_y as int, Seq::empty()),
        cursor_x: 0,
        ..m
    }
}

/// The state after the key `k`.
pub open spec fn step(m: EditorModel, k: Key) -> EditorModel {
    match k {
        Key::Left => move_left(m),
        Key::Right => move_right(m),
        Key::Up => move_up(m),
        Key::Down => move_down(m),
        Key::Home => at(m, m.cursor_y, 0),
        Key::End => at(m, m.cursor_y, row_len(m, m.cursor_y)),
        Key::PageUp => move_up_n(m, m.screen_rows),
        Key::PageDown => move_down_n(m, m.screen_rows),
        Key::Enter => new_row(m),
        Key::Backspace => backspace(m),
        Key::Printable(c) => insert_char(m, c),
        Key::CtrlU => clear_row(m),
        _ => m,
    }
}

/// The first visible row after the viewport is moved just enough to show the
/// cursor's row.
pub open spec fn scrolled_offset(m: EditorModel) -> nat {
    let o = if m.cursor_y < m.viewport_offset {
        m.cursor_y
    } else {
        m.viewport_offset
    };
    if m.cursor_y >= o + m.screen_rows {
        (m.cursor_y + 1 - m.screen_rows) as nat
    } else {
        o
    }
}

pub open spec fn scroll(m: EditorModel) -> EditorModel {
    EditorModel { viewport_offset: scrolled_offset(m), ..m }
}

/// The cursor's row is on the screen.
pub open spec fn cursor_visible(m: EditorModel) -> bool {
    m.viewport_offset <= m.cursor_y < m.viewport_offset + m.screen_rows
}

/// What the loop that drives the editor does after a key.
#[derive(PartialEq, Eq, Structural, Clone, Copy, Debug)]
pub enum Action {
    /// Render again and read the next key.
    Continue,
    /// Write the rows to the file of the buffer, then go on.
    Save,
    /// End the loop.
    Quit,
}

pub open spec fn action_of(k: Key) -> Action {
    match k {
        Key::CtrlQ => Action::Quit,
        Key::CtrlS => Action::Save,
        _ => Action::Continue,
    }
}

/// The state after the keys `keys`, one after the other.
pub open spec fn run(m: EditorModel, keys: Seq<Key>) -> EditorModel
    decreases keys.len(),
{
    if keys.len() == 0 {
        m
    } else {
        step(run(m, keys.drop_last()), keys.last())
    }
}

pub open spec fn is_horizontal(k: Key) -> bool {
    k == Key::Left || k == Key::Right
}

/// On a buffer of one row, Left and Right keep the cursor on that row and
/// within its columns, `0..=len`, after every key of any sequence of them, and
/// change no text.
pub proof fn lemma_left_right_stay_in_row(m: EditorModel, keys: Seq<Key>)
    requires
        wf(m),
        m.lines.len() == 1,
        forall|i: int| 0 <= i < keys.len() ==> is_horizontal(#[trigger] keys[i]),
    ensures
        forall|n: int|
            0 <= n <= keys.len() ==> {
                let r = #[trigger] run(m, keys.take(n));
                &&& r.lines == m.lines
                &&& r.cursor_y == 0
                &&& r.cursor_x <= m.lines[0].len()
            },
    decreases keys.len(),
{
    if keys.len() > 0 {
        let front = keys.drop_last();
        lemma_left_right_stay_in_row(m, front);
        assert forall|n: int| 0 <= n <= keys.len() implies {
            let r = #[trigger] run(m, keys.take(n));
            &&& r.lines == m.lines
            &&& r.cursor_y == 0
            &&& r.cursor_x <= m.lines[0].len()
        } by {
            if n < keys.len() {
                assert(keys.take(n) =~= front.take(n));
            } else {
                assert(keys.take(n) =~= keys);
                assert(front.take(front.len() as int) =~= front);
                let r0 = run(m, front.take(front.len() as int));
                assert(r0.lines == m.lines && r0.cursor_y == 0);
                assert(keys.take(n).drop_last() =~= front);
                assert(is_horizontal(keys[keys.len() - 1]));
            }
        }
    }
}

/// Right at the end of a row goes to the start of the next row, and does
/// nothing on the last row.
pub proof fn lemma_right_at_row_end(m: EditorModel)
    requires
        wf(m),
        m.cursor_x == row_len(m, m.cursor_y),
    ensures
        m.cursor_y + 1 < m.lines.len() ==> step(m, Key::Right) == at(m, m.cursor_y + 1, 0),
        m.cursor_y + 1 == m.lines.len() ==> step(m, Key::Right) == m,
{
}

/// Backspace at the very start of the buffer does nothing.
pub proof fn lemma_backspace_at_start(m: EditorModel)
    requires
        wf(m),
        m.cursor_y == 0,
        m.cursor_x == 0,
    ensures
        step(m, Key::Backspace) == m,
{
}

/// Ctrl-Q ends the loop and leaves the state as it was.
pub proof fn lemma_quit_keeps_state(m: EditorModel)
    ensures
        step(m, Key::CtrlQ) == m,
        action_of(Key::CtrlQ) == Action::Quit,
{
}

pub open spec fn path_view(p: Option<String>) -> Option<Seq<char>> {
    match p {
        Some(s) => Some(s@),
        None => None,
    }
}

/// The state of the editor: its rows of text, the cursor, the first visible
/// row, the screen geometry and the file the rows belong to.
pub struct Editor {
    lines: Vec<Vec<char>>,
    cursor_y: usize,
    cursor_x: usize,
    viewport_offset: usize,
    screen_rows: usize,
    screen_cols: usize,
    file_path: Option<String>,
}

impl View for Editor {
    type V = EditorModel;

    closed spec fn view(&self) -> EditorModel {
        EditorModel {
            lines: rows_view(self.lines@),
            cursor_y: self.cursor_y as nat,
            cursor_x: self.cursor_x as nat,
            viewport_offset: self.viewport_offset as nat,
            screen_rows: self.screen_rows as nat,
            screen_cols: self.screen_cols as nat,
            file_path: path_view(self.file_path),
        }
    }
}

impl Editor {
    /// An editor for a screen of the given size, with one empty row and no file.
    pub fn new(screen_rows: usize, screen_cols: usize) -> (e: Editor)
        requires
            screen_rows >= 1,
        ensures
            e@ == (EditorModel {
                lines: seq![Seq::<char>::empty()],
                cursor_y: 0,
                cursor_x: 0,
                viewport_offset: 0,
                screen_rows: screen_rows as nat,
                screen_cols: screen_cols as nat,
                file_path: None,
            }),
            wf(e@),
    {
        let mut lines: Vec<Vec<char>> = Vec::new();
        lines.push(Vec::new());
        let e = Editor {
            lines,
            cursor_y: 0,
            cursor_x: 0,
            viewport_offset: 0,
            screen_rows,
            screen_cols,
            file_path: None,
        };
        assert(e@.lines =~= seq![Seq::<char>::empty()]);
        e
    }

    fn cur_len(&self) -> (n: usize)
        requires
            wf(self@),
        ensures
            n == row_len(self@, self@.cursor_y),
    {
        self.lines[self.cursor_y].len()
    }

    fn move_up(&mut self)
        requires
            wf(old(self)@),
        ensures
            wf(final(self)@),
            final(self)@ == move_up(old(self)@),
    {
        if self.cursor_y > 0 {
            let len = self.lines[self.cursor_y - 1].len();
            if self.cursor_x > len {
                self.cursor_x = len;
            }
            self.cursor_y = self.cursor_y - 1;
        }
    }

    fn move_down(&mut self)
        requires
            wf(old(self)@),
        ensures
            wf(final(self)@),
            final(self)@ == move_down(old(self)@),
    {
        if self.cursor_y < self.lines.len() - 1 {
            let len = self.lines[self.cursor_y + 1].len();
            if self.cursor_x > len {
                self.cursor_x = len;
            }
            self.cursor_y = self.cursor_y + 1;
        }
    }

    fn move_left(&mut self)
        requires
            wf(old(self)@),
        ensures
            wf(final(self)@),
            final(self)@ == move_left(old(self)@),
    {
        if self.cursor_x > 0 {
            self.cursor_x = self.cursor_x - 1;
        }
        if self.cursor_x == 0 && self.cursor_y > 0 {
            self.cursor_y = self.cursor_y - 1;
            self.cursor_x = self.lines[self.cursor_y].len();
        }
    }

    fn move_right(&mut self)
        requires
            wf(old(self)@),
        ensures
            wf(final(self)@),
            final(self)@ == move_right(old(self)@),
    {
        let len = self.lines[self.cursor_y].len();
        if self.cursor_x < len {
            self.cursor_x = self.cursor_x + 1;
        }
        if self.cursor_x == len && self.cursor_y < self.lines.len() - 1 {
            self.cursor_x = 0;
            self.cursor_y = self.cursor_y + 1;
        }
    }

    fn page_up(&mut self)
        requires
            wf(old(self)@),
        ensures
            wf(final(self)@),
            final(self)@ == move_up_n(old(self)@, old(self)@.screen_rows),
    {
        let ghost m0 = self@;
        let n = self.screen_rows;
        let mut i: usize = 0;
        while i < n
            invariant
                i <= n,
                n == m0.screen_rows,
                self@ == move_up_n(m0, i as nat),
                wf(self@),
            decreases n - i,
        {
            self.move_up();
            i = i + 1;
        }
    }

    fn page_down(&mut self)
        requires
            wf(old(self)@),
        ensures
            wf(final(self)@),
            final(self)@ == move_down_n(old(self)@, old(self)@.screen_rows),
    {
        let ghost m0 = self@;
        let n = self.screen_rows;
        let mut i: usize = 0;
        while i < n
            invariant
                i <= n,
                n == m0.screen_rows,
                self@ == move_down_n(m0, i as nat),
                wf(self@),
            decreases n - i,
        {
            self.move_down();
            i = i + 1;
        }
    }

    fn insert_char(&mut self, c: char)
        requires
            wf(old(self)@),
        ensures
            wf(final(self)@),
            final(self)@ == insert_char(old(self)@, c),
    {
        let y = self.cursor_y;
        let x = self.cursor_x;
        self.lines[y].insert(x, c);
        let ghost len = self.lines[y as int].len();
        assert(x + 1 <= len);
        self.cursor_x = x + 1;
        assert(self@.lines =~= insert_char(old(self)@, c).lines);
    }

    fn new_row(&mut self)
        requires
            wf(old(self)@),
        ensures
            wf(final(self)@),
            final(self)@ == new_row(old(self)@),
    {
        let y = self.cursor_y;
        let n = self.lines.len();
        assert(y < n);
        self.lines.insert(y + 1, Vec::new());
        self.cursor_x = 0;
        self.cursor_y = y + 1;
        assert(self@.lines =~= new_row(old(self)@).lines);
    }

    fn backspace(&mut self)
        requires
            wf(old(self)@),
        ensures
            wf(final(self)@),
            final(self)@ == backspace(old(self)@),
    {
        let y = self.cursor_y;
        let x = self.cursor_x;
        if x > 0 {
            self.cursor_x = x - 1;
            let _ = self.lines[y].remove(x - 1);
            assert(self@.lines =~= backspace(old(self)@).lines);
        } else if y > 0 {
            self.cursor_y = y - 1;
            let _ = self.lines.remove(y);
            self.cursor_x = self.lines[y - 1].len();
            assert(self@.lines =~= backspace(old(self)@).lines);
        }
    }

    fn clear_row(&mut self)
        requires
            wf(old(self)@),
        ensures
            wf(final(self)@),
            final(self)@ == clear_row(old(self)@),
    {
        let y = self.cursor_y;
        self.cursor_x = 0;
        self.lines[y] = Vec::new();
        assert(self@.lines =~= clear_row(old(self)@).lines);
    }

    /// Applies one key to the editor and says what the driving loop does
    /// next. Keys that no command is bound to leave the editor as it is.
    pub fn apply(&mut self, key: Key) -> (a: Action)
        requires
            wf(old(self)@),
        ensures
            final(self)@ == step(old(self)@, key),
            a == action_of(key),
            wf(final(self)@),
    {
        let a = match key {
            Key::Up | Key::Down | Key::Left | Key::Right => {
                self.move_cursor(key);
                Action::Continue
            },
            Key::Home => {
                self.cursor_x = 0;
                Action::Continue
            },
            Key::End => {
                self.cursor_x = self.cur_len();
                Action::Continue
            },
            Key::PageUp => {
                self.page_up();
                Action::Continue
            },
            Key::PageDown => {
                self.page_down();
                Action::Continue
            },
            Key::Enter => {
                self.new_row();
                Action::Continue
            },
            Key::Backspace => {
                self.backspace();
                Action::Continue
            },
            Key::Printable(c) => {
                self.insert_char(c);
                Action::Continue
            },
            Key::CtrlU => {
                self.clear_row();
                Action::Continue
            },
            Key::CtrlQ => Action::Quit,
            Key::CtrlS => Action::Save,
            _ => Action::Continue,
        };
        a
    }

    /// Replaces the rows with those of the text of the file at `path`, puts
    /// the cursor and the viewport at the top and remembers the path.
    pub fn load(&mut self, text: &Vec<char>, path: String)
        requires
            wf(old(self)@),
        ensures
            final(self)@ == (EditorModel {
                lines: rows_of_text(text@),
                cursor_y: 0,
                cursor_x: 0,
                viewport_offset: 0,
                file_path: Some(path@),
                ..old(self)@
            }),
            wf(final(self)@),
    {
        let rows = parse_rows(text);
        assert(rows_view(rows@).len() == rows@.len());
        assert(rows_of_text(text@).len() >= 1);
        self.lines = rows;
        self.cursor_y = 0;
        self.cursor_x = 0;
        self.viewport_offset = 0;
        self.file_path = Some(path);
    }

    /// The text that saving writes: the rows joined by CRLF.
    pub fn contents(&self) -> (t: Vec<char>)
        ensures
            t@ == join_crlf(self@.lines),
    {
        join_lines(&self.lines)
    }

    /// Moves the viewport so that the cursor's row is visible, changing
    /// nothing else.
    pub fn scroll(&mut self)
        requires
            wf(old(self)@),
        ensures
            final(self)@ == scroll(old(self)@),
            wf(final(self)@),
            cursor_visible(final(self)@),
    {
        if self.cursor_y < self.viewport_offset {
            self.viewport_offset = self.cursor_y;
        }
        if self.cursor_y - self.viewport_offset >= self.screen_rows {
            self.viewport_offset = self.cursor_y - self.screen_rows + 1;
        }
    }

    pub fn line_count(&self) -> (n: usize)
        ensures
            n == self@.lines.len(),
    {
        self.lines.len()
    }

    pub fn row(&self, i: usize) -> (r: &Vec<char>)
        requires
            i < self@.lines.len(),
        ensures
            r@ == self@.lines[i as int],
    {
        &self.lines[i]
    }

    pub fn cursor_x(&self) -> (x: usize)
        ensures
            x == self@.cursor_x,
    {
        self.cursor_x
    }

    pub fn cursor_y(&self) -> (y: usize)
        ensures
            y == self@.cursor_y,
    {
        self.cursor_y
    }

    pub fn viewport_offset(&self) -> (o: usize)
        ensures
            o == self@.viewport_offset,
    {
        self.viewport_offset
    }

    pub fn screen_rows(&self) -> (r: usize)
        ensures
            r == self@.screen_rows,
    {
        self.screen_rows
    }

    pub fn screen_cols(&self) -> (c: usize)
        ensures
            c == self@.screen_cols,
    {
        self.screen_cols
    }

    pub fn file_path(&self) -> (p: &Option<String>)
        ensures
            path_view(*p) == self@.file_path,
    {
        &self.file_path
    }

    /// Moves the cursor one step in the direction of an arrow key.
    fn move_cursor(&mut self, key: Key)
        requires
            wf(old(self)@),
            key == Key::Up || key == Key::Down || key == Key::Left || key == Key::Right,
        ensures
            final(self)@ == step(old(self)@, key),
            wf(final(self)@),
    {
        match key {
            Key::Up => self.move_up(),
            Key::Down => self.move_down(),
            Key::Left => self.move_left(),
            _ => self.move_right(),
        }
    }
}

} // verus!
