use vstd::prelude::*;
use vstd::string::StrSliceExecFns;

use crate::editor::{cursor_visible, scroll, wf, Editor, EditorModel};

verus! {

pub const HIDE_CURSOR: &'static str = "\x1b[?25l";

pub const CURSOR_HOME: &'static str = "\x1b[H";

pub const CLEAR_LINE: &'static str = "\x1b[K";

pub const NEWLINE: &'static str = "\r\n";

pub const SHOW_CURSOR: &'static str = "\x1b[?25h";

/// The welcome line, whose length alone sets the banner's first pad.
pub const WELCOME: &'static str = "Rust Wrd -- Version ";

pub const VERSION: &'static str = "0.0.1";

pub const CREDIT: &'static str = "by Issa Aboudi 2023";

/// Marks a screen row below the end of the text.
pub const FILLER: char = '.';

/// How many columns further right than the centre the credit line starts.
pub const CREDIT_SHIFT: usize = 3;

/// How far below the first third of the screen the banner stands.
pub const BANNER_SHIFT: usize = 10;

pub open spec fn spaces(n: nat) -> Seq<char> {
    Seq::new(n, |i: int| ' ')
}

/// Half of `d`, rounded toward zero.
pub open spec fn half_toward_zero(d: int) -> int {
    if d >= 0 {
        d / 2
    } else {
        -((-d) / 2)
    }
}

/// A filler mark and `n` spaces when `n` is positive; nothing otherwise.
pub open spec fn padding(n: int) -> Seq<char> {
    if n > 0 {
        seq![FILLER] + spaces(n as nat)
    } else {
        Seq::empty()
    }
}

/// The pad before a banner line on a row of `cols` columns, for a text of
/// width `w`, shifted `shift` columns right of the centre.
pub open spec fn banner_pad(cols: nat, w: nat, shift: nat) -> Seq<char> {
    padding(half_toward_zero(cols - w) + shift)
}

/// The two lines of the welcome banner: the name and version, then the
/// credit, each behind its pad.
pub open spec fn banner(cols: nat) -> Seq<char> {
    banner_pad(cols, WELCOME@.len(), 0) + WELCOME@ + VERSION@ + NEWLINE@ + banner_pad(
        cols,
        CREDIT@.len(),
        CREDIT_SHIFT as nat,
    ) + CREDIT@
}

/// The buffer is the single empty row that a new editor starts with.
pub open spec fn is_blank(m: EditorModel) -> bool {
    m.lines.len() == 1 && m.lines[0].len() == 0
}

pub open spec fn banner_row(m: EditorModel) -> nat {
    m.screen_rows / 3 + BANNER_SHIFT as nat
}

/// What screen row `i` shows: a row of the text, the banner, or the filler.
pub open spec fn row_body(m: EditorModel, i: nat) -> Seq<char> {
    let f = i + m.viewport_offset;
    if f < m.lines.len() {
        m.lines[f as int]
    } else if is_blank(m) && i == banner_row(m) {
        banner(m.screen_cols)
    } else {
        seq![FILLER]
    }
}

/// Screen row `i`, cleared to its end, with a line break unless it is the last.
pub open spec fn row_text(m: EditorModel, i: nat) -> Seq<char> {
    row_body(m, i) + CLEAR_LINE@ + if i + 1 < m.screen_rows {
        NEWLINE@
    } else {
        Seq::empty()
    }
}

/// The first `n` screen rows.
pub open spec fn rows_text(m: EditorModel, n: nat) -> Seq<char>
    decreases n,
{
    if n == 0 {
        Seq::empty()
    } else {
        rows_text(m, (n - 1) as nat) + row_text(m, (n - 1) as nat)
    }
}

pub open spec fn digit(d: nat) -> char {
    seq!['0', '1', '2', '3', '4', '5', '6', '7', '8', '9'][d as int]
}

/// The decimal digits of `n`, without leading zeros.
pub open spec fn decimal(n: nat) -> Seq<char>
    decreases n,
{
    if n < 10 {
        seq![digit(n)]
    } else {
        decimal(n / 10).push(digit(n % 10))
    }
}

/// Moves the terminal's cursor to a 1-based row and column.
pub open spec fn cursor_to(row: nat, col: nat) -> Seq<char> {
    seq!['\x1b', '['] + decimal(row) + seq![';'] + decimal(col) + seq!['H']
}

/// The whole frame for the state `m`, whose viewport shows the cursor.
pub open spec fn frame(m: EditorModel) -> Seq<char> {
    HIDE_CURSOR@ + CURSOR_HOME@ + rows_text(m, m.screen_rows) + cursor_to(
        (m.cursor_y - m.viewport_offset + 1) as nat,
        m.cursor_x + 1,
    ) + SHOW_CURSOR@
}

fn push_str(out: &mut Vec<char>, s: &str)
    ensures
        final(out)@ == old(out)@ + s@,
{
    let ghost start = out@;
    let n = s.unicode_len();
    let mut i: usize = 0;
    while i < n
        invariant
            n == s@.len(),
            i <= n,
            out@ == start + s@.subrange(0, i as int),
        decreases n - i,
    {
        out.push(s.get_char(i));
        i = i + 1;
        assert(out@ =~= start + s@.subrange(0, i as int));
    }
    assert(s@.subrange(0, n as int) =~= s@);
}

pub(crate) fn push_chars(out: &mut Vec<char>, s: &Vec<char>)
    ensures
        final(out)@ == old(out)@ + s@,
{
    let ghost start = out@;
    let mut i: usize = 0;
    while i < s.len()
        invariant
            i <= s@.len(),
            out@ == start + s@.subrange(0, i as int),
        decreases s@.len() - i,
    {
        out.push(s[i]);
        i = i + 1;
        assert(out@ =~= start + s@.subrange(0, i as int));
    }
    assert(s@.subrange(0, s@.len() as int) =~= s@);
}

fn push_spaces(out: &mut Vec<char>, n: usize)
    ensures
        final(out)@ == old(out)@ + spaces(n as nat),
{
    let ghost start = out@;
    let mut i: usize = 0;
    while i < n
        invariant
            i <= n,
            out@ == start + spaces(i as nat),
        decreases n - i,
    {
        out.push(' ');
        i = i + 1;
        assert(out@ =~= start + spaces(i as nat));
    }
}

fn push_pad(out: &mut Vec<char>, cols: usize, w: usize, shift: usize)
    requires
        shift <= CREDIT_SHIFT,
    ensures
        final(out)@ == old(out)@ + banner_pad(cols as nat, w as nat, shift as nat),
{
    let ghost start = out@;
    if cols >= w {
        let n = (cols - w) / 2 + shift;
        if n > 0 {
            out.push(FILLER);
            push_spaces(out, n);
            assert(out@ =~= start + banner_pad(cols as nat, w as nat, shift as nat));
        } else {
            assert(out@ =~= start + banner_pad(cols as nat, w as nat, shift as nat));
        }
    } else {
        let q = (w - cols) / 2;
        if q < shift {
            out.push(FILLER);
            push_spaces(out, shift - q);
            assert(out@ =~= start + banner_pad(cols as nat, w as nat, shift as nat));
        } else {
            assert(out@ =~= start + banner_pad(cols as nat, w as nat, shift as nat));
        }
    }
}

fn push_banner(out: &mut Vec<char>, cols: usize)
    ensures
        final(out)@ == old(out)@ + banner(cols as nat),
{
    let ghost start = out@;
    push_pad(out, cols, WELCOME.unicode_len(), 0);
    push_str(out, WELCOME);
    push_str(out, VERSION);
    push_str(out, NEWLINE);
    push_pad(out, cols, CREDIT.unicode_len(), CREDIT_SHIFT);
    push_str(out, CREDIT);
    assert(out@ =~= start + banner(cols as nat));
}

fn digit_char(d: u128) -> (c: char)
    requires
        d < 10,
    ensures
        c == digit(d as nat),
{
    match d {
        0 => '0',
        1 => '1',
        2 => '2',
        3 => '3',
        4 => '4',
        5 => '5',
        6 => '6',
        7 => '7',
        8 => '8',
        _ => '9',
    }
}

fn push_decimal(out: &mut Vec<char>, n: u128)
    ensures
        final(out)@ == old(out)@ + decimal(n as nat),
    decreases n,
{
    let ghost start = out@;
    if n >= 10 {
        push_decimal(out, n / 10);
    }
    out.push(digit_char(n % 10));
    assert(out@ =~= start + decimal(n as nat));
}

impl Editor {
    /// Appends the screen rows of the text, the banner or the filler.
    fn draw_rows(&self, out: &mut Vec<char>)
        requires
            wf(self@),
            cursor_visible(self@),
        ensures
            final(out)@ == old(out)@ + rows_text(self@, self@.screen_rows),
    {
        let ghost start = out@;
        let ghost m = self@;
        let rows = self.screen_rows();
        let cols = self.screen_cols();
        let off = self.viewport_offset();
        let n = self.line_count();
        let blank = n == 1 && self.row(0).len() == 0;
        let mut i: usize = 0;
        while i < rows
            invariant
                m == self@,
                wf(m),
                cursor_visible(m),
                rows == m.screen_rows,
                cols == m.screen_cols,
                off == m.viewport_offset,
                n == m.lines.len(),
                blank == is_blank(m),
                i <= rows,
                out@ == start + rows_text(m, i as nat),
            decreases rows - i,
        {
            let ghost before = out@;
            if i < n - off {
                push_chars(out, self.row(off + i));
            } else if blank && i == rows / 3 + BANNER_SHIFT {
                push_banner(out, cols);
            } else {
                out.push(FILLER);
            }
            assert(out@ == before + row_body(m, i as nat));
            push_str(out, CLEAR_LINE);
            if i + 1 < rows {
                push_str(out, NEWLINE);
            }
            assert(out@ =~= before + row_text(m, i as nat));
            i = i + 1;
            assert(out@ =~= start + rows_text(m, i as nat));
        }
    }

    /// Moves the viewport to show the cursor, then returns the whole frame
    /// that repaints the screen: the text rows, the cursor's place and the
    /// escape codes around them, to be written in one go.
    pub fn refresh(&mut self) -> (out: Vec<char>)
        requires
            wf(old(self)@),
        ensures
            final(self)@ == scroll(old(self)@),
            wf(final(self)@),
            cursor_visible(final(self)@),
            out@ == frame(final(self)@),
    {
        let mut out: Vec<char> = Vec::new();
        push_str(&mut out, HIDE_CURSOR);
        push_str(&mut out, CURSOR_HOME);
        self.scroll();
        self.draw_rows(&mut out);
        let row = (self.cursor_y() - self.viewport_offset()) as u128 + 1;
        let col = self.cursor_x() as u128 + 1;
        let ghost before = out@;
        out.push('\x1b');
        out.push('[');
        push_decimal(&mut out, row);
        out.push(';');
        push_decimal(&mut out, col);
        out.push('H');
        assert(out@ =~= before + cursor_to(row as nat, col as nat));
        push_str(&mut out, SHOW_CURSOR);
        assert(out@ =~= frame(self@));
        out
    }
}

} // verus!
