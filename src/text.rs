use vstd::prelude::*;

use crate::render::push_chars;

verus! {

/// How many spaces a tab becomes when a file is loaded.
pub const TAB_WIDTH: usize = 4;

/// The rows of a vector of rows.
pub open spec fn rows_view(v: Seq<Vec<char>>) -> Seq<Seq<char>> {
    v.map_values(|l: Vec<char>| l@)
}

pub open spec fn crlf() -> Seq<char> {
    seq!['\r', '\n']
}

/// `s` without one carriage return at its end.
pub open spec fn strip_cr(s: Seq<char>) -> Seq<char> {
    if s.len() > 0 && s.last() == '\r' {
        s.drop_last()
    } else {
        s
    }
}

/// The lines of `t`, where `cur` holds the part of the current line read so
/// far: each newline ends a line (and a carriage return right before it is
/// dropped); what follows the last newline is a line when it is not empty.
pub open spec fn split_from(t: Seq<char>, cur: Seq<char>) -> Seq<Seq<char>>
    decreases t.len(),
{
    if t.len() == 0 {
        if cur.len() == 0 {
            Seq::empty()
        } else {
            seq![cur]
        }
    } else if t[0] == '\n' {
        seq![strip_cr(cur)] + split_from(t.drop_first(), Seq::empty())
    } else {
        split_from(t.drop_first(), cur.push(t[0]))
    }
}

/// The lines of the text of a file.
pub open spec fn split_lines(t: Seq<char>) -> Seq<Seq<char>> {
    split_from(t, Seq::empty())
}

pub open spec fn tab_piece(c: char) -> Seq<char> {
    if c == '\t' {
        Seq::new(TAB_WIDTH as nat, |i: int| ' ')
    } else {
        seq![c]
    }
}

/// `l` with each tab replaced by a run of spaces.
pub open spec fn detab(l: Seq<char>) -> Seq<char>
    decreases l.len(),
{
    if l.len() == 0 {
        Seq::empty()
    } else {
        detab(l.drop_last()) + tab_piece(l.last())
    }
}

/// The rows that a file with the text `t` loads as: its lines with tabs
/// expanded, or one empty row when it has no line.
pub open spec fn rows_of_text(t: Seq<char>) -> Seq<Seq<char>> {
    let ls = split_lines(t);
    if ls.len() == 0 {
        seq![Seq::empty()]
    } else {
        ls.map_values(|l: Seq<char>| detab(l))
    }
}

/// The rows joined by CRLF, as a file holds them.
pub open spec fn join_crlf(ls: Seq<Seq<char>>) -> Seq<char>
    decreases ls.len(),
{
    if ls.len() == 0 {
        Seq::empty()
    } else if ls.len() == 1 {
        ls[0]
    } else {
        ls[0] + crlf() + join_crlf(ls.drop_first())
    }
}

/// Appending a row to the rows appends it to their join, behind a CRLF.
proof fn lemma_join_push(p: Seq<Seq<char>>, x: Seq<char>)
    ensures
        join_crlf(p.push(x)) == if p.len() == 0 {
            x
        } else {
            join_crlf(p) + crlf() + x
        },
    decreases p.len(),
{
    let q = p.push(x);
    if p.len() == 0 {
        assert(q =~= seq![x]);
        assert(join_crlf(q) == q[0]);
    } else if p.len() == 1 {
        assert(q.drop_first() =~= seq![x]);
        assert(join_crlf(q.drop_first()) == x);
        assert(q[0] == p[0]);
        assert(join_crlf(p) == p[0]);
        assert(join_crlf(q) == q[0] + crlf() + join_crlf(q.drop_first()));
    } else {
        assert(q.drop_first() =~= p.drop_first().push(x));
        lemma_join_push(p.drop_first(), x);
        assert(q[0] == p[0]);
        assert(join_crlf(q) == q[0] + crlf() + join_crlf(q.drop_first()));
        assert(join_crlf(p) == p[0] + crlf() + join_crlf(p.drop_first()));
        assert(join_crlf(q) =~= join_crlf(p) + crlf() + x);
    }
}

/// Reading a stretch without newlines only extends the current line.
proof fn lemma_split_plain(a: Seq<char>, b: Seq<char>, cur: Seq<char>)
    requires
        !a.contains('\n'),
    ensures
        split_from(a + b, cur) == split_from(b, cur + a),
    decreases a.len(),
{
    if a.len() == 0 {
        assert(a + b =~= b);
        assert(cur + a =~= cur);
    } else {
        assert((a + b)[0] == a[0]);
        assert((a + b).drop_first() =~= a.drop_first() + b);
        assert(!a.drop_first().contains('\n')) by {
            if a.drop_first().contains('\n') {
                let i = choose|i: int| 0 <= i < a.drop_first().len() && a.drop_first()[i] == '\n';
                assert(a[i + 1] == '\n');
            }
        }
        assert(a[0] != '\n') by {
            if a[0] == '\n' {
                assert(a.contains('\n'));
            }
        }
        lemma_split_plain(a.drop_first(), b, cur.push(a[0]));
        assert(cur.push(a[0]) + a.drop_first() =~= cur + a);
    }
}

/// Rows without newlines, the last of them not empty, come back as the lines
/// of their join.
proof fn lemma_split_join(rows: Seq<Seq<char>>)
    requires
        rows.len() >= 1,
        forall|i: int| 0 <= i < rows.len() ==> !(#[trigger] rows[i]).contains('\n'),
        rows.last().len() > 0,
    ensures
        split_lines(join_crlf(rows)) == rows,
    decreases rows.len(),
{
    let r0 = rows[0];
    assert(!r0.contains('\n'));
    if rows.len() == 1 {
        lemma_split_plain(r0, Seq::empty(), Seq::empty());
        assert(r0 + Seq::<char>::empty() =~= r0);
        assert(Seq::<char>::empty() + r0 =~= r0);
        assert(split_from(Seq::empty(), r0) == seq![r0]);
        assert(seq![r0] =~= rows);
    } else {
        let rest = rows.drop_first();
        let j = join_crlf(rest);
        assert forall|i: int| 0 <= i < rest.len() implies !(#[trigger] rest[i]).contains('\n') by {
            assert(rest[i] == rows[i + 1]);
        }
        lemma_split_join(rest);
        assert(join_crlf(rows) =~= r0 + (crlf() + j));
        lemma_split_plain(r0, crlf() + j, Seq::empty());
        assert(Seq::<char>::empty() + r0 =~= r0);
        let t = crlf() + j;
        assert(t[0] == '\r');
        assert(t.drop_first()[0] == '\n');
        assert(t.drop_first().drop_first() =~= j);
        assert(strip_cr(r0.push('\r')) =~= r0);
        assert(split_from(t, r0) == split_from(t.drop_first(), r0.push('\r')));
        assert(split_from(t.drop_first(), r0.push('\r')) == seq![r0] + split_from(j, Seq::empty()));
        assert(seq![r0] + rest =~= rows);
    }
}

/// No line of a text holds a newline.
proof fn lemma_split_lines_plain(t: Seq<char>, cur: Seq<char>)
    requires
        !cur.contains('\n'),
    ensures
        forall|i: int| 0 <= i < split_from(t, cur).len() ==> !(#[trigger] split_from(t, cur)[i]).contains('\n'),
    decreases t.len(),
{
    if t.len() == 0 {
        if cur.len() > 0 {
            assert(split_from(t, cur) == seq![cur]);
            assert forall|i: int| 0 <= i < split_from(t, cur).len() implies !(#[trigger] split_from(t, cur)[i]).contains('\n') by {
                assert(split_from(t, cur)[i] == cur);
            }
        }
    } else {
        if t[0] == '\n' {
            lemma_split_lines_plain(t.drop_first(), Seq::empty());
            let l = strip_cr(cur);
            assert(!l.contains('\n')) by {
                if l.contains('\n') {
                    let i = choose|i: int| 0 <= i < l.len() && l[i] == '\n';
                    assert(cur[i] == '\n');
                }
            }
            let rest = split_from(t.drop_first(), Seq::empty());
            assert forall|i: int| 0 <= i < split_from(t, cur).len() implies !(#[trigger] split_from(t, cur)[i]).contains('\n') by {
                assert(split_from(t, cur) == seq![l] + rest);
                if i > 0 {
                    assert(split_from(t, cur)[i] == rest[i - 1]);
                } else {
                    assert(split_from(t, cur)[i] == l);
                }
            }
        } else {
            assert(!cur.push(t[0]).contains('\n')) by {
                if cur.push(t[0]).contains('\n') {
                    let i = choose|i: int| 0 <= i < cur.push(t[0]).len() && cur.push(t[0])[i] == '\n';
                    if i < cur.len() {
                        assert(cur[i] == '\n');
                    }
                }
            }
            lemma_split_lines_plain(t.drop_first(), cur.push(t[0]));
            assert(split_from(t, cur) == split_from(t.drop_first(), cur.push(t[0])));
        }
    }
}

/// Expanding tabs removes every tab, adds no newline and makes no line
/// shorter.
proof fn lemma_detab(l: Seq<char>)
    ensures
        !detab(l).contains('\t'),
        !l.contains('\n') ==> !detab(l).contains('\n'),
        detab(l).len() >= l.len(),
    decreases l.len(),
{
    if l.len() > 0 {
        let front = l.drop_last();
        lemma_detab(front);
        let p = tab_piece(l.last());
        assert(!p.contains('\t'));
        assert(!l.contains('\n') ==> !front.contains('\n')) by {
            if !l.contains('\n') && front.contains('\n') {
                let i = choose|i: int| 0 <= i < front.len() && front[i] == '\n';
                assert(l[i] == '\n');
            }
        }
        assert(!l.contains('\n') ==> !p.contains('\n')) by {
            if !l.contains('\n') {
                assert(l[l.len() - 1] == l.last());
            }
        }
        let d = detab(l);
        assert(d == detab(front) + p);
        assert forall|c: char| !detab(front).contains(c) && !p.contains(c) implies !d.contains(c) by {
            if d.contains(c) {
                let i = choose|i: int| 0 <= i < d.len() && d[i] == c;
                if i < detab(front).len() {
                    assert(detab(front)[i] == c);
                } else {
                    assert(p[i - detab(front).len()] == c);
                }
            }
        }
    }
}

/// Joining rows without tabs gives a text without tabs.
proof fn lemma_join_no_tab(rows: Seq<Seq<char>>)
    requires
        forall|i: int| 0 <= i < rows.len() ==> !(#[trigger] rows[i]).contains('\t'),
    ensures
        !join_crlf(rows).contains('\t'),
    decreases rows.len(),
{
    if rows.len() > 1 {
        let rest = rows.drop_first();
        assert forall|i: int| 0 <= i < rest.len() implies !(#[trigger] rest[i]).contains('\t') by {
            assert(rest[i] == rows[i + 1]);
        }
        lemma_join_no_tab(rest);
        let a = rows[0] + crlf();
        let j = join_crlf(rest);
        assert(!rows[0].contains('\t'));
        assert(join_crlf(rows) == a + j);
        if (a + j).contains('\t') {
            let i = choose|i: int| 0 <= i < (a + j).len() && (a + j)[i] == '\t';
            if i < rows[0].len() {
                assert(rows[0][i] == '\t');
            } else if i < a.len() {
                assert(crlf()[i - rows[0].len()] == '\t');
            } else {
                assert(j[i - a.len()] == '\t');
            }
        }
    } else if rows.len() == 1 {
        assert(!rows[0].contains('\t'));
    }
}

/// Saving the rows that a text loads as gives back the same lines, each with
/// its tabs turned into spaces, provided the text's last line is not empty.
pub proof fn lemma_load_save_lines(t: Seq<char>)
    requires
        split_lines(t).len() == 0 || split_lines(t).last().len() > 0,
    ensures
        split_lines(join_crlf(rows_of_text(t))) == split_lines(t).map_values(|l: Seq<char>| detab(l)),
{
    let ls = split_lines(t);
    if ls.len() == 0 {
        assert(join_crlf(rows_of_text(t)) == Seq::<char>::empty());
        assert(split_lines(Seq::<char>::empty()) == Seq::<Seq<char>>::empty());
        assert(ls.map_values(|l: Seq<char>| detab(l)) =~= Seq::<Seq<char>>::empty());
    } else {
        let rows = rows_of_text(t);
        lemma_split_lines_plain(t, Seq::empty());
        assert forall|i: int| 0 <= i < rows.len() implies !(#[trigger] rows[i]).contains('\n') by {
            assert(!ls[i].contains('\n'));
            lemma_detab(ls[i]);
        }
        lemma_detab(ls.last());
        assert(rows.last() == detab(ls.last()));
        lemma_split_join(rows);
    }
}

/// A text with a tab never comes back unchanged from loading and saving.
pub proof fn lemma_load_save_changes_tabs(t: Seq<char>)
    requires
        t.contains('\t'),
    ensures
        join_crlf(rows_of_text(t)) != t,
{
    let rows = rows_of_text(t);
    assert forall|i: int| 0 <= i < rows.len() implies !(#[trigger] rows[i]).contains('\t') by {
        if split_lines(t).len() == 0 {
            assert(rows[i] == Seq::<char>::empty());
        } else {
            lemma_detab(split_lines(t)[i]);
        }
    }
    lemma_join_no_tab(rows);
}

/// Splits the text of a file into its lines.
fn split_text(t: &Vec<char>) -> (rows: Vec<Vec<char>>)
    ensures
        rows_view(rows@) == split_lines(t@),
{
    let mut rows: Vec<Vec<char>> = Vec::new();
    let mut cur: Vec<char> = Vec::new();
    let n = t.len();
    let mut i: usize = 0;
    assert(t@.subrange(0, n as int) =~= t@);
    assert(rows_view(rows@) + split_lines(t@) =~= split_lines(t@));
    while i < n
        invariant
            n == t@.len(),
            i <= n,
            rows_view(rows@) + split_from(t@.subrange(i as int, n as int), cur@) == split_lines(t@),
        decreases n - i,
    {
        let ghost rest = t@.subrange(i as int, n as int);
        assert(rest[0] == t@[i as int]);
        assert(rest.drop_first() =~= t@.subrange(i + 1, n as int));
        let ghost before = rows_view(rows@);
        let c = t[i];
        if c == '\n' {
            let ghost line = strip_cr(cur@);
            if cur.len() > 0 && cur[cur.len() - 1] == '\r' {
                cur.pop();
            }
            assert(cur@ =~= line);
            rows.push(cur);
            cur = Vec::new();
            assert(rows_view(rows@) =~= before.push(line));
            assert(before + (seq![line] + split_from(rest.drop_first(), Seq::empty())) =~= before.push(
                line,
            ) + split_from(rest.drop_first(), Seq::empty()));
        } else {
            cur.push(c);
        }
        i = i + 1;
    }
    assert(t@.subrange(n as int, n as int) =~= Seq::<char>::empty());
    if cur.len() > 0 {
        let ghost before = rows_view(rows@);
        let ghost last = cur@;
        rows.push(cur);
        assert(rows_view(rows@) =~= before + seq![last]);
    } else {
        assert(rows_view(rows@) =~= rows_view(rows@) + Seq::<Seq<char>>::empty());
    }
    rows
}

/// The line `l` with each tab replaced by a run of spaces.
pub fn expand_tabs(l: &Vec<char>) -> (r: Vec<char>)
    ensures
        r@ == detab(l@),
{
    let mut r: Vec<char> = Vec::new();
    let mut i: usize = 0;
    while i < l.len()
        invariant
            i <= l@.len(),
            r@ == detab(l@.subrange(0, i as int)),
        decreases l@.len() - i,
    {
        let ghost before = r@;
        let c = l[i];
        if c == '\t' {
            let mut k: usize = 0;
            while k < TAB_WIDTH
                invariant
                    k <= TAB_WIDTH,
                    r@ == before + Seq::new(k as nat, |j: int| ' '),
                decreases TAB_WIDTH - k,
            {
                r.push(' ');
                k = k + 1;
                assert(r@ =~= before + Seq::new(k as nat, |j: int| ' '));
            }
        } else {
            r.push(c);
        }
        assert(l@.subrange(0, i + 1).drop_last() =~= l@.subrange(0, i as int));
        i = i + 1;
        assert(r@ =~= detab(l@.subrange(0, i as int)));
    }
    assert(l@.subrange(0, l@.len() as int) =~= l@);
    r
}

/// The rows that a file with the text `t` loads as.
pub fn parse_rows(t: &Vec<char>) -> (rows: Vec<Vec<char>>)
    ensures
        rows_view(rows@) == rows_of_text(t@),
{
    let lines = split_text(t);
    let mut rows: Vec<Vec<char>> = Vec::new();
    if lines.len() == 0 {
        rows.push(Vec::new());
        assert(rows_view(rows@) =~= rows_of_text(t@));
        return rows;
    }
    let ghost ls = rows_view(lines@);
    let mut i: usize = 0;
    while i < lines.len()
        invariant
            ls == rows_view(lines@),
            i <= lines@.len(),
            rows_view(rows@) == ls.subrange(0, i as int).map_values(|l: Seq<char>| detab(l)),
        decreases lines@.len() - i,
    {
        assert(ls[i as int] == lines@[i as int]@);
        let r = expand_tabs(&lines[i]);
        let ghost before = rows_view(rows@);
        rows.push(r);
        assert(rows_view(rows@) =~= before.push(detab(ls[i as int])));
        assert(ls.subrange(0, i + 1).map_values(|l: Seq<char>| detab(l)) =~= ls.subrange(
            0,
            i as int,
        ).map_values(|l: Seq<char>| detab(l)).push(detab(ls[i as int])));
        i = i + 1;
        assert(rows_view(rows@) =~= ls.subrange(0, i as int).map_values(|l: Seq<char>| detab(l)));
    }
    assert(ls.subrange(0, lines@.len() as int) =~= ls);
    rows
}

/// The rows joined by CRLF.
pub fn join_lines(rows: &Vec<Vec<char>>) -> (out: Vec<char>)
    ensures
        out@ == join_crlf(rows_view(rows@)),
{
    let ghost ls = rows_view(rows@);
    let mut out: Vec<char> = Vec::new();
    let mut i: usize = 0;
    while i < rows.len()
        invariant
            ls == rows_view(rows@),
            i <= rows@.len(),
            out@ == join_crlf(ls.subrange(0, i as int)),
        decreases rows@.len() - i,
    {
        if i > 0 {
            out.push('\r');
            out.push('\n');
        }
        push_chars(&mut out, &rows[i]);
        proof {
            lemma_join_push(ls.subrange(0, i as int), ls[i as int]);
            assert(ls.subrange(0, i as int).push(ls[i as int]) =~= ls.subrange(0, i + 1));
        }
        i = i + 1;
        assert(out@ =~= join_crlf(ls.subrange(0, i as int)));
    }
    assert(ls.subrange(0, rows@.len() as int) =~= ls);
    out
}

} // verus!
