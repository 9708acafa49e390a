use vstd::prelude::*;

use crate::keys::{is_digit, ESC};

verus! {

/// The request that makes a terminal report its cursor's position.
pub const CURSOR_QUERY: &'static str = "\x1b[6n";

/// Moves the cursor as far right and down as the terminal allows.
pub const CURSOR_TO_CORNER: &'static str = "\x1b[999C\x1b[999B";

/// The value of a string of decimal digits.
pub open spec fn digits_value(s: Seq<u8>) -> nat
    decreases s.len(),
{
    if s.len() == 0 {
        0
    } else {
        digits_value(s.drop_last()) * 10 + (s.last() - 0x30) as nat
    }
}

pub open spec fn all_digits(s: Seq<u8>) -> bool {
    forall|i: int| 0 <= i < s.len() ==> is_digit(#[trigger] s[i])
}

/// One or more digits whose value fits a terminal dimension.
pub open spec fn is_number(s: Seq<u8>) -> bool {
    s.len() > 0 && all_digits(s) && digits_value(s) <= u16::MAX
}

/// `s` is a cursor report `ESC '[' rows ';' cols 'R'` whose separator is at `k`.
pub open spec fn report_at(s: Seq<u8>, k: int) -> bool {
    &&& s.len() >= 2
    &&& s[0] == ESC
    &&& s[1] == 0x5b
    &&& 2 < k < s.len() - 1
    &&& s[k] == 0x3b
    &&& s.last() == 0x52
    &&& is_number(s.subrange(2, k))
    &&& is_number(s.subrange(k + 1, s.len() - 1))
}

/// The rows and the columns that a cursor report with its separator at `k`
/// gives.
pub open spec fn report_value(s: Seq<u8>, k: int) -> (u16, u16) {
    (
        digits_value(s.subrange(2, k)) as u16,
        digits_value(s.subrange(k + 1, s.len() - 1)) as u16,
    )
}

/// A prefix of a string of digits is worth no more than the whole.
proof fn lemma_prefix_value(s: Seq<u8>, i: int)
    requires
        0 <= i <= s.len(),
    ensures
        digits_value(s.subrange(0, i)) <= digits_value(s),
    decreases s.len(),
{
    if i < s.len() {
        lemma_prefix_value(s.drop_last(), i);
        assert(s.drop_last().subrange(0, i) =~= s.subrange(0, i));
    } else {
        assert(s.subrange(0, i) =~= s);
    }
}

/// Reads the number that the bytes `s[lo..hi]` spell.
fn parse_number(s: &[u8], lo: usize, hi: usize) -> (r: Option<u16>)
    requires
        lo <= hi <= s@.len(),
    ensures
        r is Some <==> is_number(s@.subrange(lo as int, hi as int)),
        r is Some ==> r->0 == digits_value(s@.subrange(lo as int, hi as int)),
{
    let ghost t = s@.subrange(lo as int, hi as int);
    if lo == hi {
        return None;
    }
    let mut v: u32 = 0;
    let mut i: usize = lo;
    while i < hi
        invariant
            lo <= i <= hi <= s@.len(),
            t == s@.subrange(lo as int, hi as int),
            all_digits(s@.subrange(lo as int, i as int)),
            v == digits_value(s@.subrange(lo as int, i as int)),
            v <= u16::MAX,
        decreases hi - i,
    {
        let b = s[i];
        let ghost next = s@.subrange(lo as int, i + 1);
        assert(next.drop_last() =~= s@.subrange(lo as int, i as int));
        assert(t.subrange(0, i + 1 - lo) =~= next);
        if b < 0x30 || b > 0x39 {
            assert(!is_digit(t[i - lo]));
            return None;
        }
        let w = v * 10 + (b - 0x30) as u32;
        if w > 0xffff {
            proof {
                lemma_prefix_value(t, i + 1 - lo);
            }
            return None;
        }
        v = w;
        i = i + 1;
    }
    assert(s@.subrange(lo as int, hi as int) =~= t);
    Some(v as u16)
}

/// Reads the terminal's answer to a cursor position query,
/// `ESC '[' rows ';' cols 'R'`, as rows and columns. Any other bytes, or a
/// number too large for a terminal dimension, give `None`.
pub fn parse_cursor_report(s: &[u8]) -> (r: Option<(u16, u16)>)
    ensures
        r is Some <==> exists|k: int| report_at(s@, k),
        forall|k: int| report_at(s@, k) ==> r == Some(report_value(s@, k)),
{
    let n = s.len();
    if n < 2 || s[0] != ESC || s[1] != 0x5b || s[n - 1] != 0x52 {
        return None;
    }
    let mut k: usize = 2;
    while k < n - 1 && s[k] != 0x3b
        invariant
            2 <= k <= n - 1,
            n == s@.len(),
            forall|j: int| 2 <= j < k ==> s@[j] != 0x3b,
        decreases n - k,
    {
        k = k + 1;
    }
    proof {
        assert forall|k2: int| report_at(s@, k2) implies k2 == k by {
            if k2 < k {
                assert(s@[k2] != 0x3b);
            } else if k2 > k {
                assert(s@.subrange(2, k2)[k - 2] == s@[k as int]);
                assert(is_digit(s@.subrange(2, k2)[k - 2]));
            }
        }
    }
    if k == n - 1 || k == 2 {
        return None;
    }
    let rows = parse_number(s, 2, k);
    let cols = parse_number(s, k + 1, n - 1);
    match (rows, cols) {
        (Some(a), Some(b)) => {
            assert(report_at(s@, k as int));
            Some((a, b))
        },
        _ => None,
    }
}

} // verus!
