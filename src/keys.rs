use vstd::prelude::*;

verus! {

/// The escape byte that starts a multi-byte key sequence.
pub const ESC: u8 = 0x1b;

/// A logical key event, decoded once from the raw input bytes.
#[derive(PartialEq, Eq, Structural, Clone, Copy, Debug)]
pub enum Key {
    /// A character to insert into the buffer.
    Printable(char),
    /// A control byte that no command is bound to.
    Control(u8),
    /// A lone escape, or an escape sequence that is not recognised.
    Escape,
    Enter,
    Backspace,
    Delete,
    Up,
    Down,
    Left,
    Right,
    Home,
    End,
    PageUp,
    PageDown,
    CtrlQ,
    CtrlS,
    CtrlU,
}

/// The key for a single byte that does not start an escape sequence. A
/// letter pressed with Ctrl arrives as its code masked to the low five bits:
/// 0x11 is Ctrl-Q, 0x13 Ctrl-S and 0x15 Ctrl-U.
pub open spec fn byte_key(b: u8) -> Key {
    if b == 13 {
        Key::Enter
    } else if b == 127 {
        Key::Backspace
    } else if b == 0x11 {
        Key::CtrlQ
    } else if b == 0x13 {
        Key::CtrlS
    } else if b == 0x15 {
        Key::CtrlU
    } else if b < 32 {
        Key::Control(b)
    } else {
        Key::Printable(b as char)
    }
}

pub open spec fn is_digit(b: u8) -> bool {
    0x30 <= b <= 0x39
}

/// The key for `ESC '[' d '~'` with the digit `d`.
pub open spec fn tilde_key(d: u8) -> Key {
    if d == 0x31 || d == 0x37 {
        Key::Home
    } else if d == 0x33 {
        Key::Delete
    } else if d == 0x34 || d == 0x38 {
        Key::End
    } else if d == 0x35 {
        Key::PageUp
    } else if d == 0x36 {
        Key::PageDown
    } else {
        Key::Escape
    }
}

/// The key for `ESC '[' c` with a letter `c`.
pub open spec fn bracket_letter_key(c: u8) -> Key {
    if c == 0x41 {
        Key::Up
    } else if c == 0x42 {
        Key::Down
    } else if c == 0x43 {
        Key::Right
    } else if c == 0x44 {
        Key::Left
    } else if c == 0x48 {
        Key::Home
    } else if c == 0x46 {
        Key::End
    } else {
        Key::Escape
    }
}

/// The key for `ESC 'O' c`.
pub open spec fn o_letter_key(c: u8) -> Key {
    if c == 0x48 {
        Key::Home
    } else if c == 0x46 {
        Key::End
    } else {
        Key::Escape
    }
}

/// The key for the bytes `s` that followed an escape byte.
pub open spec fn escape_key(s: Seq<u8>) -> Key {
    if s.len() >= 2 && s[0] == 0x5b {
        if is_digit(s[1]) {
            if s.len() >= 3 && s[2] == 0x7e {
                tilde_key(s[1])
            } else {
                Key::Escape
            }
        } else {
            bracket_letter_key(s[1])
        }
    } else if s.len() >= 2 && s[0] == 0x4f {
        o_letter_key(s[1])
    } else {
        Key::Escape
    }
}

/// The key that the byte `first`, followed by the bytes `follow` when it is
/// an escape, stands for.
pub open spec fn key_of(first: u8, follow: Seq<u8>) -> Key {
    if first == ESC {
        escape_key(follow)
    } else {
        byte_key(first)
    }
}

fn decode_byte(b: u8) -> (k: Key)
    ensures
        k == byte_key(b),
{
    if b == 13 {
        Key::Enter
    } else if b == 127 {
        Key::Backspace
    } else if b == 0x11 {
        Key::CtrlQ
    } else if b == 0x13 {
        Key::CtrlS
    } else if b == 0x15 {
        Key::CtrlU
    } else if b < 32 {
        Key::Control(b)
    } else {
        Key::Printable(b as char)
    }
}

fn decode_escape(s: &[u8]) -> (k: Key)
    ensures
        k == escape_key(s@),
{
    if s.len() < 2 {
        return Key::Escape;
    }
    let lead = s[0];
    let c = s[1];
    if lead == 0x5b {
        if 0x30 <= c && c <= 0x39 {
            if s.len() >= 3 && s[2] == 0x7e {
                match c {
                    0x31 | 0x37 => Key::Home,
                    0x33 => Key::Delete,
                    0x34 | 0x38 => Key::End,
                    0x35 => Key::PageUp,
                    0x36 => Key::PageDown,
                    _ => Key::Escape,
                }
            } else {
                Key::Escape
            }
        } else {
            match c {
                0x41 => Key::Up,
                0x42 => Key::Down,
                0x43 => Key::Right,
                0x44 => Key::Left,
                0x48 => Key::Home,
                0x46 => Key::End,
                _ => Key::Escape,
            }
        }
    } else if lead == 0x4f {
        match c {
            0x48 => Key::Home,
            0x46 => Key::End,
            _ => Key::Escape,
        }
    } else {
        Key::Escape
    }
}

/// Decodes one key from the byte `first` and, when `first` is an escape, the
/// bytes read right after it (at most three are looked at; fewer arrive when
/// the read timed out). Decoding never fails: what is not recognised is a
/// literal escape.
pub fn decode_key(first: u8, follow: &[u8]) -> (k: Key)
    ensures
        k == key_of(first, follow@),
{
    if first == ESC {
        decode_escape(follow)
    } else {
        decode_byte(first)
    }
}

} // verus!
