use rust_wrd::{decode_key, Key};

#[test]
fn plain_bytes_are_printable() {
    assert_eq!(decode_key(b'a', &[]), Key::Printable('a'));
    assert_eq!(decode_key(b' ', &[]), Key::Printable(' '));
    assert_eq!(decode_key(b'~', &[]), Key::Printable('~'));
}

#[test]
fn enter_and_backspace_bytes() {
    assert_eq!(decode_key(13, &[]), Key::Enter);
    assert_eq!(decode_key(127, &[]), Key::Backspace);
}

#[test]
fn ctrl_letters() {
    assert_eq!(decode_key(b'q' & 0x1f, &[]), Key::CtrlQ);
    assert_eq!(decode_key(b's' & 0x1f, &[]), Key::CtrlS);
    assert_eq!(decode_key(b'u' & 0x1f, &[]), Key::CtrlU);
    assert_eq!(decode_key(b'a' & 0x1f, &[]), Key::Control(1));
}

#[test]
fn arrow_sequences() {
    assert_eq!(decode_key(0x1b, b"[A"), Key::Up);
    assert_eq!(decode_key(0x1b, b"[B"), Key::Down);
    assert_eq!(decode_key(0x1b, b"[C"), Key::Right);
    assert_eq!(decode_key(0x1b, b"[D"), Key::Left);
}

#[test]
fn home_and_end_sequences() {
    assert_eq!(decode_key(0x1b, b"[H"), Key::Home);
    assert_eq!(decode_key(0x1b, b"[F"), Key::End);
    assert_eq!(decode_key(0x1b, b"OH"), Key::Home);
    assert_eq!(decode_key(0x1b, b"OF"), Key::End);
}

#[test]
fn tilde_sequences() {
    assert_eq!(decode_key(0x1b, b"[1~"), Key::Home);
    assert_eq!(decode_key(0x1b, b"[7~"), Key::Home);
    assert_eq!(decode_key(0x1b, b"[3~"), Key::Delete);
    assert_eq!(decode_key(0x1b, b"[4~"), Key::End);
    assert_eq!(decode_key(0x1b, b"[8~"), Key::End);
    assert_eq!(decode_key(0x1b, b"[5~"), Key::PageUp);
    assert_eq!(decode_key(0x1b, b"[6~"), Key::PageDown);
}

#[test]
fn unknown_sequences_are_escape() {
    assert_eq!(decode_key(0x1b, b"[2~"), Key::Escape);
    assert_eq!(decode_key(0x1b, b"[5x"), Key::Escape);
    assert_eq!(decode_key(0x1b, b"[Z"), Key::Escape);
    assert_eq!(decode_key(0x1b, b"OA"), Key::Escape);
    assert_eq!(decode_key(0x1b, b"xA"), Key::Escape);
}

#[test]
fn incomplete_sequences_are_escape() {
    assert_eq!(decode_key(0x1b, b""), Key::Escape);
    assert_eq!(decode_key(0x1b, b"["), Key::Escape);
    assert_eq!(decode_key(0x1b, b"[5"), Key::Escape);
    assert_eq!(decode_key(0x1b, b"O"), Key::Escape);
}
