//! Mouse buttons, input event kinds, special keys and the US keyboard
//! layout, each with the X11 code it stands for.

use vstd::prelude::*;
use vstd::utf8::{
    decode_utf8, decode_utf8_encode_utf8, encode_utf8_decode_utf8, encode_utf8_valid_utf8, valid_utf8,
};

verus! {

/// A mouse button that can be tapped.
#[derive(Copy, Clone, Debug, PartialEq, Eq, Structural)]
pub enum MouseCode {
    Left,
    Right,
    ScrollUp,
    ScrollDown,
}

impl MouseCode {
    /// The X11 button number of this button.
    pub open spec fn code_spec(self) -> u8 {
        match self {
            MouseCode::Left => 1,
            MouseCode::Right => 3,
            MouseCode::ScrollUp => 4,
            MouseCode::ScrollDown => 5,
        }
    }

    /// The X11 button number of this button.
    #[verifier::when_used_as_spec(code_spec)]
    pub fn code(self) -> (c: u8)
        ensures
            c == self.code_spec(),
    {
        match self {
            MouseCode::Left => 1,
            MouseCode::Right => 3,
            MouseCode::ScrollUp => 4,
            MouseCode::ScrollDown => 5,
        }
    }
}

/// The button with the given number, if there is one.
pub open spec fn mousecode_of(i: u8) -> Option<MouseCode> {
    if i == 1 {
        Some(MouseCode::Left)
    } else if i == 3 {
        Some(MouseCode::Right)
    } else if i == 4 {
        Some(MouseCode::ScrollUp)
    } else if i == 5 {
        Some(MouseCode::ScrollDown)
    } else {
        None
    }
}

/// A button is found again by its number, and by no other number.
pub proof fn lemma_mousecode_roundtrip(code: MouseCode, i: u8)
    ensures
        mousecode_of(code.code_spec()) == Some(code),
        mousecode_of(i) == Some(code) ==> i == code.code_spec(),
{
}

/// Reads a button number. Numbers other than 1, 3, 4 and 5 name no button.
pub fn mousecode_from_u8(i: u8) -> (r: Result<MouseCode, &'static str>)
    ensures
        match r {
            Ok(m) => mousecode_of(i) == Some(m),
            Err(e) => mousecode_of(i) is None && e@ == "Invalid mouse code"@,
        },
{
    if i == 1 {
        Ok(MouseCode::Left)
    } else if i == 3 {
        Ok(MouseCode::Right)
    } else if i == 4 {
        Ok(MouseCode::ScrollUp)
    } else if i == 5 {
        Ok(MouseCode::ScrollDown)
    } else {
        Err("Invalid mouse code")
    }
}

/// The kind of a simulated input event.
#[derive(Copy, Clone, Debug, PartialEq, Eq, Structural)]
pub enum InputEvent {
    KeyPress,
    KeyRelease,
    MousePress,
    MouseRelease,
}

impl InputEvent {
    /// The X11 event type of this kind of event.
    pub open spec fn code_spec(self) -> u8 {
        match self {
            InputEvent::KeyPress => 2,
            InputEvent::KeyRelease => 3,
            InputEvent::MousePress => 4,
            InputEvent::MouseRelease => 5,
        }
    }

    /// The X11 event type of this kind of event.
    #[verifier::when_used_as_spec(code_spec)]
    pub fn code(self) -> (c: u8)
        ensures
            c == self.code_spec(),
    {
        match self {
            InputEvent::KeyPress => 2,
            InputEvent::KeyRelease => 3,
            InputEvent::MousePress => 4,
            InputEvent::MouseRelease => 5,
        }
    }
}

/// Keycode for the left shift key.
pub const SHIFT_KEYCODE: u8 = 50;

/// A key that is named rather than typed.
#[derive(Copy, Clone, Debug, PartialEq, Eq, Structural)]
pub enum SpecialCode {
    Backspace,
    Tab,
    Return,
    Space,
    Up,
    Down,
    Left,
    Right,
}

impl SpecialCode {
    /// The X11 keycode of this key.
    pub open spec fn code_spec(self) -> u8 {
        match self {
            SpecialCode::Backspace => 22,
            SpecialCode::Tab => 23,
            SpecialCode::Return => 36,
            SpecialCode::Space => 65,
            SpecialCode::Up => 111,
            SpecialCode::Down => 116,
            SpecialCode::Left => 113,
            SpecialCode::Right => 114,
        }
    }

    /// The X11 keycode of this key.
    #[verifier::when_used_as_spec(code_spec)]
    pub fn code(self) -> (c: u8)
        ensures
            c == self.code_spec(),
    {
        match self {
            SpecialCode::Backspace => 22,
            SpecialCode::Tab => 23,
            SpecialCode::Return => 36,
            SpecialCode::Space => 65,
            SpecialCode::Up => 111,
            SpecialCode::Down => 116,
            SpecialCode::Left => 113,
            SpecialCode::Right => 114,
        }
    }
}

/// The special key with the given lower-case name, if there is one.
pub open spec fn special_of(name: Seq<char>) -> Option<SpecialCode> {
    if name == "backspace"@ {
        Some(SpecialCode::Backspace)
    } else if name == "space"@ {
        Some(SpecialCode::Space)
    } else if name == "tab"@ {
        Some(SpecialCode::Tab)
    } else if name == "return"@ {
        Some(SpecialCode::Return)
    } else if name == "up"@ {
        Some(SpecialCode::Up)
    } else if name == "down"@ {
        Some(SpecialCode::Down)
    } else if name == "left"@ {
        Some(SpecialCode::Left)
    } else if name == "right"@ {
        Some(SpecialCode::Right)
    } else {
        None
    }
}

/// Whether two byte strings are the same.
pub fn bytes_eq(a: &[u8], b: &[u8]) -> (same: bool)
    ensures
        same == (a@ == b@),
{
    if a.len() != b.len() {
        return false;
    }
    let mut i: usize = 0;
    while i < a.len()
        invariant
            a@.len() == b@.len(),
            i <= a@.len(),
            forall|j: int| 0 <= j < i ==> a@[j] == b@[j],
        decreases a@.len() - i,
    {
        if a[i] != b[i] {
            return false;
        }
        i += 1;
    }
    assert(a@ =~= b@);
    true
}

/// The special key whose lower-case name `name` holds as UTF-8, if there is
/// one.
pub open spec fn special_of_bytes(name: Seq<u8>) -> Option<SpecialCode> {
    if valid_utf8(name) {
        special_of(decode_utf8(name))
    } else {
        None
    }
}

/// Whether `name` holds the text `text` as UTF-8.
fn bytes_are(name: &[u8], text: &str) -> (same: bool)
    ensures
        same == (valid_utf8(name@) && decode_utf8(name@) == text@),
{
    proof {
        encode_utf8_valid_utf8(text@);
        encode_utf8_decode_utf8(text@);
        if valid_utf8(name@) {
            decode_utf8_encode_utf8(name@);
        }
    }
    bytes_eq(name, text.as_bytes())
}

/// Maps the bytes of the lower-case name of a special key to the key.
pub fn special_from_bytes(name: &[u8]) -> (r: Option<SpecialCode>)
    ensures
        r == special_of_bytes(name@),
{
    if bytes_are(name, "backspace") {
        Some(SpecialCode::Backspace)
    } else if bytes_are(name, "space") {
        Some(SpecialCode::Space)
    } else if bytes_are(name, "tab") {
        Some(SpecialCode::Tab)
    } else if bytes_are(name, "return") {
        Some(SpecialCode::Return)
    } else if bytes_are(name, "up") {
        Some(SpecialCode::Up)
    } else if bytes_are(name, "down") {
        Some(SpecialCode::Down)
    } else if bytes_are(name, "left") {
        Some(SpecialCode::Left)
    } else if bytes_are(name, "right") {
        Some(SpecialCode::Right)
    } else {
        None
    }
}

/// Maps the lower-case name of a special key to the key.
pub fn special_from_str(s: &str) -> (r: Result<SpecialCode, &'static str>)
    ensures
        match r {
            Ok(c) => special_of(s@) == Some(c),
            Err(e) => special_of(s@) is None && e@ == "Invalid special code"@,
        },
{
    proof {
        encode_utf8_valid_utf8(s@);
        encode_utf8_decode_utf8(s@);
    }
    match special_from_bytes(s.as_bytes()) {
        Some(c) => Ok(c),
        None => Err("Invalid special code"),
    }
}

/// The code of `key` in a keyboard row whose keys, left to right, are `row`
/// and whose leftmost key has the code `first`; zero if the row lacks it.
pub open spec fn code_in_row(row: Seq<char>, first: u8, key: char) -> u8 {
    if row.contains(key) {
        (first + row.index_of(key)) as u8
    } else {
        0
    }
}

/// The keycode of a character that is typed with shift held, by the row of
/// the keyboard that holds it; zero if there is none.
pub open spec fn upper_key(key: char) -> u8 {
    let row1 = "!@#$%^&*()_+"@;
    let row2 = "QWERTYUIOP{}"@;
    let row3 = "ASDFGHJKL:\""@;
    let row4 = "ZXCVBNM<>?"@;
    if row1.contains(key) {
        code_in_row(row1, 10, key)
    } else if row2.contains(key) {
        code_in_row(row2, 24, key)
    } else if key == '|' {
        51
    } else if row3.contains(key) {
        code_in_row(row3, 38, key)
    } else if row4.contains(key) {
        code_in_row(row4, 52, key)
    } else {
        0
    }
}

/// The keycode of a character that is typed with shift held.
/// Returns zero (0) if not matched.
pub fn get_upper_key(key: char) -> (code: u8)
    ensures
        code == upper_key(key),
{
    proof {
        reveal_strlit("!@#$%^&*()_+");
        let r1 = "!@#$%^&*()_+"@;
        assert(r1.len() == 12 && r1[0] == '!' && r1[1] == '@' && r1[2] == '#' && r1[3] == '$' && r1[4] == '%' && r1[5] == '^' && r1[6] == '&' && r1[7] == '*' && r1[8] == '(' && r1[9] == ')' && r1[10] == '_' && r1[11] == '+');
        reveal_strlit("QWERTYUIOP{}");
        let r2 = "QWERTYUIOP{}"@;
        assert(r2.len() == 12 && r2[0] == 'Q' && r2[1] == 'W' && r2[2] == 'E' && r2[3] == 'R' && r2[4] == 'T' && r2[5] == 'Y' && r2[6] == 'U' && r2[7] == 'I' && r2[8] == 'O' && r2[9] == 'P' && r2[10] == '{' && r2[11] == '}');
        reveal_strlit("ASDFGHJKL:\"");
        let r3 = "ASDFGHJKL:\""@;
        assert(r3.len() == 11 && r3[0] == 'A' && r3[1] == 'S' && r3[2] == 'D' && r3[3] == 'F' && r3[4] == 'G' && r3[5] == 'H' && r3[6] == 'J' && r3[7] == 'K' && r3[8] == 'L' && r3[9] == ':' && r3[10] == '"');
        reveal_strlit("ZXCVBNM<>?");
        let r4 = "ZXCVBNM<>?"@;
        assert(r4.len() == 10 && r4[0] == 'Z' && r4[1] == 'X' && r4[2] == 'C' && r4[3] == 'V' && r4[4] == 'B' && r4[5] == 'N' && r4[6] == 'M' && r4[7] == '<' && r4[8] == '>' && r4[9] == '?');
    }
    match key {
        // Row 1
        '!' => 10,
        '@' => 11,
        '#' => 12,
        '$' => 13,
        '%' => 14,
        '^' => 15,
        '&' => 16,
        '*' => 17,
        '(' => 18,
        ')' => 19,
        '_' => 20,
        '+' => 21,

        // Row 2
        'Q' => 24,
        'W' => 25,
        'E' => 26,
        'R' => 27,
        'T' => 28,
        'Y' => 29,
        'U' => 30,
        'I' => 31,
        'O' => 32,
        'P' => 33,
        '{' => 34,
        '}' => 35,
        '|' => 51,

        // Row 3
        'A' => 38,
        'S' => 39,
        'D' => 40,
        'F' => 41,
        'G' => 42,
        'H' => 43,
        'J' => 44,
        'K' => 45,
        'L' => 46,
        ':' => 47,
        '"' => 48,

        // Row 4
        'Z' => 52,
        'X' => 53,
        'C' => 54,
        'V' => 55,
        'B' => 56,
        'N' => 57,
        'M' => 58,
        '<' => 59,
        '>' => 60,
        '?' => 61,

        _ => 0,
    }
}

/// The keycode of a character that is typed without shift, by the row of
/// the keyboard that holds it; zero if there is none.
pub open spec fn lower_key(key: char) -> u8 {
    let row1 = "1234567890-="@;
    let row2 = "qwertyuiop[]"@;
    let row3 = "asdfghjkl;'"@;
    let row4 = "zxcvbnm,./"@;
    if row1.contains(key) {
        code_in_row(row1, 10, key)
    } else if row2.contains(key) {
        code_in_row(row2, 24, key)
    } else if key == '\\' {
        51
    } else if row3.contains(key) {
        code_in_row(row3, 38, key)
    } else if row4.contains(key) {
        code_in_row(row4, 52, key)
    } else {
        0
    }
}

/// The keycode of a character that is typed without shift.
/// Returns zero (0) if not matched.
pub fn get_lower_key(key: char) -> (code: u8)
    ensures
        code == lower_key(key),
{
    proof {
        reveal_strlit("1234567890-=");
        let r1 = "1234567890-="@;
        assert(r1.len() == 12 && r1[0] == '1' && r1[1] == '2' && r1[2] == '3' && r1[3] == '4' && r1[4] == '5' && r1[5] == '6' && r1[6] == '7' && r1[7] == '8' && r1[8] == '9' && r1[9] == '0' && r1[10] == '-' && r1[11] == '=');
        reveal_strlit("qwertyuiop[]");
        let r2 = "qwertyuiop[]"@;
        assert(r2.len() == 12 && r2[0] == 'q' && r2[1] == 'w' && r2[2] == 'e' && r2[3] == 'r' && r2[4] == 't' && r2[5] == 'y' && r2[6] == 'u' && r2[7] == 'i' && r2[8] == 'o' && r2[9] == 'p' && r2[10] == '[' && r2[11] == ']');
        reveal_strlit("asdfghjkl;'");
        let r3 = "asdfghjkl;'"@;
        assert(r3.len() == 11 && r3[0] == 'a' && r3[1] == 's' && r3[2] == 'd' && r3[3] == 'f' && r3[4] == 'g' && r3[5] == 'h' && r3[6] == 'j' && r3[7] == 'k' && r3[8] == 'l' && r3[9] == ';' && r3[10] == '\'');
        reveal_strlit("zxcvbnm,./");
        let r4 = "zxcvbnm,./"@;
        assert(r4.len() == 10 && r4[0] == 'z' && r4[1] == 'x' && r4[2] == 'c' && r4[3] == 'v' && r4[4] == 'b' && r4[5] == 'n' && r4[6] == 'm' && r4[7] == ',' && r4[8] == '.' && r4[9] == '/');
    }
    match key {
        // Row 1
        '1' => 10,
        '2' => 11,
        '3' => 12,
        '4' => 13,
        '5' => 14,
        '6' => 15,
        '7' => 16,
        '8' => 17,
        '9' => 18,
        '0' => 19,
        '-' => 20,
        '=' => 21,

        // Row 2
        'q' => 24,
        'w' => 25,
        'e' => 26,
        'r' => 27,
        't' => 28,
        'y' => 29,
        'u' => 30,
        'i' => 31,
        'o' => 32,
        'p' => 33,
        '[' => 34,
        ']' => 35,
        '\\' => 51,

        // Row 3
        'a' => 38,
        's' => 39,
        'd' => 40,
        'f' => 41,
        'g' => 42,
        'h' => 43,
        'j' => 44,
        'k' => 45,
        'l' => 46,
        ';' => 47,
        '\'' => 48,

        // Row 4
        'z' => 52,
        'x' => 53,
        'c' => 54,
        'v' => 55,
        'b' => 56,
        'n' => 57,
        'm' => 58,
        ',' => 59,
        '.' => 60,
        '/' => 61,

        _ => 0,
    }
}

/// No character is typed both with and without shift, and every keycode
/// lies between 10 and 61.
pub proof fn lemma_layout(key: char)
    ensures
        lower_key(key) == 0 || upper_key(key) == 0,
        lower_key(key) != 0 ==> 10 <= lower_key(key) <= 61,
        upper_key(key) != 0 ==> 10 <= upper_key(key) <= 61,
{
    reveal_strlit("1234567890-=");
    reveal_strlit("qwertyuiop[]");
    reveal_strlit("asdfghjkl;'");
    reveal_strlit("zxcvbnm,./");
    reveal_strlit("!@#$%^&*()_+");
    reveal_strlit("QWERTYUIOP{}");
    reveal_strlit("ASDFGHJKL:\"");
    reveal_strlit("ZXCVBNM<>?");
}

/// The keycode of a character and whether shift goes with it.
pub open spec fn keycode_of(key: char) -> Option<(u8, bool)> {
    if lower_key(key) != 0 {
        Some((lower_key(key), false))
    } else if upper_key(key) != 0 {
        Some((upper_key(key), true))
    } else {
        None
    }
}

/// Gets a keycode, and true if it is "upper".
pub fn get_keycode(key: char) -> (r: Option<(u8, bool)>)
    ensures
        r == keycode_of(key),
{
    let lower = get_lower_key(key);
    if lower != 0 {
        Some((lower, false))
    } else {
        let upper = get_upper_key(key);
        if upper != 0 {
            Some((upper, true))
        } else {
            None
        }
    }
}

} // verus!
