//! The exact byte sequences the renderer writes to the terminal: cursor
//! visibility and position controls, obtained from the `ansi_escapes` crate
//! through trusted wrappers, and color-selection sequences built here.

use vstd::prelude::*;

verus! {

broadcast use vstd::seq::group_seq_axioms;

/// The decimal digit character for `d`.
pub open spec fn digit_char(d: nat) -> char {
    if d == 0 {
        '0'
    } else if d == 1 {
        '1'
    } else if d == 2 {
        '2'
    } else if d == 3 {
        '3'
    } else if d == 4 {
        '4'
    } else if d == 5 {
        '5'
    } else if d == 6 {
        '6'
    } else if d == 7 {
        '7'
    } else if d == 8 {
        '8'
    } else {
        '9'
    }
}

/// The decimal digits of `n`, most significant first, without leading
/// zeroes.
pub open spec fn dec_digits(n: nat) -> Seq<char>
    decreases n,
{
    if n < 10 {
        seq![digit_char(n)]
    } else {
        dec_digits(n / 10).push(digit_char(n % 10))
    }
}

/// The sequence that hides the cursor.
pub open spec fn esc_cursor_hide() -> Seq<char> {
    seq!['\u{1b}', '[', '?', '2', '5', 'l']
}

/// The sequence that shows the cursor.
pub open spec fn esc_cursor_show() -> Seq<char> {
    seq!['\u{1b}', '[', '?', '2', '5', 'h']
}

/// The sequence that saves the cursor position.
pub open spec fn esc_cursor_save() -> Seq<char> {
    seq!['\u{1b}', '[', 's']
}

/// The sequence that restores the saved cursor position.
pub open spec fn esc_cursor_restore() -> Seq<char> {
    seq!['\u{1b}', '[', 'u']
}

/// The sequence that moves the cursor `n` columns to the left.
pub open spec fn esc_cursor_backward(n: nat) -> Seq<char> {
    seq!['\u{1b}', '['] + dec_digits(n) + seq!['D']
}

/// The sequence that selects color `code`.
pub open spec fn esc_color_on(code: nat) -> Seq<char> {
    seq!['\u{1b}', '['] + dec_digits(code) + seq!['m']
}

/// The sequence that resets all colors and attributes.
pub open spec fn esc_color_reset() -> Seq<char> {
    seq!['\u{1b}', '[', '0', 'm']
}

/// Relies on `ansi_escapes::CursorHide`: it prints `ESC [ ? 2 5 l`.
#[verifier::external_body]
pub fn cursor_hide() -> (r: String)
    ensures
        r@ == esc_cursor_hide(),
{
    format!("{}", ansi_escapes::CursorHide)
}

/// Relies on `ansi_escapes::CursorShow`: it prints `ESC [ ? 2 5 h`.
#[verifier::external_body]
pub fn cursor_show() -> (r: String)
    ensures
        r@ == esc_cursor_show(),
{
    format!("{}", ansi_escapes::CursorShow)
}

/// Relies on `ansi_escapes::CursorSavePosition`: it prints `ESC [ s`.
#[verifier::external_body]
pub fn cursor_save_position() -> (r: String)
    ensures
        r@ == esc_cursor_save(),
{
    format!("{}", ansi_escapes::CursorSavePosition)
}

/// Relies on `ansi_escapes::CursorRestorePosition`: it prints `ESC [ u`.
#[verifier::external_body]
pub fn cursor_restore_position() -> (r: String)
    ensures
        r@ == esc_cursor_restore(),
{
    format!("{}", ansi_escapes::CursorRestorePosition)
}

/// Relies on `ansi_escapes::CursorBackward`: it prints `ESC [`, the column
/// count in decimal, and `D`.
#[verifier::external_body]
pub fn cursor_backward(n: u16) -> (r: String)
    ensures
        r@ == esc_cursor_backward(n as nat),
{
    format!("{}", ansi_escapes::CursorBackward(n))
}

/// Relies on `String::push`: it appends exactly the one character.
#[verifier::external_body]
pub fn push_char(s: &mut String, c: char)
    ensures
        final(s)@ == old(s)@.push(c),
{
    s.push(c);
}

/// The decimal digit character for `d`.
pub fn digit_char_of(d: u8) -> (r: char)
    requires
        d < 10,
    ensures
        r == digit_char(d as nat),
{
    if d == 0 {
        '0'
    } else if d == 1 {
        '1'
    } else if d == 2 {
        '2'
    } else if d == 3 {
        '3'
    } else if d == 4 {
        '4'
    } else if d == 5 {
        '5'
    } else if d == 6 {
        '6'
    } else if d == 7 {
        '7'
    } else if d == 8 {
        '8'
    } else {
        '9'
    }
}

/// Writes `n` in decimal, most significant digit first.
pub fn u8_to_decimal(n: u8) -> (r: String)
    ensures
        r@ == dec_digits(n as nat),
{
    let mut s = String::new();
    if n >= 100 {
        push_char(&mut s, digit_char_of(n / 100));
        push_char(&mut s, digit_char_of((n / 10) % 10));
        push_char(&mut s, digit_char_of(n % 10));
        proof {
            let v = n as nat;
            let m = v / 10;
            assert(m == (n / 10) as nat);
            assert(10 <= m < 100);
            assert(m / 10 == v / 100);
            assert(v / 100 == (n / 100) as nat);
            assert(m / 10 < 10);
            assert(dec_digits(m / 10) == seq![digit_char(m / 10)]);
            assert(dec_digits(m) == dec_digits(m / 10).push(digit_char(m % 10)));
            assert(dec_digits(v) == dec_digits(m).push(digit_char(v % 10)));
            assert(m % 10 == ((n / 10) % 10) as nat);
            assert(v % 10 == (n % 10) as nat);
            assert(s@ =~= dec_digits(n as nat));
        }
    } else if n >= 10 {
        push_char(&mut s, digit_char_of(n / 10));
        push_char(&mut s, digit_char_of(n % 10));
        proof {
            let v = n as nat;
            assert(v / 10 < 10);
            assert(v / 10 == (n / 10) as nat);
            assert(dec_digits(v / 10) == seq![digit_char(v / 10)]);
            assert(dec_digits(v) == dec_digits(v / 10).push(digit_char(v % 10)));
            assert(s@ =~= dec_digits(n as nat));
        }
    } else {
        push_char(&mut s, digit_char_of(n));
        proof {
            assert(s@ =~= dec_digits(n as nat));
        }
    }
    s
}

/// The color-selection escape for `code`.
pub fn color_on(code: u8) -> (r: String)
    ensures
        r@ == esc_color_on(code as nat),
{
    let mut s = String::new();
    push_char(&mut s, '\u{1b}');
    push_char(&mut s, '[');
    let digits = u8_to_decimal(code);
    s.append(digits.as_str());
    push_char(&mut s, 'm');
    proof {
        assert(s@ =~= esc_color_on(code as nat));
    }
    s
}

/// The color-reset escape.
pub fn color_reset() -> (r: String)
    ensures
        r@ == esc_color_reset(),
{
    let mut s = String::new();
    push_char(&mut s, '\u{1b}');
    push_char(&mut s, '[');
    push_char(&mut s, '0');
    push_char(&mut s, 'm');
    proof {
        assert(s@ =~= esc_color_reset());
    }
    s
}

} // verus!
