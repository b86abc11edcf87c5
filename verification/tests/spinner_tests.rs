use sudo_askpass::escapes::color_on;
use sudo_askpass::escapes::color_reset;
use sudo_askpass::escapes::cursor_backward;
use sudo_askpass::escapes::cursor_hide;
use sudo_askpass::escapes::cursor_restore_position;
use sudo_askpass::escapes::cursor_save_position;
use sudo_askpass::escapes::cursor_show;
use sudo_askpass::escapes::u8_to_decimal;
use sudo_askpass::spinner::effective_offset;
use sudo_askpass::spinner::render;
use sudo_askpass::spinner::spinner_offset;
use sudo_askpass::spinner::Prompt;
use sudo_askpass::spinner::SpinType;

#[test]
fn escape_wrappers_emit_exact_sequences() {
    assert_eq!(cursor_hide(), "\x1b[?25l");
    assert_eq!(cursor_show(), "\x1b[?25h");
    assert_eq!(cursor_save_position(), "\x1b[s");
    assert_eq!(cursor_restore_position(), "\x1b[u");
    assert_eq!(cursor_backward(1), "\x1b[1D");
    assert_eq!(cursor_backward(23), "\x1b[23D");
    assert_eq!(cursor_backward(407), "\x1b[407D");
}

#[test]
fn decimal_rendering() {
    assert_eq!(u8_to_decimal(0), "0");
    assert_eq!(u8_to_decimal(7), "7");
    assert_eq!(u8_to_decimal(10), "10");
    assert_eq!(u8_to_decimal(36), "36");
    assert_eq!(u8_to_decimal(100), "100");
    assert_eq!(u8_to_decimal(255), "255");
}

#[test]
fn color_escapes() {
    assert_eq!(color_on(36), "\x1b[36m");
    assert_eq!(color_on(33), "\x1b[33m");
    assert_eq!(color_reset(), "\x1b[0m");
}

#[test]
fn default_prompt_configuration() {
    let p = Prompt::default();
    assert_eq!(p.icons_ansi_color, 36);
    assert_eq!(p.prompt_ansi_color, 33);
    assert_eq!(p.characters.len(), 24);
    assert_eq!(p.empty, '\u{f10d3}');
    assert_eq!(p.secure, '\u{f099d}');
    assert_eq!(p.prompt_text, "Enter password < $ > ");
}

#[test]
fn offset_of_default_template() {
    assert_eq!(spinner_offset("Enter password < $ > "), 4);
}

#[test]
fn offset_strips_embedded_colors() {
    // the template's own color codes take no columns
    assert_eq!(spinner_offset("\x1b[33mEnter < $ > \x1b[0m"), 4);
    assert_eq!(spinner_offset("$"), 1);
    assert_eq!(spinner_offset("> $ <"), 3);
}

#[test]
fn effective_offsets_follow_buffer() {
    assert_eq!(effective_offset(SpinType::Empty, 4, 0), 4);
    assert_eq!(effective_offset(SpinType::Forward, 4, 3), 7);
    assert_eq!(effective_offset(SpinType::Backward, 4, 2), 6);
}

#[test]
fn secure_offset_is_pinned() {
    for len in 0..100 {
        assert_eq!(effective_offset(SpinType::Secure, 4, len), 4);
    }
}

#[test]
fn render_empty_exact_bytes() {
    let p = Prompt::default();
    let mut cursor = 0;
    let out = render(SpinType::Empty, &p, 0, &mut cursor);
    assert_eq!(out, "\x1b[?25l\x1b[s\x1b[4D\x1b[36m\u{f10d3}\x1b[0m\x1b[u\x1b[?25h");
    assert_eq!(cursor, 0);
}

#[test]
fn render_forward_draws_and_advances() {
    let p = Prompt::default();
    let mut cursor = 0;
    let out = render(SpinType::Forward, &p, 1, &mut cursor);
    let expected = format!(
        "\x1b[?25l\x1b[s\x1b[5D\x1b[36m{}\x1b[0m\x1b[u\x1b[?25h",
        p.characters[0]
    );
    assert_eq!(out, expected);
    assert_eq!(cursor, 1);
}

#[test]
fn render_backward_draws_previous_glyph() {
    let p = Prompt::default();
    let mut cursor = 0;
    // two forward draws, then one backward step
    render(SpinType::Forward, &p, 1, &mut cursor);
    render(SpinType::Forward, &p, 2, &mut cursor);
    assert_eq!(cursor, 2);
    let out = render(SpinType::Backward, &p, 1, &mut cursor);
    assert_eq!(cursor, 1);
    // it draws the glyph one position behind the next forward draw
    assert!(out.contains(p.characters[0]));
}

#[test]
fn backward_after_k_forwards_lands_one_behind() {
    let p = Prompt::default();
    let n = p.characters.len();
    for k in 0..(2 * n + 3) {
        let mut cursor = 0;
        for i in 0..k {
            render(SpinType::Forward, &p, i + 1, &mut cursor);
        }
        assert_eq!(cursor, k % n);
        render(SpinType::Backward, &p, 0, &mut cursor);
        assert_eq!(cursor, (k + n - 1) % n);
    }
}

#[test]
fn fixed_glyphs_leave_cursor_alone() {
    let p = Prompt::default();
    let mut cursor = 5;
    render(SpinType::Empty, &p, 0, &mut cursor);
    assert_eq!(cursor, 5);
    render(SpinType::Secure, &p, 9, &mut cursor);
    assert_eq!(cursor, 5);
}

#[test]
fn single_glyph_cycle_wraps_in_place() {
    let p = Prompt {
        characters: vec!['+'],
        ..Prompt::default()
    };
    let mut cursor = 0;
    render(SpinType::Forward, &p, 1, &mut cursor);
    assert_eq!(cursor, 0);
    render(SpinType::Backward, &p, 0, &mut cursor);
    assert_eq!(cursor, 0);
}
