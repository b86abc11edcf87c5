use sudo_askpass::session::Config;
use sudo_askpass::session::Session;
use sudo_askpass::spinner::effective_offset;
use sudo_askpass::spinner::render;
use sudo_askpass::spinner::spinner_offset;
use sudo_askpass::spinner::SpinType;

#[test]
fn default_config() {
    let c = Config::default();
    assert!(!c.secure);
    assert_eq!(c.prompt.prompt_text, "Enter password < $ > ");
}

#[test]
fn new_session_is_empty() {
    let mut s = Session::new(Config::default());
    assert!(!s.is_done());
    assert_eq!(s.password_string(), "");
    let out = s.handle_char('\n');
    assert_eq!(out, "\n");
    assert!(s.is_done());
}

#[test]
fn typing_masks_and_newline_finishes() {
    let mut s = Session::new(Config::default());
    let out = s.handle_char('a');
    assert!(out.starts_with('*'));
    let out = s.handle_char('b');
    assert!(out.starts_with('*'));
    let out = s.handle_char('\n');
    assert_eq!(out, "\n");
    assert!(s.is_done());
    assert_eq!(s.password_string(), "ab");
}

#[test]
fn offsets_across_a_whole_session() {
    // template offset 4; typing three characters then erasing one walks the
    // effective offset up with the buffer and back down on the pop
    let config = Config::default();
    let offset = spinner_offset("Enter password < $ > ");
    assert_eq!(offset, 4);

    let mut s = Session::new(config.clone());
    let prompt = config.prompt.clone();
    let mut shadow_cursor = 0;

    let mut offsets = Vec::new();
    let begin = s.begin();
    let empty_render = render(SpinType::Empty, &prompt, 0, &mut shadow_cursor);
    assert!(begin.ends_with(&empty_render));
    assert!(begin.starts_with("\x1b[33mEnter password < $ > \x1b[0m"));
    offsets.push(effective_offset(SpinType::Empty, offset, 0));

    for (i, c) in ['a', 'b', 'c'].into_iter().enumerate() {
        let out = s.handle_char(c);
        let expected = format!(
            "*{}",
            render(SpinType::Forward, &prompt, i + 1, &mut shadow_cursor)
        );
        assert_eq!(out, expected);
        offsets.push(effective_offset(SpinType::Forward, offset, i + 1));
    }

    let out = s.handle_char('\u{7f}');
    let expected = format!(
        "\x1b[1D \x1b[1D{}",
        render(SpinType::Backward, &prompt, 2, &mut shadow_cursor)
    );
    assert_eq!(out, expected);
    offsets.push(effective_offset(SpinType::Backward, offset, 2));

    let out = s.handle_char('\n');
    assert_eq!(out, "\n");
    assert_eq!(offsets, vec![4, 5, 6, 7, 6]);
    assert_eq!(s.password_string(), "ab");
}

#[test]
fn secure_mode_pins_the_column_and_masks_nothing() {
    let mut config = Config::default();
    config.secure = true;
    let mut s = Session::new(config.clone());
    let prompt = config.prompt;
    for c in ['s', 'e', 'c', 'r', 'e', 't'] {
        let out = s.handle_char(c);
        let mut shadow_cursor = 0;
        let expected = render(SpinType::Secure, &prompt, 0, &mut shadow_cursor);
        // no mask glyph, and the same pinned render whatever the buffer holds
        assert_eq!(out, expected);
        assert!(out.contains("\x1b[4D"));
        assert!(!out.contains('*'));
    }
    s.handle_char('\n');
    assert_eq!(s.password_string(), "secret");
}

#[test]
fn secure_backspace_is_silent_until_empty() {
    let mut config = Config::default();
    config.secure = true;
    let mut s = Session::new(config.clone());
    s.handle_char('a');
    s.handle_char('b');
    let out = s.handle_char('\u{7f}');
    assert_eq!(out, "");
    let out = s.handle_char('\u{7f}');
    let mut shadow_cursor = 0;
    let expected = render(SpinType::Empty, &config.prompt, 0, &mut shadow_cursor);
    assert_eq!(out, expected);
    assert_eq!(s.password_string(), "");
}

#[test]
fn backspace_on_empty_buffer_rerenders_empty() {
    let config = Config::default();
    let mut s = Session::new(config.clone());
    let out = s.handle_char('\u{7f}');
    let mut shadow_cursor = 0;
    let expected = render(SpinType::Empty, &config.prompt, 0, &mut shadow_cursor);
    assert_eq!(out, expected);
    assert_eq!(s.password_string(), "");
}

#[test]
fn backspace_to_empty_also_rerenders_empty() {
    let config = Config::default();
    let mut s = Session::new(config.clone());
    s.handle_char('x');
    let out = s.handle_char('\u{7f}');
    // the erase, the backward render, then the empty indicator
    assert!(out.starts_with("\x1b[1D \x1b[1D"));
    let mut shadow_cursor = 1;
    let backward = render(SpinType::Backward, &config.prompt, 0, &mut shadow_cursor);
    let empty = render(SpinType::Empty, &config.prompt, 0, &mut shadow_cursor);
    assert_eq!(out, format!("\x1b[1D \x1b[1D{}{}", backward, empty));
    assert_eq!(s.password_string(), "");
}

#[test]
fn non_ascii_password_characters() {
    let mut s = Session::new(Config::default());
    s.handle_char('p');
    s.handle_char('\u{e4}');
    s.handle_char('\u{2603}');
    s.handle_char('\n');
    assert_eq!(s.password_string(), "p\u{e4}\u{2603}");
}
