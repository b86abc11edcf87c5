use sudo_askpass::ansi::find_ansi_code_exclusive;
use sudo_askpass::ansi::strip_ansi_codes;
use sudo_askpass::ansi::AnsiCodeIterator;
use sudo_askpass::ansi::Matches;

/// Collects all spans of `s` in order.
fn spans(s: &str) -> Vec<(String, bool)> {
    let mut it = AnsiCodeIterator::new(s);
    let mut out = Vec::new();
    while let Some((t, is_esc)) = it.next() {
        out.push((t.to_string(), is_esc));
    }
    out
}

#[test]
fn no_introducer_no_match() {
    let s = "just ordinary text, nothing fancy";
    assert_eq!(find_ansi_code_exclusive(s, 0), None);
    assert_eq!(strip_ansi_codes(s), s);
}

#[test]
fn empty_input() {
    assert_eq!(find_ansi_code_exclusive("", 0), None);
    assert_eq!(strip_ansi_codes(""), "");
    assert_eq!(spans(""), Vec::<(String, bool)>::new());
}

#[test]
fn greedy_two_matches() {
    let s = "\x1b[1;31mHELLO\x1b[0m";
    let mut m = Matches::new(s);
    let first = m.next().expect("first match");
    assert_eq!(first.as_str(), "\x1b[1;31m");
    assert_eq!((first.start, first.end), (0, 7));
    let second = m.next().expect("second match");
    assert_eq!(second.as_str(), "\x1b[0m");
    assert_eq!((second.start, second.end), (12, 16));
    assert!(m.next().is_none());
    assert_eq!(strip_ansi_codes(s), "HELLO");
}

#[test]
fn invalid_sequence_yields_no_match() {
    assert_eq!(find_ansi_code_exclusive("\x1b!", 0), None);
    assert_eq!(strip_ansi_codes("\x1b!"), "\x1b!");
}

#[test]
fn scan_resumes_after_failed_attempt() {
    // the first introducer never completes; the second does
    let s = "x\x1b!y\x1b[0m";
    assert_eq!(find_ansi_code_exclusive(s, 0), Some((4, 8)));
    assert_eq!(strip_ansi_codes(s), "x\x1b!y");
}

#[test]
fn lone_introducer_before_sequence() {
    // ESC ESC [ 0 m: the first attempt traps on the second introducer,
    // which then starts the real match
    let s = "\x1b\x1b[0m";
    assert_eq!(find_ansi_code_exclusive(s, 0), Some((1, 5)));
    assert_eq!(strip_ansi_codes(s), "\x1b");
}

#[test]
fn csi_introducer() {
    let s = "\u{9b}0mXY";
    assert_eq!(find_ansi_code_exclusive(s, 0), Some((0, 3)));
    assert_eq!(strip_ansi_codes(s), "XY");
}

#[test]
fn charset_selection_sequence() {
    // ESC ( 0 selects a charset: a complete three-character sequence
    let s = "a\x1b(0b";
    assert_eq!(find_ansi_code_exclusive(s, 0), Some((1, 4)));
    assert_eq!(strip_ansi_codes(s), "ab");
}

#[test]
fn find_from_later_position() {
    let s = "\x1b[1m\x1b[2m";
    assert_eq!(find_ansi_code_exclusive(s, 0), Some((0, 4)));
    assert_eq!(find_ansi_code_exclusive(s, 1), Some((4, 8)));
    assert_eq!(find_ansi_code_exclusive(s, 5), None);
}

#[test]
fn span_iterator_alternates() {
    let s = "one\x1b[31mtwo\x1b[0mthree";
    assert_eq!(
        spans(s),
        vec![
            ("one".to_string(), false),
            ("\x1b[31m".to_string(), true),
            ("two".to_string(), false),
            ("\x1b[0m".to_string(), true),
            ("three".to_string(), false),
        ]
    );
}

#[test]
fn span_iterator_leading_escape() {
    let s = "\x1b[1mbold";
    assert_eq!(
        spans(s),
        vec![("\x1b[1m".to_string(), true), ("bold".to_string(), false)]
    );
}

#[test]
fn span_partition_reproduces_input() {
    let inputs = [
        "",
        "plain",
        "\x1b[1;31mHELLO\x1b[0m",
        "\x1b!broken\x1b[0m tail",
        "a\x1b(0b\u{9b}3m\x1b",
        "mixed \x1b[38;5;200m colors \x1b[0m and \x1b? junk",
        "\x1b\x1b[1m[0m",
    ];
    for s in inputs {
        let joined: String = spans(s).into_iter().map(|(t, _)| t).collect();
        assert_eq!(joined, s);
    }
}

#[test]
fn strip_idempotent_on_clean_inputs() {
    let inputs = [
        "",
        "plain",
        "\x1b[1;31mHELLO\x1b[0m",
        "\x1b!broken\x1b[0m tail",
        "mixed \x1b[38;5;200m colors \x1b[0m end",
    ];
    for s in inputs {
        let once = strip_ansi_codes(s);
        let twice = strip_ansi_codes(&once);
        assert_eq!(twice, once);
    }
}

#[test]
fn strip_can_rejoin_a_dangling_introducer() {
    // removing the inner sequence joins the leading ESC with the tail into
    // a new sequence, so a second pass strips again
    let s = "\x1b\x1b[1m[0m";
    let once = strip_ansi_codes(s);
    assert_eq!(once, "\x1b[0m");
    assert_eq!(strip_ansi_codes(&once), "");
}

#[test]
fn matches_stays_exhausted() {
    let mut m = Matches::new("\x1b[1mx");
    assert!(m.next().is_some());
    assert!(m.next().is_none());
    assert!(m.next().is_none());
}

#[test]
fn span_iterator_stays_exhausted() {
    let mut it = AnsiCodeIterator::new("x");
    assert_eq!(it.next(), Some(("x", false)));
    assert_eq!(it.next(), None);
    assert_eq!(it.next(), None);
}

#[test]
fn long_parameter_runs_match() {
    // digit and separator runs of arbitrary length before the final byte
    let s = "\x1b[1;22;333;4444m!";
    assert_eq!(find_ansi_code_exclusive(s, 0), Some((0, 16)));
    assert_eq!(strip_ansi_codes(s), "!");
}
