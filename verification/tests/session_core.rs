use pty_session::ansi::{parse_ansi, strip_str, Color, Span};
use pty_session::console::TopgradeApp;
use pty_session::line_buffer::LineBuffer;
use pty_session::prompt::{detect_prompt, detect_secret};
use pty_session::reader::{OutMsg, OutputReader, ReadEvent};

fn chars(s: &str) -> Vec<char> {
    s.chars().collect()
}

fn string_of(v: &Vec<char>) -> String {
    v.iter().collect()
}

#[test]
fn carriage_return_replaces_whole_line() {
    let mut lb = LineBuffer::new();
    lb.feed("AAAA\rBB");
    assert_eq!(lb.line_count(), 0);
    assert_eq!(*lb.current_line(), chars("BB"));
}

#[test]
fn newline_commits_lines() {
    let mut lb = LineBuffer::new();
    lb.feed("one\ntwo\nthr");
    assert_eq!(lb.line_count(), 2);
    assert_eq!(*lb.line_at(0), chars("one"));
    assert_eq!(*lb.line_at(1), chars("two"));
    assert_eq!(*lb.current_line(), chars("thr"));
    assert_eq!(lb.cursor_col(), 3);
}

#[test]
fn carriage_return_alone_keeps_text() {
    let mut lb = LineBuffer::new();
    lb.feed("50%\r");
    assert_eq!(lb.line_count(), 0);
    assert_eq!(*lb.current_line(), chars("50%"));
    assert_eq!(lb.cursor_col(), 0);
}

#[test]
fn finalized_count_is_chunk_independent() {
    let stream = "alpha\nbeta\rgamma\n\ndelta";
    let mut whole = LineBuffer::new();
    whole.feed(stream);

    let mut pieces = LineBuffer::new();
    pieces.feed("alp");
    pieces.feed("ha\nbe");
    pieces.feed("ta\rgam");
    pieces.feed("ma\n\nde");
    pieces.feed("lta");

    let newlines = stream.chars().filter(|c| *c == '\n').count();
    assert_eq!(whole.line_count(), newlines);
    assert_eq!(pieces.line_count(), newlines);
    assert_eq!(*pieces.current_line(), *whole.current_line());
    assert_eq!(*pieces.line_at(1), *whole.line_at(1));
}

#[test]
fn strip_removes_color_and_movement_sequences() {
    assert_eq!(strip_str("\u{1b}[31mred\u{1b}[0m"), "red");
    assert_eq!(strip_str("\u{1b}[2K\u{1b}[1Gtext"), "text");
    assert_eq!(strip_str("plain"), "plain");
}

#[test]
fn strip_drops_stray_escapes() {
    assert_eq!(strip_str("a\u{1b}b"), "ab");
    assert_eq!(strip_str("tail\u{1b}["), "tail[");
}

#[test]
fn strip_is_idempotent_on_samples() {
    let samples = [
        "\u{1b}[31mred\u{1b}[0m plain",
        "a\u{1b}[1;32mb\u{1b}[mc",
        "\u{1b}\u{1b}[31mx",
        "\u{1b}[12;",
        "no escapes at all",
    ];
    for s in samples {
        let once = strip_str(s);
        let twice = strip_str(&once);
        assert_eq!(once, twice);
    }
}

#[test]
fn styling_cuts_exactly_two_spans() {
    let spans = parse_ansi("\u{1b}[31mHello\u{1b}[0m World");
    assert_eq!(spans.len(), 2);
    assert_eq!(
        spans[0],
        Span { text: "Hello".to_string(), fg: Some(Color::Red), bg: None, bold: false }
    );
    assert_eq!(
        spans[1],
        Span { text: " World".to_string(), fg: None, bg: None, bold: false }
    );
}

#[test]
fn styling_combines_bold_and_color() {
    let spans = parse_ansi("\u{1b}[1;32mok");
    assert_eq!(spans.len(), 1);
    assert_eq!(spans[0].fg, Some(Color::Green));
    assert!(spans[0].bold);
}

#[test]
fn styling_empty_parameter_list_resets() {
    let spans = parse_ansi("\u{1b}[1;91mhot\u{1b}[mcold");
    assert_eq!(spans.len(), 2);
    assert_eq!(spans[0].fg, Some(Color::BrightRed));
    assert!(spans[0].bold);
    assert_eq!(spans[1].fg, None);
    assert!(!spans[1].bold);
}

#[test]
fn styling_background_codes_are_invisible() {
    let spans = parse_ansi("\u{1b}[41mx");
    assert_eq!(spans.len(), 1);
    assert_eq!(spans[0].fg, None);
    assert_eq!(spans[0].bg, None);
}

#[test]
fn styling_ignores_unknown_codes_and_non_sgr() {
    let spans = parse_ansi("\u{1b}[99ma\u{1b}[2Kb");
    assert_eq!(spans.len(), 1);
    assert_eq!(spans[0].text, "a\u{1b}[2Kb");
    assert_eq!(spans[0].fg, None);
}

#[test]
fn prompt_detector_flags_expected_phrases() {
    assert!(detect_prompt("Password: "));
    assert!(detect_prompt("[sudo] password for user:"));
    assert!(detect_prompt("Continue? [y/N]"));
    assert!(!detect_prompt("Done."));
}

#[test]
fn secret_detector_needs_colon_and_phrase() {
    assert!(detect_secret("Password: "));
    assert!(detect_secret("Enter passphrase for key:"));
    assert!(detect_secret("Senha: "));
    assert!(!detect_secret("Continue? [y/N]"));
    assert!(!detect_secret("password changed"));
}

#[test]
fn reader_emits_outputs_then_single_exit() {
    let mut r = OutputReader::new();
    let m1 = r.step(ReadEvent::Data(b"one".to_vec()));
    match m1 {
        Some(OutMsg::Output(b)) => assert_eq!(b, b"one".to_vec()),
        _ => panic!("expected an output message"),
    }
    assert!(!r.is_done());
    let m2 = r.step(ReadEvent::Eof);
    assert!(matches!(m2, Some(OutMsg::Exit)));
    assert!(r.is_done());
    assert!(r.step(ReadEvent::Data(b"late".to_vec())).is_none());
}

#[test]
fn reader_treats_empty_read_and_error_as_terminal() {
    let mut r = OutputReader::new();
    assert!(matches!(r.step(ReadEvent::Data(Vec::new())), Some(OutMsg::Exit)));
    let mut r2 = OutputReader::new();
    assert!(matches!(r2.step(ReadEvent::Failed), Some(OutMsg::Exit)));
}

#[test]
fn termination_observed_after_all_output() {
    let mut console = TopgradeApp::new();
    console.begin_session();
    assert!(console.is_running());
    console.apply_message(OutMsg::Output(b"a".to_vec()));
    console.apply_message(OutMsg::Output(b"\r".to_vec()));
    console.apply_message(OutMsg::Output(b"b".to_vec()));
    assert!(console.is_running());
    console.apply_message(OutMsg::Exit);
    assert!(console.is_finished());
    assert_eq!(console.lines().line_count(), 0);
    assert_eq!(string_of(console.lines().current_line()), "b");
}

#[test]
fn output_messages_decode_utf8() {
    let mut console = TopgradeApp::new();
    console.begin_session();
    console.apply_message(OutMsg::Output(vec![0xE2, 0x82, 0xAC, b'\n']));
    assert_eq!(string_of(console.lines().line_at(0)), "\u{20ac}");
}

#[test]
fn invalid_bytes_become_placeholders() {
    let mut console = TopgradeApp::new();
    console.begin_session();
    console.apply_message(OutMsg::Output(vec![b'x', 0xFF, b'y']));
    assert_eq!(string_of(console.lines().current_line()), "x\u{fffd}y");
}

#[test]
fn input_router_filters_control_characters() {
    let mut console = TopgradeApp::new();
    console.begin_session();
    console.push_input_text("ab\u{7}c\u{1b}");
    assert_eq!(console.pending_input(), "abc");
    console.input_backspace();
    assert_eq!(console.pending_input(), "ab");
    console.input_backspace();
    console.input_backspace();
    console.input_backspace();
    assert_eq!(console.pending_input(), "");
}

#[test]
fn submission_terminates_clears_and_unmasks() {
    let mut console = TopgradeApp::new();
    console.begin_session();
    console.apply_message(OutMsg::Output(b"Password: ".to_vec()));
    assert!(console.password_mode());
    assert!(console.input_expected());
    console.push_input_text("hunter");
    console.push_input_text("2");
    let line = console.take_submission();
    assert_eq!(line, "hunter2\n");
    assert_eq!(console.pending_input().len(), 0);
    assert!(!console.password_mode());
}

#[test]
fn begin_session_discards_previous_state() {
    let mut console = TopgradeApp::new();
    console.begin_session();
    console.apply_message(OutMsg::Output(b"old\nstate".to_vec()));
    console.push_input_text("typed");
    console.apply_message(OutMsg::Exit);
    console.begin_session();
    assert!(console.is_running());
    assert!(!console.is_finished());
    assert_eq!(console.lines().line_count(), 0);
    assert_eq!(console.lines().current_line().len(), 0);
    assert_eq!(console.pending_input().len(), 0);
}

#[test]
fn overwrite_applies_to_whole_line_not_columns() {
    let mut lb = LineBuffer::new();
    lb.feed("abc\rX");
    assert_eq!(*lb.current_line(), chars("X"));
    lb.feed("\r\n");
    assert_eq!(lb.line_count(), 1);
    assert_eq!(*lb.line_at(0), chars("X"));
    assert_eq!(*lb.current_line(), chars(""));
}

#[test]
fn styling_covers_both_palette_halves() {
    let spans = parse_ansi("\u{1b}[35ma\u{1b}[36mb\u{1b}[95mc\u{1b}[96md");
    assert_eq!(spans.len(), 4);
    assert_eq!(spans[0].fg, Some(Color::Magenta));
    assert_eq!(spans[1].fg, Some(Color::Cyan));
    assert_eq!(spans[2].fg, Some(Color::BrightMagenta));
    assert_eq!(spans[3].fg, Some(Color::BrightCyan));
}

#[test]
fn detection_is_case_insensitive() {
    assert!(detect_prompt("PASSWORD required"));
    assert!(detect_secret("PASSWORD:"));
    assert!(detect_prompt("Continuar? [s/N]"));
    assert!(detect_prompt("Proceed? "));
}

#[test]
fn detector_never_alters_buffered_content() {
    let mut console = TopgradeApp::new();
    console.begin_session();
    console.apply_message(OutMsg::Output(b"Password: ".to_vec()));
    assert_eq!(string_of(console.lines().current_line()), "Password: ");
}
