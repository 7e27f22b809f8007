use headr::bytes::{render_bytes, take_bytes};
use headr::input::{resolve, Source};
use headr::lines::{take_lines, LineLimit};
use headr::options::{Invocation, Mode, UsageError};
use headr::report::{open_error_line, RunState};

#[test]
fn three_lines_with_ten_requested_are_all_shown() {
    let data = b"one\ntwo\nthree\n";
    let k = take_lines(data, 10);
    assert_eq!(k, data.len());
    assert_eq!(&data[..k], b"one\ntwo\nthree\n");
}

#[test]
fn lines_are_cut_after_the_requested_count() {
    let data = b"a\nbb\nccc\ndddd\n";
    assert_eq!(take_lines(data, 1), 2);
    assert_eq!(take_lines(data, 2), 5);
    assert_eq!(take_lines(data, 3), 9);
    assert_eq!(take_lines(data, 4), 14);
}

#[test]
fn last_line_without_newline_is_kept_as_is() {
    let data = b"x\ny";
    assert_eq!(take_lines(data, 2), 3);
    assert_eq!(take_lines(data, 5), 3);
    assert_eq!(take_lines(data, 1), 2);
}

#[test]
fn crlf_terminators_are_kept() {
    let data = b"a\r\nb\r\nc\r\n";
    assert_eq!(&data[..take_lines(data, 2)], b"a\r\nb\r\n");
}

#[test]
fn empty_input_shows_nothing() {
    assert_eq!(take_lines(b"", 10), 0);
    assert_eq!(render_bytes(b"", 10), "");
}

#[test]
fn empty_lines_count_as_lines() {
    let data = b"\n\n\nabc\n";
    assert_eq!(take_lines(data, 2), 2);
    assert_eq!(take_lines(data, 4), 7);
}

#[test]
fn line_limit_fed_in_pieces_matches_a_whole_cut() {
    let data = b"first\nsecond\nthird\nfourth\n";
    let whole = take_lines(data, 3);
    let mut limit = LineLimit::new(3);
    let mut shown: Vec<u8> = Vec::new();
    for piece in data.chunks(4) {
        if limit.is_done() {
            break;
        }
        let k = limit.feed(piece);
        shown.extend_from_slice(&piece[..k]);
    }
    assert!(limit.is_done());
    assert_eq!(shown, data[..whole].to_vec());
    assert_eq!(shown, b"first\nsecond\nthird\n".to_vec());
}

#[test]
fn line_limit_on_short_input_stays_open() {
    let mut limit = LineLimit::new(5);
    assert_eq!(limit.feed(b"a\nb"), 3);
    assert!(!limit.is_done());
    assert_eq!(limit.feed(b"\nc\nd\ne\nf\n"), 7);
    assert!(limit.is_done());
}

#[test]
fn bytes_read_are_the_smaller_of_count_and_size() {
    assert_eq!(take_bytes(100, 5), 5);
    assert_eq!(take_bytes(3, 5), 3);
    assert_eq!(take_bytes(0, 1), 0);
    assert_eq!(take_bytes(usize::MAX, u32::MAX), u32::MAX as usize);
}

#[test]
fn bytes_of_ascii_text() {
    assert_eq!(render_bytes(b"hello world", 5), "hello");
    assert_eq!(render_bytes(b"hi", 5), "hi");
}

#[test]
fn five_bytes_after_a_four_byte_character() {
    let data = "\u{1F600}abc".as_bytes();
    assert_eq!(data.len(), 7);
    assert_eq!(render_bytes(data, 5), "\u{1F600}a");
}

#[test]
fn split_character_becomes_a_replacement() {
    let data = "\u{1F600}abc".as_bytes();
    assert_eq!(render_bytes(data, 3), "\u{FFFD}");
    let data = "a\u{e9}b".as_bytes();
    assert_eq!(render_bytes(data, 2), "a\u{FFFD}");
}

#[test]
fn invalid_bytes_are_replaced_not_refused() {
    assert_eq!(render_bytes(&[b'o', 0xFF, b'k'], 10), "o\u{FFFD}k");
}

#[test]
fn same_input_same_output() {
    let data = b"alpha\nbeta\ngamma\n";
    assert_eq!(take_lines(data, 2), take_lines(data, 2));
    assert_eq!(render_bytes(data, 7), render_bytes(data, 7));
}

#[test]
fn dash_names_standard_input() {
    assert!(matches!(resolve("-"), Source::Stdin));
    match resolve("notes.txt") {
        Source::File(p) => assert_eq!(p, "notes.txt"),
        Source::Stdin => panic!("a path is not standard input"),
    }
    match resolve("--") {
        Source::File(p) => assert_eq!(p, "--"),
        Source::Stdin => panic!("only a lone dash is standard input"),
    }
    assert!(matches!(resolve(""), Source::File(_)));
}

#[test]
fn single_input_has_no_header() {
    let mut state = RunState::new(1);
    assert!(!state.multi());
    assert_eq!(state.opened("a.txt"), "");
    assert_eq!(state.opened("a.txt"), "");
}

#[test]
fn later_headers_follow_a_blank_line() {
    let mut state = RunState::new(3);
    assert!(state.multi());
    assert_eq!(state.opened("a"), "==> a <==\n");
    assert_eq!(state.opened("b"), "\n==> b <==\n");
    assert_eq!(state.opened("c"), "\n==> c <==\n");
}

#[test]
fn missing_file_leaves_the_first_header_bare() {
    let mut state = RunState::new(2);
    let err = open_error_line("missing.txt", "No such file or directory (os error 2)");
    assert_eq!(err, "missing.txt: No such file or directory (os error 2)");
    assert_eq!(state.opened("present.txt"), "==> present.txt <==\n");
}

#[test]
fn lines_and_bytes_together_are_refused() {
    let r = Invocation::new(vec!["a".to_string()], Some(3), Some(4));
    assert!(matches!(r, Err(UsageError::LinesAndBytes)));
}

#[test]
fn zero_counts_are_refused() {
    assert!(matches!(Invocation::new(vec![], Some(0), None), Err(UsageError::ZeroCount)));
    assert!(matches!(Invocation::new(vec![], None, Some(0)), Err(UsageError::ZeroCount)));
}

#[test]
fn defaults_read_ten_lines_of_standard_input() {
    let inv = match Invocation::new(vec![], None, None) {
        Ok(inv) => inv,
        Err(_) => panic!("defaults are valid"),
    };
    assert_eq!(inv.files, vec!["-".to_string()]);
    assert_eq!(inv.mode, Mode::Lines(10));
    assert!(!inv.is_multi());
}

#[test]
fn byte_count_selects_byte_mode() {
    let inv = match Invocation::new(vec!["a".to_string(), "b".to_string()], None, Some(8)) {
        Ok(inv) => inv,
        Err(_) => panic!("a byte count alone is valid"),
    };
    assert_eq!(inv.mode, Mode::Bytes(8));
    assert!(inv.is_multi());
    assert_eq!(inv.files, vec!["a".to_string(), "b".to_string()]);
}

#[test]
fn line_count_selects_line_mode() {
    let inv = match Invocation::new(vec!["a".to_string()], Some(3), None) {
        Ok(inv) => inv,
        Err(_) => panic!("a line count alone is valid"),
    };
    assert_eq!(inv.mode, Mode::Lines(3));
}
