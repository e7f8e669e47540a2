use rstr::{
    current_file_line, decimal_string, exit_requested, header_title, is_exit_key, results_frame,
    scan_lines, scanning_frame, searching_title, FileStep, Key, MatchRecord, Matcher, Scan,
    TerminalSession, TerminalState,
};

fn lines(v: &[&str]) -> Vec<Option<String>> {
    v.iter().map(|s| Some(s.to_string())).collect()
}

fn texts(records: &[MatchRecord]) -> Vec<String> {
    records.iter().map(|r| r.format()).collect()
}

#[test]
fn example_foo_in_a_txt() {
    let m = Matcher::new("foo").ok().unwrap();
    let found = scan_lines(&m, "a.txt", &lines(&["foo", "bar", "foobar"]));
    assert_eq!(texts(&found), vec!["a.txt:1 : foo", "a.txt:3 : foobar"]);
    let frame = results_frame("foo", &found);
    assert_eq!(frame.lines, vec!["a.txt:1 : foo", "a.txt:3 : foobar"]);
}

#[test]
fn invalid_pattern_is_refused() {
    let e = Matcher::new("foo(").err().unwrap();
    assert_eq!(e.pattern, "foo(");
    assert!(Matcher::new("(").is_err());
    assert!(Matcher::new("a[").is_err());
}

#[test]
fn empty_walk_gives_empty_results_frame() {
    let m = Matcher::new("foo").ok().unwrap();
    let scan = Scan::new(&m);
    let results = scan.finish().unwrap();
    assert!(results.is_empty());
    let frame = results_frame("foo", &results);
    assert_eq!(frame.header, " Search term: 'foo' (Exit: q) ");
    assert_eq!(frame.title, " Found in ");
    assert!(frame.lines.is_empty());
}

#[test]
fn record_count_equals_matching_readable_lines() {
    let m = Matcher::new("^x").ok().unwrap();
    let ls = vec![
        Some("xa".to_string()),
        None,
        Some("ya".to_string()),
        Some("xb".to_string()),
        None,
        Some("x".to_string()),
    ];
    let found = scan_lines(&m, "f", &ls);
    assert_eq!(found.len(), 3);
    let numbers: Vec<usize> = found.iter().map(|r| r.line_number).collect();
    assert_eq!(numbers, vec![1, 4, 6]);
}

#[test]
fn line_numbers_start_at_one_and_increase() {
    let m = Matcher::new("a").ok().unwrap();
    let found = scan_lines(&m, "p", &lines(&["a", "a", "b", "ba"]));
    let numbers: Vec<usize> = found.iter().map(|r| r.line_number).collect();
    assert_eq!(numbers, vec![1, 2, 4]);
    assert!(found.iter().all(|r| r.path == "p"));
}

#[test]
fn no_match_gives_no_records() {
    let m = Matcher::new("zzz").ok().unwrap();
    assert!(scan_lines(&m, "p", &lines(&["a", "b"])).is_empty());
    assert!(scan_lines(&m, "p", &Vec::new()).is_empty());
}

#[test]
fn record_round_trip_with_colons_in_content() {
    let r = MatchRecord {
        path: "dir/file.rs".to_string(),
        line_number: 42,
        content: "let x: u8 = 1; // a: b".to_string(),
    };
    let text = r.format();
    assert_eq!(text, "dir/file.rs:42 : let x: u8 = 1; // a: b");
    let back = MatchRecord::parse(&text).unwrap();
    assert_eq!(back.path, r.path);
    assert_eq!(back.line_number, 42);
    assert_eq!(back.content, r.content);
}

#[test]
fn record_round_trip_empty_content() {
    let r = MatchRecord { path: "a".to_string(), line_number: 1, content: String::new() };
    assert_eq!(r.format(), "a:1 : ");
    let back = MatchRecord::parse("a:1 : ").unwrap();
    assert_eq!(back.path, "a");
    assert_eq!(back.line_number, 1);
    assert_eq!(back.content, "");
}

#[test]
fn parse_refuses_malformed_text() {
    assert!(MatchRecord::parse("no colons").is_none());
    assert!(MatchRecord::parse("a:1").is_none());
    assert!(MatchRecord::parse("a:0 : x").is_none());
    assert!(MatchRecord::parse("a:1x : x").is_none());
    assert!(MatchRecord::parse("a: : x").is_none());
    assert!(MatchRecord::parse("a:1 :x").is_none());
    assert!(MatchRecord::parse("a:99999999999999999999999 : x").is_none());
}

#[test]
fn decimal_digits() {
    assert_eq!(decimal_string(0), "0");
    assert_eq!(decimal_string(7), "7");
    assert_eq!(decimal_string(10), "10");
    assert_eq!(decimal_string(12345), "12345");
    assert_eq!(decimal_string(usize::MAX), usize::MAX.to_string());
}

#[test]
fn scan_twice_gives_same_records() {
    let m = Matcher::new("o").ok().unwrap();
    let files = vec![
        ("a.txt", lines(&["foo", "bar"])),
        ("b/c.txt", lines(&["one", "two", "x"])),
    ];
    let mut first = Scan::new(&m);
    for (p, ls) in &files {
        assert_eq!(first.next_file(false), FileStep::Read);
        first.add_file(&m, p, ls);
    }
    let mut second = Scan::new(&m);
    for (p, ls) in &files {
        if let FileStep::Repaint(_) = second.next_file(true) {
            assert!(!second.on_key(Some(Key::Char('x'))));
        }
        second.add_file(&m, p, ls);
    }
    let a = texts(&first.finish().unwrap());
    let b = texts(&second.finish().unwrap());
    assert_eq!(a, vec!["a.txt:1 : foo", "b/c.txt:1 : one", "b/c.txt:2 : two"]);
    assert_eq!(a, b);
}

#[test]
fn exit_during_scan_shows_no_results() {
    let m = Matcher::new("a").ok().unwrap();
    let mut scan = Scan::new(&m);
    scan.add_file(&m, "f", &lines(&["a"]));
    assert_eq!(scan.next_file(true), FileStep::Repaint(1));
    assert!(!scan.on_key(None));
    assert_eq!(scan.next_file(true), FileStep::Repaint(2));
    assert!(scan.on_key(Some(Key::Char('q'))));
    assert!(scan.finish().is_none());

    let mut scan = Scan::new(&m);
    scan.next_file(true);
    assert!(scan.on_key(Some(Key::Esc)));
    assert!(scan.finish().is_none());
}

#[test]
fn animation_cycles_through_four_frames() {
    let m = Matcher::new("x").ok().unwrap();
    let mut scan = Scan::new(&m);
    let mut seen = Vec::new();
    for _ in 0..6 {
        if let FileStep::Repaint(f) = scan.next_file(true) {
            seen.push(f);
        }
    }
    assert_eq!(seen, vec![1, 2, 3, 0, 1, 2]);
    assert_eq!(scan.next_file(false), FileStep::Read);
}

#[test]
fn searching_titles() {
    assert_eq!(searching_title(0), " Searching    ");
    assert_eq!(searching_title(1), " Searching.   ");
    assert_eq!(searching_title(2), " Searching..  ");
    assert_eq!(searching_title(3), " Searching... ");
    assert_eq!(searching_title(9), " Searching    ");
}

#[test]
fn scanning_frame_texts() {
    let f = scanning_frame("a|b", "src/x.rs", 2);
    assert_eq!(f.header, " Search term: 'a|b' (Exit: q) ");
    assert_eq!(f.title, " Searching..  ");
    assert_eq!(f.lines, vec!["Current file: src/x.rs"]);
    assert_eq!(header_title(""), " Search term: '' (Exit: q) ");
    assert_eq!(current_file_line(""), "Current file: ");
}

#[test]
fn exit_keys() {
    assert!(is_exit_key(Key::Char('q')));
    assert!(is_exit_key(Key::Esc));
    assert!(!is_exit_key(Key::Char('Q')));
    assert!(!is_exit_key(Key::Other));
    assert!(exit_requested(Some(Key::Esc)));
    assert!(!exit_requested(Some(Key::Char('a'))));
    assert!(!exit_requested(None));
}

#[test]
fn matcher_uses_the_regex() {
    let m = Matcher::new(r"^\d+$").ok().unwrap();
    assert_eq!(m.source(), r"^\d+$");
    assert!(m.is_match("123"));
    assert!(!m.is_match("12a"));
    assert!(!m.is_match(""));
}

#[test]
fn terminal_session_released_once() {
    let mut s = TerminalSession::new();
    assert_eq!(s.state(), TerminalState::Uninitialized);
    assert!(!s.release());
    assert!(s.may_acquire());
    s.acquired();
    assert!(!s.may_acquire());
    assert_eq!(s.state(), TerminalState::Active);
    assert!(s.release());
    assert_eq!(s.state(), TerminalState::Restored);
    assert!(!s.release());
    assert!(!s.may_acquire());
}
