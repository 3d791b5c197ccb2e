use felix::search::content::{content_pattern, is_binary_extension, ContentResults, FileStep};

#[test]
fn empty_query_has_no_pattern() {
    assert_eq!(content_pattern(""), None);
}

#[test]
fn pattern_escapes_the_query() {
    assert_eq!(content_pattern("hello"), Some("(?i)hello".to_string()));
    assert_eq!(content_pattern("a.b*c"), Some("(?i)a\\.b\\*c".to_string()));
    assert_eq!(content_pattern("x-y~z#"), Some("(?i)x\\-y\\~z\\#".to_string()));
}

#[test]
fn binary_extensions_any_case() {
    assert!(is_binary_extension("/x/a.PNG"));
    assert!(is_binary_extension("b.woff2"));
    assert!(is_binary_extension("c.sqlite"));
    assert!(!is_binary_extension("d.txt"));
    assert!(!is_binary_extension("Makefile"));
}

#[test]
fn results_stop_at_the_limit() {
    let mut r = ContentResults::new(2);
    assert!(!r.is_full());
    assert!(r.record("/t/test.txt", 1, "match one\n"));
    assert!(!r.record("/t/test.txt", 2, "match two\r\n"));
    assert!(r.is_full());
    let m = r.into_matches();
    assert_eq!(m.len(), 2);
    assert_eq!(m[0].line, "match one");
    assert_eq!(m[1].line, "match two");
    assert_eq!(m[1].line_number, 2);
}

#[test]
fn zero_limit_is_unlimited() {
    let mut r = ContentResults::new(0);
    for i in 0..50u64 {
        assert!(r.record("p", i, "x   \t"));
    }
    assert!(!r.is_full());
    let m = r.into_matches();
    assert_eq!(m.len(), 50);
    assert_eq!(m[49].line, "x");
}

#[test]
fn limited_results_are_a_prefix_of_unlimited() {
    let lines: Vec<(u64, &str)> = (1..=9u64).map(|i| (i, "hit")).collect();
    let collect = |limit: usize| {
        let mut r = ContentResults::new(limit);
        for (n, l) in &lines {
            if r.is_full() {
                break;
            }
            r.record("f", *n, l);
        }
        r.into_matches()
    };
    let all = collect(0);
    assert_eq!(all.len(), 9);
    for limit in 1..12 {
        let some = collect(limit);
        assert_eq!(some[..], all[..limit.min(9)]);
    }
}

#[test]
fn walk_steps_over_directories_and_binaries() {
    let mut r = ContentResults::new(1);
    assert_eq!(r.file_step(true, "/p/notes.txt"), FileStep::Search);
    assert_eq!(r.file_step(false, "/p/dir"), FileStep::Skip);
    assert_eq!(r.file_step(true, "/p/photo.JPG"), FileStep::Skip);
    assert_eq!(r.file_step(true, "/p/Makefile"), FileStep::Search);
    assert!(!r.record("/p/notes.txt", 1, "hit"));
    assert_eq!(r.file_step(true, "/p/other.txt"), FileStep::Stop);
    let unlimited = ContentResults::new(0);
    assert_eq!(unlimited.file_step(true, "/p/a.rs"), FileStep::Search);
}
