use repostats::stats::{aggregate, make_stat, RawLanguage, Stat};

fn raw(name: &str, files: usize, code: usize, comments: usize, blanks: usize) -> RawLanguage {
    RawLanguage { name: name.to_string(), files, code, comments, blanks }
}

#[test]
fn make_stat_sums_lines() {
    let s = make_stat(&raw("Rust", 2, 10, 3, 1));
    assert_eq!(s.files, 2);
    assert_eq!(s.codes, 10);
    assert_eq!(s.comments, 3);
    assert_eq!(s.blanks, 1);
    assert_eq!(s.lines, 14);
    assert_eq!(s.lines, s.codes + s.comments + s.blanks);
}

#[test]
fn make_stat_all_zero() {
    let s = make_stat(&raw("Text", 0, 0, 0, 0));
    assert_eq!(s, Stat { files: 0, lines: 0, codes: 0, comments: 0, blanks: 0 });
}

#[test]
fn aggregate_empty_scan_is_zero() {
    let (stats, total) = aggregate(Vec::new());
    assert!(stats.is_empty());
    assert_eq!(total, Stat { files: 0, lines: 0, codes: 0, comments: 0, blanks: 0 });
}

#[test]
fn aggregate_single_language() {
    let (stats, total) = aggregate(vec![raw("Rust", 3, 100, 20, 10)]);
    assert_eq!(stats.len(), 1);
    assert_eq!(stats[0].0, "Rust");
    assert_eq!(stats[0].1, Stat { files: 3, lines: 130, codes: 100, comments: 20, blanks: 10 });
    assert_eq!(total, stats[0].1);
}

#[test]
fn aggregate_total_is_field_wise_sum() {
    let (stats, total) = aggregate(vec![
        raw("Rust", 3, 100, 20, 10),
        raw("Markdown", 1, 0, 40, 5),
        raw("TOML", 2, 12, 1, 2),
    ]);
    let mut files = 0;
    let mut lines = 0;
    let mut codes = 0;
    let mut comments = 0;
    let mut blanks = 0;
    for (_, s) in &stats {
        assert_eq!(s.lines, s.codes + s.comments + s.blanks);
        files += s.files;
        lines += s.lines;
        codes += s.codes;
        comments += s.comments;
        blanks += s.blanks;
    }
    assert_eq!(total.files, files);
    assert_eq!(total.lines, lines);
    assert_eq!(total.codes, codes);
    assert_eq!(total.comments, comments);
    assert_eq!(total.blanks, blanks);
    assert_eq!(total.lines, total.codes + total.comments + total.blanks);
}

#[test]
fn aggregate_sorts_by_lines_descending() {
    let (stats, _) = aggregate(vec![
        raw("Small", 1, 1, 0, 0),
        raw("Large", 1, 90, 5, 5),
        raw("Middle", 1, 40, 0, 0),
    ]);
    let names: Vec<&str> = stats.iter().map(|e| e.0.as_str()).collect();
    assert_eq!(names, vec!["Large", "Middle", "Small"]);
    for w in stats.windows(2) {
        assert!(w[0].1.lines >= w[1].1.lines);
    }
}

#[test]
fn aggregate_keeps_scan_order_on_equal_lines() {
    // Three languages with the same line count, differently composed, plus
    // one larger and one smaller: the tie keeps the scan order.
    let (stats, _) = aggregate(vec![
        raw("First", 1, 8, 1, 1),
        raw("Big", 4, 50, 0, 0),
        raw("Second", 2, 5, 5, 0),
        raw("Third", 3, 0, 0, 10),
        raw("Tiny", 1, 0, 1, 0),
    ]);
    let names: Vec<&str> = stats.iter().map(|e| e.0.as_str()).collect();
    assert_eq!(names, vec!["Big", "First", "Second", "Third", "Tiny"]);
}

#[test]
fn aggregate_echoes_every_language_once() {
    let (stats, _) = aggregate(vec![
        raw("A", 1, 2, 0, 0),
        raw("B", 1, 2, 0, 0),
        raw("A", 1, 3, 0, 0),
    ]);
    assert_eq!(stats.len(), 3);
    let names: Vec<&str> = stats.iter().map(|e| e.0.as_str()).collect();
    assert_eq!(names, vec!["A", "A", "B"]);
    assert_eq!(stats[0].1.lines, 3);
}
