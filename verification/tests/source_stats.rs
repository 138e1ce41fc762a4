use aprz::source_stats::{accumulate_file_stats, FileStats, SourceTotals};

fn stats(production: u64, tests: u64, comments: u64, unsafes: u64, has_errors: bool) -> FileStats {
    FileStats { production_lines: production, test_lines: tests, comment_lines: comments, unsafe_count: unsafes, has_errors }
}

fn zero() -> SourceTotals {
    SourceTotals {
        source_files_analyzed: 0,
        source_files_with_errors: 0,
        production_lines: 0,
        test_lines: 0,
        comment_lines: 0,
        unsafe_count: 0,
    }
}

#[test]
fn file_statistics_add_up() {
    let mut totals = zero();
    let results = vec![Some(stats(100, 20, 5, 1, false)), None, Some(stats(50, 0, 10, 2, true)), Some(stats(0, 30, 0, 0, false))];
    accumulate_file_stats(&mut totals, &results);
    assert_eq!(totals.source_files_analyzed, 3);
    assert_eq!(totals.source_files_with_errors, 1);
    assert_eq!(totals.production_lines, 150);
    assert_eq!(totals.test_lines, 50);
    assert_eq!(totals.comment_lines, 15);
    assert_eq!(totals.unsafe_count, 3);
}

#[test]
fn unreadable_files_add_nothing() {
    let mut totals = zero();
    totals.production_lines = 7;
    accumulate_file_stats(&mut totals, &[None, None]);
    assert_eq!(totals.source_files_analyzed, 0);
    assert_eq!(totals.production_lines, 7);
}
