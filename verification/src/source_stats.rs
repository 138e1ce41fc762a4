//! Adding up what the analysis of each source file of a crate found.

use vstd::prelude::*;

verus! {

/// What the analysis of one source file found.
pub struct FileStats {
    pub production_lines: u64,
    pub test_lines: u64,
    pub comment_lines: u64,
    pub unsafe_count: u64,
    pub has_errors: bool,
}

/// The source statistics of a crate, added up over its files.
pub struct SourceTotals {
    pub source_files_analyzed: u64,
    pub source_files_with_errors: u64,
    pub production_lines: u64,
    pub test_lines: u64,
    pub comment_lines: u64,
    pub unsafe_count: u64,
}

/// The sum of `f` over the files that were analyzed (`Some`); a file that
/// could not be read (`None`) adds nothing.
pub open spec fn total_of(rs: Seq<Option<FileStats>>, f: spec_fn(FileStats) -> nat) -> nat
    decreases rs.len(),
{
    if rs.len() == 0 {
        0
    } else {
        total_of(rs.drop_last(), f) + match rs.last() {
            Some(s) => f(s),
            None => 0,
        }
    }
}

/// One for every file.
pub open spec fn one(s: FileStats) -> nat {
    1
}

/// One for a file whose analysis had errors.
pub open spec fn errors(s: FileStats) -> nat {
    if s.has_errors { 1 } else { 0 }
}

pub open spec fn production(s: FileStats) -> nat {
    s.production_lines as nat
}

pub open spec fn tests(s: FileStats) -> nat {
    s.test_lines as nat
}

pub open spec fn comments(s: FileStats) -> nat {
    s.comment_lines as nat
}

pub open spec fn unsafes(s: FileStats) -> nat {
    s.unsafe_count as nat
}

/// The totals plus the files' statistics fit in `u64`.
pub open spec fn fits(t: SourceTotals, rs: Seq<Option<FileStats>>) -> bool {
    &&& t.source_files_analyzed + total_of(rs, |s: FileStats| one(s)) <= u64::MAX
    &&& t.source_files_with_errors + total_of(rs, |s: FileStats| errors(s)) <= u64::MAX
    &&& t.production_lines + total_of(rs, |s: FileStats| production(s)) <= u64::MAX
    &&& t.test_lines + total_of(rs, |s: FileStats| tests(s)) <= u64::MAX
    &&& t.comment_lines + total_of(rs, |s: FileStats| comments(s)) <= u64::MAX
    &&& t.unsafe_count + total_of(rs, |s: FileStats| unsafes(s)) <= u64::MAX
}

/// A prefix adds up to no more than the whole.
pub proof fn lemma_total_of_prefix(rs: Seq<Option<FileStats>>, f: spec_fn(FileStats) -> nat, i: int)
    requires
        0 <= i <= rs.len(),
    ensures
        total_of(rs.take(i), f) <= total_of(rs, f),
    decreases rs.len() - i,
{
    if i < rs.len() {
        lemma_total_of_prefix(rs, f, i + 1);
        assert(rs.take(i + 1).drop_last() =~= rs.take(i));
    } else {
        assert(rs.take(i) =~= rs);
    }
}

/// Adds the statistics of the analyzed files to the totals: each analyzed
/// file counts once, and once more among the files with errors when its
/// analysis had errors; its lines and unsafe blocks add to the totals. A file
/// that could not be read is skipped.
pub fn accumulate_file_stats(totals: &mut SourceTotals, results: &[Option<FileStats>])
    requires
        fits(*old(totals), results@),
    ensures
        final(totals).source_files_analyzed == old(totals).source_files_analyzed + total_of(results@, |s: FileStats| one(s)),
        final(totals).source_files_with_errors == old(totals).source_files_with_errors + total_of(results@, |s: FileStats| errors(s)),
        final(totals).production_lines == old(totals).production_lines + total_of(results@, |s: FileStats| production(s)),
        final(totals).test_lines == old(totals).test_lines + total_of(results@, |s: FileStats| tests(s)),
        final(totals).comment_lines == old(totals).comment_lines + total_of(results@, |s: FileStats| comments(s)),
        final(totals).unsafe_count == old(totals).unsafe_count + total_of(results@, |s: FileStats| unsafes(s)),
{
    let ghost start = *totals;
    let ghost rs = results@;
    let mut i: usize = 0;
    while i < results.len()
        invariant
            i <= rs.len(),
            rs == results@,
            fits(start, rs),
            totals.source_files_analyzed == start.source_files_analyzed + total_of(rs.take(i as int), |s: FileStats| one(s)),
            totals.source_files_with_errors == start.source_files_with_errors + total_of(rs.take(i as int), |s: FileStats| errors(s)),
            totals.production_lines == start.production_lines + total_of(rs.take(i as int), |s: FileStats| production(s)),
            totals.test_lines == start.test_lines + total_of(rs.take(i as int), |s: FileStats| tests(s)),
            totals.comment_lines == start.comment_lines + total_of(rs.take(i as int), |s: FileStats| comments(s)),
            totals.unsafe_count == start.unsafe_count + total_of(rs.take(i as int), |s: FileStats| unsafes(s)),
        decreases rs.len() - i,
    {
        proof {
            assert(rs.take(i + 1).drop_last() =~= rs.take(i as int));
            lemma_total_of_prefix(rs, |s: FileStats| one(s), i + 1);
            lemma_total_of_prefix(rs, |s: FileStats| errors(s), i + 1);
            lemma_total_of_prefix(rs, |s: FileStats| production(s), i + 1);
            lemma_total_of_prefix(rs, |s: FileStats| tests(s), i + 1);
            lemma_total_of_prefix(rs, |s: FileStats| comments(s), i + 1);
            lemma_total_of_prefix(rs, |s: FileStats| unsafes(s), i + 1);
        }
        match &results[i] {
            Some(s) => {
                totals.source_files_analyzed = totals.source_files_analyzed + 1;
                totals.production_lines = totals.production_lines + s.production_lines;
                totals.test_lines = totals.test_lines + s.test_lines;
                totals.comment_lines = totals.comment_lines + s.comment_lines;
                totals.unsafe_count = totals.unsafe_count + s.unsafe_count;
                if s.has_errors {
                    totals.source_files_with_errors = totals.source_files_with_errors + 1;
                }
            },
            None => {},
        }
        i = i + 1;
    }
    assert(rs.take(rs.len() as int) =~= rs);
}

} // verus!
