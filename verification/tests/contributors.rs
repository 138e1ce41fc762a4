use aprz::contributors::count_contributors_in_log;

#[test]
fn distinct_author_lines_are_counted() {
    assert_eq!(count_contributors_in_log("a@x.org\nb@y.org\na@x.org\n"), 2);
    assert_eq!(count_contributors_in_log("a@x.org\r\nb@y.org\na@x.org"), 2);
    assert_eq!(count_contributors_in_log(""), 0);
    assert_eq!(count_contributors_in_log("\n"), 1);
    // A bare `\r` at the very end stays part of the line, as `str::lines` keeps it.
    assert_eq!(count_contributors_in_log("a@x.org\na@x.org\r"), 2);
}
