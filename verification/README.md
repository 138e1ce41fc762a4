# aprz

A verified library for appraising Rust crates as dependencies, with a small
command-line program around it.

- `src/` is the library. Its functions carry contracts that Verus proves,
  apart from the small trusted wrappers described below. It holds the codec
  of the crates.io table cache (`row_writer`, `row_reader`, `tables`,
  `cells`), the metric catalogue and values (`metrics`, `metric_catalogue`),
  the cell texts and layout helpers of the reports (`report_text`,
  `grouping`, `wrap`), the CSV and console reports (`reports`), the HTML
  report (`html_report`), the order of the crates in the reports
  (`report_order`), request tracking and the pause schedule of the throttle
  (`request_tracker`, `throttle`), the statistics of hosted repositories
  (`hosting`), the totals of the source files' statistics (`source_stats`),
  the dependency graph walks (`deps`), cache freshness and reuse (`cache`),
  configuration values (`config`, `options`), crate specifiers
  (`crate_ref`), the run's messages, console decision and risk gate, which
  the program applies (`run_summary`), and the policy evaluation (`policy`:
  the variables the expressions see; `evaluation`: which expression runs
  next, and the decision).
- Calls into `chrono`, `semver`, `url`, `vlen`, `serde_json`, `jiff` and
  `percent-encoding`, and the compiling of CEL policy expressions with
  `cel-interpreter`, stand behind small trusted wrappers (marked
  `external_body`), whose contracts name or state what those crates return;
  Verus does not prove those.
- `app/` is the program: argument handling, files, the terminal, the serde
  forms of the library's types, the statistics that work on fractional
  numbers, and running the compiled CEL policy expressions against a crate's
  variables, step by step as the library asks.
- `tests/` exercises the library on concrete values.
