//! Verified core of a crate-appraisal tool: the row codec of the crates.io
//! table cache, the metric catalogue, the text helpers of the report
//! writers, request tracking and throttling, the hosting statistics, the
//! dependency graph walks, and the policy decision procedure.

pub mod text;
pub mod codec;
pub mod row_writer;
pub mod numbers;
pub mod cells;
pub mod row_reader;
pub mod tables;
pub mod request_tracker;
pub mod metrics;
pub mod report_text;
pub mod grouping;
pub mod wrap;
pub mod policy;
pub mod evaluation;
pub mod cache;
pub mod workflow;
pub mod options;
pub mod hosting;
pub mod deps;
pub mod config;
pub mod crate_ref;
pub mod throttle;
pub mod run_summary;
pub mod reports;
pub mod html_report;
pub mod report_order;
pub mod source_stats;
pub mod contributors;
pub mod metric_catalogue;
