use aprz::request_tracker::{RequestTracker, TrackedTopic};

#[test]
fn test_tracked_topic_name() {
    assert_eq!(TrackedTopic::Coverage.name(), "coverage");
    assert_eq!(TrackedTopic::Docs.name(), "docs");
    assert_eq!(TrackedTopic::Repos.name(), "repos");
    assert_eq!(TrackedTopic::Codebase.name(), "codebase");
}

#[test]
fn test_tracked_topic_all() {
    let all_topics = TrackedTopic::all();
    assert_eq!(all_topics.len(), 4);
    assert_eq!(all_topics[0], TrackedTopic::Coverage);
    assert_eq!(all_topics[1], TrackedTopic::Docs);
    assert_eq!(all_topics[2], TrackedTopic::Repos);
    assert_eq!(all_topics[3], TrackedTopic::Codebase);
}

#[test]
fn test_tracked_topic_index() {
    assert_eq!(TrackedTopic::Coverage.index(), 0);
    assert_eq!(TrackedTopic::Docs.index(), 1);
    assert_eq!(TrackedTopic::Repos.index(), 2);
    assert_eq!(TrackedTopic::Codebase.index(), 3);
}

#[test]
fn test_add_single_request() {
    let mut tracker = RequestTracker::new();
    tracker.add_requests(TrackedTopic::Coverage, 1);

    let (total, completed, message) = tracker.progress_reporter_callback();

    assert_eq!(total, 1);
    assert_eq!(completed, 0);
    assert_eq!(message, "0/1 coverage");
}

#[test]
fn test_add_multiple_requests() {
    let mut tracker = RequestTracker::new();
    tracker.add_requests(TrackedTopic::Docs, 5);
    tracker.add_requests(TrackedTopic::Repos, 3);

    let (total, completed, message) = tracker.progress_reporter_callback();

    assert_eq!(total, 8);
    assert_eq!(completed, 0);
    assert!(message.contains("0/5 docs"));
    assert!(message.contains("0/3 repos"));
}

#[test]
fn test_complete_request() {
    let mut tracker = RequestTracker::new();
    tracker.add_requests(TrackedTopic::Coverage, 3);
    tracker.complete_request(TrackedTopic::Coverage);

    let (total, completed, message) = tracker.progress_reporter_callback();

    assert_eq!(total, 3);
    assert_eq!(completed, 1);
    assert_eq!(message, "1/3 coverage");
}

#[test]
fn test_complete_multiple_requests() {
    let mut tracker = RequestTracker::new();
    tracker.add_requests(TrackedTopic::Codebase, 5);
    tracker.complete_request(TrackedTopic::Codebase);
    tracker.complete_request(TrackedTopic::Codebase);
    tracker.complete_request(TrackedTopic::Codebase);

    let (total, completed, message) = tracker.progress_reporter_callback();

    assert_eq!(total, 5);
    assert_eq!(completed, 3);
    assert_eq!(message, "3/5 codebase");
}

#[test]
fn test_all_requests_completed() {
    let mut tracker = RequestTracker::new();
    tracker.add_requests(TrackedTopic::Docs, 2);
    tracker.complete_request(TrackedTopic::Docs);
    tracker.complete_request(TrackedTopic::Docs);

    let (total, completed, message) = tracker.progress_reporter_callback();

    assert_eq!(total, 2);
    assert_eq!(completed, 2);
    assert_eq!(message, "2/2 docs");
}

#[test]
fn test_multiple_topics_mixed_progress() {
    let mut tracker = RequestTracker::new();
    tracker.add_requests(TrackedTopic::Coverage, 10);
    tracker.add_requests(TrackedTopic::Docs, 5);
    tracker.add_requests(TrackedTopic::Repos, 3);
    tracker.add_requests(TrackedTopic::Codebase, 7);

    tracker.complete_request(TrackedTopic::Coverage);
    tracker.complete_request(TrackedTopic::Coverage);
    tracker.complete_request(TrackedTopic::Coverage);

    tracker.complete_request(TrackedTopic::Docs);
    tracker.complete_request(TrackedTopic::Docs);
    tracker.complete_request(TrackedTopic::Docs);
    tracker.complete_request(TrackedTopic::Docs);
    tracker.complete_request(TrackedTopic::Docs);

    tracker.complete_request(TrackedTopic::Repos);

    let (total, completed, message) = tracker.progress_reporter_callback();

    assert_eq!(total, 25);
    assert_eq!(completed, 9);
    assert!(message.contains("3/10 coverage"));
    assert!(message.contains("5/5 docs"));
    assert!(message.contains("1/3 repos"));
    assert!(message.contains("0/7 codebase"));
}

#[test]
fn test_no_requests() {
    let tracker = RequestTracker::new();

    let (total, completed, message) = tracker.progress_reporter_callback();

    assert_eq!(total, 0);
    assert_eq!(completed, 0);
    assert_eq!(message, "No requests");
}

#[test]
fn test_add_requests_with_zero_count() {
    let mut tracker = RequestTracker::new();
    tracker.add_requests(TrackedTopic::Coverage, 0);

    let (total, completed, message) = tracker.progress_reporter_callback();

    assert_eq!(total, 0);
    assert_eq!(completed, 0);
    assert_eq!(message, "No requests");
}

#[test]
fn test_message_format_order() {
    let mut tracker = RequestTracker::new();
    // Add in reverse order to ensure output follows topic enum order
    tracker.add_requests(TrackedTopic::Codebase, 1);
    tracker.add_requests(TrackedTopic::Repos, 1);
    tracker.add_requests(TrackedTopic::Docs, 1);
    tracker.add_requests(TrackedTopic::Coverage, 1);

    let (_, _, message) = tracker.progress_reporter_callback();

    let parts: Vec<&str> = message.split(", ").collect();
    assert_eq!(parts.len(), 4);
    assert!(parts[0].contains("coverage"));
    assert!(parts[1].contains("docs"));
    assert!(parts[2].contains("repos"));
    assert!(parts[3].contains("codebase"));
}

#[test]
fn counters_wrap_around_like_atomics() {
    let mut tracker = RequestTracker::new();
    tracker.add_requests(TrackedTopic::Docs, u64::MAX);
    tracker.add_requests(TrackedTopic::Docs, 2);
    let (total, _, message) = tracker.progress_reporter_callback();
    assert_eq!(total, 1);
    assert_eq!(message, "0/1 docs");
}

#[test]
fn completed_counts_only_topics_with_issued_requests() {
    let mut tracker = RequestTracker::new();
    tracker.complete_request(TrackedTopic::Repos);
    tracker.add_requests(TrackedTopic::Coverage, 2);
    let (total, completed, message) = tracker.progress_reporter_callback();
    assert_eq!(total, 2);
    assert_eq!(completed, 0);
    assert_eq!(message, "0/2 coverage");
}
