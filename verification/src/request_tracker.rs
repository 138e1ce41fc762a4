//! Counting the requests issued to and answered by outside services, per
//! topic, and summarising them for the progress display.

use crate::text::{decimal, join, push_str, u64_to_decimal};
use vstd::prelude::*;

verus! {

/// Topics that can be tracked for progress reporting.
#[derive(Debug, Clone, Copy, PartialEq, Eq, Structural)]
pub enum TrackedTopic {
    Coverage,
    Docs,
    Repos,
    Codebase,
}

/// The position of a topic in the enumeration order.
pub open spec fn topic_index(t: TrackedTopic) -> int {
    match t {
        TrackedTopic::Coverage => 0,
        TrackedTopic::Docs => 1,
        TrackedTopic::Repos => 2,
        TrackedTopic::Codebase => 3,
    }
}

/// The topic at a position of the enumeration order.
pub open spec fn topic_at(i: int) -> TrackedTopic {
    if i == 0 {
        TrackedTopic::Coverage
    } else if i == 1 {
        TrackedTopic::Docs
    } else if i == 2 {
        TrackedTopic::Repos
    } else {
        TrackedTopic::Codebase
    }
}

/// The display name of a topic.
pub open spec fn topic_name(t: TrackedTopic) -> Seq<char> {
    match t {
        TrackedTopic::Coverage => seq!['c', 'o', 'v', 'e', 'r', 'a', 'g', 'e'],
        TrackedTopic::Docs => seq!['d', 'o', 'c', 's'],
        TrackedTopic::Repos => seq!['r', 'e', 'p', 'o', 's'],
        TrackedTopic::Codebase => seq!['c', 'o', 'd', 'e', 'b', 'a', 's', 'e'],
    }
}

impl TrackedTopic {
    /// The display name of this topic.
    pub fn name(self) -> (r: &'static str)
        ensures
            r@ == topic_name(self),
    {
        match self {
            TrackedTopic::Coverage => {
                proof { reveal_strlit("coverage"); }
                "coverage"
            },
            TrackedTopic::Docs => {
                proof { reveal_strlit("docs"); }
                "docs"
            },
            TrackedTopic::Repos => {
                proof { reveal_strlit("repos"); }
                "repos"
            },
            TrackedTopic::Codebase => {
                proof { reveal_strlit("codebase"); }
                "codebase"
            },
        }
    }

    /// All tracked topics, in enumeration order.
    pub fn all() -> (r: [TrackedTopic; 4])
        ensures
            forall|i: int| 0 <= i < 4 ==> #[trigger] r@[i] == topic_at(i),
    {
        [TrackedTopic::Coverage, TrackedTopic::Docs, TrackedTopic::Repos, TrackedTopic::Codebase]
    }

    /// The position of this topic in the enumeration order.
    pub fn index(self) -> (r: usize)
        ensures
            r == topic_index(self),
    {
        match self {
            TrackedTopic::Coverage => 0,
            TrackedTopic::Docs => 1,
            TrackedTopic::Repos => 2,
            TrackedTopic::Codebase => 3,
        }
    }
}

/// Every position names the topic that has it.
pub proof fn lemma_topic_index_at(i: int)
    requires
        0 <= i < 4,
    ensures
        topic_index(topic_at(i)) == i,
{
}

/// Issued and completed request counts per topic, by topic position.
pub struct RequestTracker {
    issued: [u64; 4],
    completed: [u64; 4],
}

/// The sum of the issued counts of the first `n` topics.
pub open spec fn total_issued(issued: Seq<u64>, n: int) -> int
    decreases n,
{
    if n <= 0 {
        0
    } else {
        total_issued(issued, n - 1) + issued[n - 1]
    }
}

/// The sum of the completed counts of the first `n` topics, over the topics
/// with at least one issued request.
pub open spec fn total_completed(issued: Seq<u64>, completed: Seq<u64>, n: int) -> int
    decreases n,
{
    if n <= 0 {
        0
    } else {
        total_completed(issued, completed, n - 1) + if issued[n - 1] > 0 { completed[n - 1] as int } else { 0 }
    }
}

/// The report part of topic `i`: `completed/issued name`.
pub open spec fn report_part(issued: Seq<u64>, completed: Seq<u64>, i: int) -> Seq<char> {
    decimal(completed[i] as nat) + seq!['/'] + decimal(issued[i] as nat) + seq![' '] + topic_name(topic_at(i))
}

/// The report parts of the first `n` topics with at least one issued request.
pub open spec fn report_parts(issued: Seq<u64>, completed: Seq<u64>, n: int) -> Seq<Seq<char>>
    decreases n,
{
    if n <= 0 {
        Seq::empty()
    } else if issued[n - 1] > 0 {
        report_parts(issued, completed, n - 1).push(report_part(issued, completed, n - 1))
    } else {
        report_parts(issued, completed, n - 1)
    }
}

/// The progress message: the parts of the topics with issued requests,
/// joined by `, `, or `No requests`.
pub open spec fn report_message(issued: Seq<u64>, completed: Seq<u64>) -> Seq<char> {
    let parts = report_parts(issued, completed, 4);
    if parts.len() == 0 {
        seq!['N', 'o', ' ', 'r', 'e', 'q', 'u', 'e', 's', 't', 's']
    } else {
        join(parts, seq![',', ' '])
    }
}

impl RequestTracker {
    /// The issued counts, by topic position.
    pub closed spec fn issued(&self) -> Seq<u64> {
        self.issued@
    }

    /// The completed counts, by topic position.
    pub closed spec fn completed(&self) -> Seq<u64> {
        self.completed@
    }

    /// A tracker with no requests.
    pub fn new() -> (r: Self)
        ensures
            r.issued() == seq![0u64, 0u64, 0u64, 0u64],
            r.completed() == seq![0u64, 0u64, 0u64, 0u64],
    {
        let r = RequestTracker { issued: [0, 0, 0, 0], completed: [0, 0, 0, 0] };
        assert(r.issued@ =~= seq![0u64, 0u64, 0u64, 0u64]);
        assert(r.completed@ =~= seq![0u64, 0u64, 0u64, 0u64]);
        r
    }

    /// Marks that `count` new requests have been issued for `topic`. The
    /// counter wraps around, as an atomic counter does.
    pub fn add_requests(&mut self, topic: TrackedTopic, count: u64)
        ensures
            final(self).issued() == old(self).issued().update(topic_index(topic),
                old(self).issued()[topic_index(topic)].wrapping_add(count)),
            final(self).completed() == old(self).completed(),
    {
        let i = topic.index();
        let v = self.issued[i].wrapping_add(count);
        self.issued[i] = v;
    }

    /// Marks that a request has completed for `topic`. The counter wraps
    /// around, as an atomic counter does.
    pub fn complete_request(&mut self, topic: TrackedTopic)
        ensures
            final(self).completed() == old(self).completed().update(topic_index(topic),
                old(self).completed()[topic_index(topic)].wrapping_add(1)),
            final(self).issued() == old(self).issued(),
    {
        let i = topic.index();
        let v = self.completed[i].wrapping_add(1);
        self.completed[i] = v;
    }

    /// The progress state: the total of issued requests, the total of
    /// completed requests over the topics with issued requests, and the
    /// message. The totals are plain sums, so they must fit in a `u64`.
    pub fn progress_reporter_callback(&self) -> (r: (u64, u64, String))
        requires
            total_issued(self.issued(), 4) <= u64::MAX,
            total_completed(self.issued(), self.completed(), 4) <= u64::MAX,
        ensures
            r.0 == total_issued(self.issued(), 4),
            r.1 == total_completed(self.issued(), self.completed(), 4),
            r.2@ == report_message(self.issued(), self.completed()),
    {
        let ghost iss = self.issued@;
        let ghost comp = self.completed@;
        let mut total_iss: u64 = 0;
        let mut total_comp: u64 = 0;
        let mut message = String::new();
        let mut n_parts: usize = 0;
        let topics = TrackedTopic::all();
        let mut i: usize = 0;
        while i < 4
            invariant
                0 <= i <= 4,
                iss == self.issued@,
                comp == self.completed@,
                iss.len() == 4,
                comp.len() == 4,
                forall|j: int| 0 <= j < 4 ==> #[trigger] topics@[j] == topic_at(j),
                total_issued(iss, 4) <= u64::MAX,
                total_completed(iss, comp, 4) <= u64::MAX,
                total_iss == total_issued(iss, i as int),
                total_comp == total_completed(iss, comp, i as int),
                n_parts == report_parts(iss, comp, i as int).len(),
                n_parts <= i,
                message@ == join(report_parts(iss, comp, i as int), seq![',', ' ']),
            decreases 4 - i,
        {
            let topic = topics[i];
            proof {
                lemma_totals_monotone(iss, comp, i as int + 1, 4);
            }
            let issued = self.issued[topic.index()];
            let completed = self.completed[topic.index()];
            if issued > 0 {
                total_iss = total_iss + issued;
                total_comp = total_comp + completed;
                if n_parts > 0 {
                    proof { reveal_strlit(", "); }
                    push_str(&mut message, ", ");
                }
                let c = u64_to_decimal(completed);
                push_str(&mut message, c.as_str());
                proof { reveal_strlit("/"); }
                push_str(&mut message, "/");
                let s = u64_to_decimal(issued);
                push_str(&mut message, s.as_str());
                proof { reveal_strlit(" "); }
                push_str(&mut message, " ");
                push_str(&mut message, topic.name());
                n_parts = n_parts + 1;
                proof {
                    let prev = report_parts(iss, comp, i as int);
                    let next = report_parts(iss, comp, i as int + 1);
                    assert(next == prev.push(report_part(iss, comp, i as int)));
                    assert(next.drop_last() =~= prev);
                    if prev.len() == 0 {
                        assert(message@ =~= report_part(iss, comp, i as int));
                    } else {
                        assert(message@ =~= join(prev, seq![',', ' ']) + seq![',', ' '] + report_part(iss, comp, i as int));
                    }
                }
            } else {
                total_iss = total_iss + issued;
            }
            i = i + 1;
        }
        if n_parts == 0 {
            proof { reveal_strlit("No requests"); }
            message = "No requests".to_string();
        }
        (total_iss, total_comp, message)
    }
}

/// The totals of a prefix of the topics never exceed those of all of them.
proof fn lemma_totals_monotone(issued: Seq<u64>, completed: Seq<u64>, i: int, n: int)
    requires
        0 <= i <= n,
    ensures
        total_issued(issued, i) <= total_issued(issued, n),
        total_completed(issued, completed, i) <= total_completed(issued, completed, n),
        total_issued(issued, i) >= 0,
        total_completed(issued, completed, i) >= 0,
    decreases n,
{
    if n > i {
        lemma_totals_monotone(issued, completed, i, n - 1);
    } else if i > 0 {
        lemma_totals_monotone(issued, completed, i - 1, i - 1);
    }
}

/// The report has one part per topic with issued requests, so it reads
/// `No requests` exactly when no topic has any.
pub proof fn lemma_report_parts_count(issued: Seq<u64>, completed: Seq<u64>, n: int)
    requires
        0 <= n <= issued.len(),
    ensures
        report_parts(issued, completed, n).len() == 0 <==> forall|i: int| 0 <= i < n ==> issued[i] == 0,
        report_parts(issued, completed, n).len() <= n,
    decreases n,
{
    if n > 0 {
        lemma_report_parts_count(issued, completed, n - 1);
    }
}

} // verus!
