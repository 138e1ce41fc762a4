//! Detecting, from the text of GitHub Actions workflow files, whether a
//! project runs Clippy and Miri in CI.

use crate::text::{contains_seq, contains_text, to_lowercase, unicode_lowercase};
use vstd::prelude::*;

verus! {

/// What the workflows of a repository show.
#[derive(Debug, Default, Clone, Copy)]
pub struct GitHubWorkflowInfo {
    pub workflows_detected: bool,
    pub clippy_detected: bool,
    pub miri_detected: bool,
}

/// The most workflow files that are read.
pub const MAX_WORKFLOW_FILES: usize = 100;

pub open spec fn miri_text() -> Seq<char> {
    seq!['m', 'i', 'r', 'i']
}

pub open spec fn clippy_text() -> Seq<char> {
    seq!['c', 'l', 'i', 'p', 'p', 'y']
}

/// Takes one line of a workflow file into account: a line that, lowercased,
/// mentions `miri` or `clippy` marks that tool as used. Returns whether both
/// are now known to be used, after which no more lines need to be read.
pub fn note_workflow_line(info: &mut GitHubWorkflowInfo, line: &str) -> (done: bool)
    ensures
        final(info).workflows_detected == old(info).workflows_detected,
        final(info).miri_detected == (old(info).miri_detected
            || contains_seq(unicode_lowercase(line@), miri_text())),
        final(info).clippy_detected == (old(info).clippy_detected
            || contains_seq(unicode_lowercase(line@), clippy_text())),
        done == (final(info).miri_detected && final(info).clippy_detected),
{
    let lower = to_lowercase(line);
    proof {
        reveal_strlit("miri");
        reveal_strlit("clippy");
        assert("miri"@ =~= miri_text());
        assert("clippy"@ =~= clippy_text());
    }
    if !info.miri_detected && contains_text(lower.as_str(), "miri") {
        info.miri_detected = true;
    }
    if !info.clippy_detected && contains_text(lower.as_str(), "clippy") {
        info.clippy_detected = true;
    }
    info.miri_detected && info.clippy_detected
}

/// Whether a file extension marks a workflow file (`yml` or `yaml`).
pub fn is_workflow_extension(ext: Option<&str>) -> (r: bool)
    ensures
        r == (ext matches Some(e) && (e@ == seq!['y', 'm', 'l'] || e@ == seq!['y', 'a', 'm', 'l'])),
{
    match ext {
        Some(e) => {
            let c = crate::text::chars_of(e);
            let yml = c.len() == 3 && c[0] == 'y' && c[1] == 'm' && c[2] == 'l';
            let yaml = c.len() == 4 && c[0] == 'y' && c[1] == 'a' && c[2] == 'm' && c[3] == 'l';
            assert(yml ==> c@ =~= seq!['y', 'm', 'l']);
            assert(yaml ==> c@ =~= seq!['y', 'a', 'm', 'l']);
            yml || yaml
        },
        None => false,
    }
}

/// Whether the `count`-th workflow file (counting from one) is still read.
pub fn within_workflow_limit(count: usize) -> (r: bool)
    ensures
        r == (count <= MAX_WORKFLOW_FILES),
{
    count <= MAX_WORKFLOW_FILES
}

} // verus!
