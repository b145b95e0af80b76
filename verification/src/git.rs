//! The commit record produced by parsing one raw commit block, and the
//! filter that keeps only commits whose type was recognized.

use vstd::prelude::*;

use crate::text::str_eq;

verus! {

/// The struct representation of a `Commit`
pub struct Commit {
    /// The full commit hash
    pub hash: String,
    /// The commit subject
    pub subject: String,
    /// The component (if any); the empty string means none was given
    pub component: String,
    /// Any issues this commit closes
    pub closes: Vec<String>,
    /// Any issues this commit breaks
    pub breaks: Vec<String>,
    /// The resolved section name for the commit's type token
    pub commit_type: String,
}

/// A convenience type for multiple commits
pub type Commits = Vec<Commit>;

/// Whether a commit survives the filter: its type resolved to a real
/// section, not the fallback.
pub open spec fn spec_known(c: Commit) -> bool {
    c.commit_type@ != "Unknown"@
}

/// The subsequence of `cs` whose commits survive the filter, in order.
pub open spec fn spec_filter_known(cs: Seq<Commit>) -> Seq<Commit>
    decreases cs.len(),
{
    if cs.len() == 0 {
        Seq::empty()
    } else {
        let rest = spec_filter_known(cs.drop_last());
        if spec_known(cs.last()) {
            rest.push(cs.last())
        } else {
            rest
        }
    }
}

/// Appending one commit to the input either appends it to the filtered
/// output (when it is kept) or leaves the output unchanged.
pub proof fn lemma_filter_push(cs: Seq<Commit>, c: Commit)
    ensures
        spec_filter_known(cs.push(c)) == if spec_known(c) {
            spec_filter_known(cs).push(c)
        } else {
            spec_filter_known(cs)
        },
{
    assert(cs.push(c).drop_last() =~= cs);
    assert(cs.push(c).last() == c);
}

/// Everything the filter keeps survives the filter, so filtering is
/// idempotent: `filter(filter(cs)) == filter(cs)`.
pub proof fn lemma_filter_idempotent(cs: Seq<Commit>)
    ensures
        spec_filter_known(spec_filter_known(cs)) == spec_filter_known(cs),
    decreases cs.len(),
{
    if cs.len() > 0 {
        lemma_filter_idempotent(cs.drop_last());
        if spec_known(cs.last()) {
            lemma_filter_push(spec_filter_known(cs.drop_last()), cs.last());
        }
    }
}

/// Keeps exactly the commits whose resolved section is not the fallback,
/// preserving their relative order.
pub fn filter_commits(commits: Commits) -> (kept: Commits)
    ensures
        kept@ == spec_filter_known(commits@),
{
    let ghost orig = commits@;
    let mut rest = commits;
    let mut kept: Commits = Vec::new();
    proof {
        assert(orig.skip(0) =~= orig);
        assert(orig.take(0) =~= Seq::<Commit>::empty());
    }
    while rest.len() > 0
        invariant
            rest@.len() <= orig.len(),
            rest@ == orig.skip(orig.len() - rest@.len()),
            kept@ == spec_filter_known(orig.take(orig.len() - rest@.len())),
        decreases rest@.len(),
    {
        let ghost k = orig.len() - rest@.len();
        let c = rest.remove(0);
        proof {
            assert(c == orig[k]);
            assert(rest@ =~= orig.skip(k + 1));
            assert(orig.take(k + 1) =~= orig.take(k).push(orig[k]));
            lemma_filter_push(orig.take(k), orig[k]);
        }
        if !str_eq(c.commit_type.as_str(), "Unknown") {
            kept.push(c);
        }
    }
    proof {
        assert(orig.take(orig.len() as int) =~= orig);
    }
    kept
}

} // verus!
