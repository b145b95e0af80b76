//! Builds the fixed-section map of the closed-type data shape: feature and
//! fix entries grouped by component, everything else dropped.

use vstd::prelude::*;

use crate::common::CommitType;
use crate::common::LogEntry;
use crate::common::SectionMap;
use crate::sectionmap::assoc_find;
use crate::sectionmap::lemma_assoc_find_at;
use crate::sectionmap::lemma_assoc_find_insert_other;
use crate::sectionmap::lemma_assoc_find_insert_self;
use crate::sectionmap::lemma_assoc_find_none;
use crate::sectionmap::lemma_assoc_find_update_other;
use crate::text::str_eq;

verus! {

/// The entries of `es` with the given type and component, in input order.
pub open spec fn entry_bucket_of(es: Seq<LogEntry>, ty: CommitType, comp: Seq<char>) -> Seq<
    LogEntry,
>
    decreases es.len(),
{
    if es.len() == 0 {
        Seq::empty()
    } else {
        let rest = entry_bucket_of(es.drop_last(), ty, comp);
        if es.last().commit_type == ty && es.last().component@ == comp {
            rest.push(es.last())
        } else {
            rest
        }
    }
}

/// The entries held under a component name, or none.
pub open spec fn entry_lookup(buckets: Seq<(String, Vec<LogEntry>)>, comp: Seq<char>) -> Seq<
    LogEntry,
> {
    match assoc_find(buckets, comp) {
        None => Seq::empty(),
        Some(b) => b@,
    }
}

/// Component names are unique and no bucket is empty.
pub open spec fn entry_buckets_wf(buckets: Seq<(String, Vec<LogEntry>)>) -> bool {
    &&& forall|i: int, j: int|
        0 <= i < j < buckets.len() ==> (#[trigger] buckets[i]).0@ != (#[trigger] buckets[j]).0@
    &&& forall|i: int| 0 <= i < buckets.len() ==> (#[trigger] buckets[i]).1@.len() > 0
}

/// Appends one entry to its component's bucket, creating the bucket at
/// the end on first sight; every other bucket is untouched.
fn push_entry(buckets: &mut Vec<(String, Vec<LogEntry>)>, e: LogEntry)
    requires
        entry_buckets_wf(old(buckets)@),
    ensures
        entry_buckets_wf(final(buckets)@),
        entry_lookup(final(buckets)@, e.component@) == entry_lookup(
            old(buckets)@,
            e.component@,
        ).push(e),
        forall|comp: Seq<char>|
            comp != e.component@ ==> #[trigger] entry_lookup(final(buckets)@, comp) == entry_lookup(
                old(buckets)@,
                comp,
            ),
{
    let ghost bs0 = buckets@;
    let ghost cm = e.component@;
    let n = buckets.len();
    let mut k: usize = 0;
    while k < n
        invariant
            buckets@ == bs0,
            bs0 == old(buckets)@,
            entry_buckets_wf(bs0),
            cm == e.component@,
            n == bs0.len(),
            k <= n,
            forall|kk: int| 0 <= kk < k ==> (#[trigger] bs0[kk]).0@ != cm,
        decreases n - k,
    {
        if str_eq(buckets[k].0.as_str(), e.component.as_str()) {
            let (cname, mut bucket) = buckets.remove(k);
            let ghost b0 = bucket@;
            bucket.push(e);
            let ghost ne = (cname, bucket);
            buckets.insert(k, (cname, bucket));
            proof {
                let bs1 = buckets@;
                assert(bs1 =~= bs0.update(k as int, ne));
                lemma_assoc_find_at(bs0, k as int);
                assert(bs1[k as int] == ne);
                assert forall|kk: int| 0 <= kk < k implies (#[trigger] bs1[kk]).0@ != bs1[k as int].0@ by {
                    assert(bs1[kk] == bs0[kk]);
                }
                lemma_assoc_find_at(bs1, k as int);
                assert forall|comp: Seq<char>| comp != cm implies #[trigger] entry_lookup(
                    bs1,
                    comp,
                ) == entry_lookup(bs0, comp) by {
                    lemma_assoc_find_update_other(bs0, k as int, ne, comp);
                }
                assert forall|i: int, j: int| 0 <= i < j < bs1.len() implies (
                #[trigger] bs1[i]).0@ != (#[trigger] bs1[j]).0@ by {
                    assert(bs1[i].0@ == bs0[i].0@);
                    assert(bs1[j].0@ == bs0[j].0@);
                }
                assert forall|i: int| 0 <= i < bs1.len() implies (#[trigger] bs1[i]).1@.len()
                    > 0 by {
                    if i != k {
                        assert(bs1[i] == bs0[i]);
                    }
                }
            }
            return ;
        }
        k = k + 1;
    }
    let comp = e.component.clone();
    let mut bucket: Vec<LogEntry> = Vec::new();
    bucket.push(e);
    let ghost ne = (comp, bucket);
    buckets.push((comp, bucket));
    proof {
        let bs1 = buckets@;
        assert(bs1 =~= bs0.insert(bs0.len() as int, ne));
        lemma_assoc_find_none(bs0, cm);
        lemma_assoc_find_insert_self(bs0, bs0.len() as int, ne);
        assert(ne.1@ =~= Seq::<LogEntry>::empty().push(e));
        assert forall|c2: Seq<char>| c2 != cm implies #[trigger] entry_lookup(bs1, c2)
            == entry_lookup(bs0, c2) by {
            lemma_assoc_find_insert_other(bs0, bs0.len() as int, ne, c2);
        }
        assert forall|i: int, j: int| 0 <= i < j < bs1.len() implies (#[trigger] bs1[i]).0@ != (
        #[trigger] bs1[j]).0@ by {
            if j < bs0.len() {
                assert(bs1[i] == bs0[i]);
                assert(bs1[j] == bs0[j]);
            } else {
                assert(bs1[i] == bs0[i]);
                assert(bs1[j].0@ == cm);
            }
        }
        assert forall|i: int| 0 <= i < bs1.len() implies (#[trigger] bs1[i]).1@.len() > 0 by {
            if i < bs0.len() {
                assert(bs1[i] == bs0[i]);
            } else {
                assert(bs1[i] == ne);
            }
        }
    }
}

/// Groups feature and fix entries by component into the fixed sections,
/// in input order; entries of unknown type are dropped, and the breaking
/// section stays empty.
pub fn build_sections(log_entries: Vec<LogEntry>) -> (sm: SectionMap)
    ensures
        entry_buckets_wf(sm.features@),
        entry_buckets_wf(sm.fixes@),
        forall|comp: Seq<char>|
            #[trigger] entry_lookup(sm.features@, comp) == entry_bucket_of(
                log_entries@,
                CommitType::Feature,
                comp,
            ),
        forall|comp: Seq<char>|
            #[trigger] entry_lookup(sm.fixes@, comp) == entry_bucket_of(
                log_entries@,
                CommitType::Fix,
                comp,
            ),
        sm.breaks@.len() == 0,
{
    let ghost orig = log_entries@;
    let mut rest = log_entries;
    let mut sm = SectionMap { features: Vec::new(), fixes: Vec::new(), breaks: Vec::new() };
    proof {
        assert(orig.skip(0) =~= orig);
        assert(orig.take(0) =~= Seq::<LogEntry>::empty());
        assert forall|comp: Seq<char>| #[trigger]
            entry_lookup(sm.features@, comp) == entry_bucket_of(
                orig.take(0),
                CommitType::Feature,
                comp,
            ) by {
            assert(entry_lookup(sm.features@, comp) =~= Seq::<LogEntry>::empty());
            assert(entry_bucket_of(orig.take(0), CommitType::Feature, comp) =~= Seq::<
                LogEntry,
            >::empty());
        }
        assert forall|comp: Seq<char>| #[trigger]
            entry_lookup(sm.fixes@, comp) == entry_bucket_of(
                orig.take(0),
                CommitType::Fix,
                comp,
            ) by {
            assert(entry_lookup(sm.fixes@, comp) =~= Seq::<LogEntry>::empty());
            assert(entry_bucket_of(orig.take(0), CommitType::Fix, comp) =~= Seq::<
                LogEntry,
            >::empty());
        }
    }
    while rest.len() > 0
        invariant
            rest@.len() <= orig.len(),
            rest@ == orig.skip(orig.len() - rest@.len()),
            entry_buckets_wf(sm.features@),
            entry_buckets_wf(sm.fixes@),
            forall|comp: Seq<char>|
                #[trigger] entry_lookup(sm.features@, comp) == entry_bucket_of(
                    orig.take(orig.len() - rest@.len()),
                    CommitType::Feature,
                    comp,
                ),
            forall|comp: Seq<char>|
                #[trigger] entry_lookup(sm.fixes@, comp) == entry_bucket_of(
                    orig.take(orig.len() - rest@.len()),
                    CommitType::Fix,
                    comp,
                ),
            sm.breaks@.len() == 0,
        decreases rest@.len(),
    {
        let ghost k = orig.len() - rest@.len();
        let e = rest.remove(0);
        proof {
            assert(e == orig[k]);
            assert(rest@ =~= orig.skip(k + 1));
            assert(orig.take(k + 1).drop_last() =~= orig.take(k));
            assert(orig.take(k + 1).last() == orig[k]);
        }
        match e.commit_type {
            CommitType::Feature => {
                push_entry(&mut sm.features, e);
            },
            CommitType::Fix => {
                push_entry(&mut sm.fixes, e);
            },
            CommitType::Unknown => {},
        }
    }
    proof {
        assert(orig.take(orig.len() as int) =~= orig);
    }
    sm
}

} // verus!
