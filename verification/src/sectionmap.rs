//! The two-level grouping of commits: section name -> component name ->
//! commits in input order.

use vstd::prelude::*;

use crate::git::Commit;
use crate::text::lemma_str_lt_asym;
use crate::text::lemma_str_lt_connected;
use crate::text::lemma_str_lt_trans;
use crate::text::str_eq;
use crate::text::str_lt;
use crate::text::str_lt_spec;

verus! {

/// The second level of the changelog: component name -> commits, kept
/// sorted by component name, with the empty name first.
pub struct ComponentMap {
    /// The component buckets in ascending name order.
    pub entries: Vec<(String, Vec<Commit>)>,
}

/// A struct which holds the sections -> components -> commits map.
pub struct SectionMap {
    /// The top level of the changelog: section name -> components, in the
    /// order sections were first seen in the input.
    pub sections: Vec<(String, ComponentMap)>,
}

/// The value under the first pair whose key reads `key`.
pub open spec fn assoc_find<V>(es: Seq<(String, V)>, key: Seq<char>) -> Option<V>
    decreases es.len(),
{
    if es.len() == 0 {
        None
    } else if es[0].0@ == key {
        Some(es[0].1)
    } else {
        assoc_find(es.drop_first(), key)
    }
}

/// A key present first at index `j` is found there.
pub proof fn lemma_assoc_find_at<V>(es: Seq<(String, V)>, j: int)
    requires
        0 <= j < es.len(),
        forall|i: int| 0 <= i < j ==> (#[trigger] es[i]).0@ != es[j].0@,
    ensures
        assoc_find(es, es[j].0@) == Some(es[j].1),
    decreases j,
{
    if j > 0 {
        let rest = es.drop_first();
        assert forall|i: int| 0 <= i < j - 1 implies (#[trigger] rest[i]).0@ != rest[j - 1].0@ by {
            assert(rest[i] == es[i + 1]);
            assert(rest[j - 1] == es[j]);
        }
        assert(rest[j - 1] == es[j]);
        lemma_assoc_find_at(rest, j - 1);
    }
}

/// A key present nowhere is not found.
pub proof fn lemma_assoc_find_none<V>(es: Seq<(String, V)>, key: Seq<char>)
    requires
        forall|i: int| 0 <= i < es.len() ==> (#[trigger] es[i]).0@ != key,
    ensures
        assoc_find(es, key) == None::<V>,
    decreases es.len(),
{
    if es.len() > 0 {
        let rest = es.drop_first();
        assert forall|i: int| 0 <= i < rest.len() implies (#[trigger] rest[i]).0@ != key by {
            assert(rest[i] == es[i + 1]);
        }
        lemma_assoc_find_none(rest, key);
    }
}

/// Replacing the pair at `j` by one with the same key leaves every other
/// key's lookup unchanged.
pub proof fn lemma_assoc_find_update_other<V>(es: Seq<(String, V)>, j: int, e: (String, V), key: Seq<char>)
    requires
        0 <= j < es.len(),
        e.0@ == es[j].0@,
        key != es[j].0@,
    ensures
        assoc_find(es.update(j, e), key) == assoc_find(es, key),
    decreases es.len(),
{
    let up = es.update(j, e);
    if j == 0 {
        assert(up.drop_first() =~= es.drop_first());
    } else {
        assert(up[0] == es[0]);
        if es[0].0@ == key {
        } else {
            assert(up.drop_first() =~= es.drop_first().update(j - 1, e));
            lemma_assoc_find_update_other(es.drop_first(), j - 1, e, key);
        }
    }
}

/// Inserting a pair with a different key leaves a key's lookup unchanged.
pub proof fn lemma_assoc_find_insert_other<V>(es: Seq<(String, V)>, k: int, e: (String, V), key: Seq<char>)
    requires
        0 <= k <= es.len(),
        key != e.0@,
    ensures
        assoc_find(es.insert(k, e), key) == assoc_find(es, key),
    decreases es.len(),
{
    let up = es.insert(k, e);
    if k == 0 {
        assert(up[0] == e);
        assert(up.drop_first() =~= es);
    } else {
        assert(up[0] == es[0]);
        if es[0].0@ == key {
        } else {
            assert(up.drop_first() =~= es.drop_first().insert(k - 1, e));
            lemma_assoc_find_insert_other(es.drop_first(), k - 1, e, key);
        }
    }
}

/// Inserting a pair whose key is absent makes that key find the new value.
pub proof fn lemma_assoc_find_insert_self<V>(es: Seq<(String, V)>, k: int, e: (String, V))
    requires
        0 <= k <= es.len(),
        forall|i: int| 0 <= i < es.len() ==> (#[trigger] es[i]).0@ != e.0@,
    ensures
        assoc_find(es.insert(k, e), e.0@) == Some(e.1),
    decreases es.len(),
{
    let up = es.insert(k, e);
    if k == 0 {
        assert(up[0] == e);
    } else {
        assert(up[0] == es[0]);
        assert(up.drop_first() =~= es.drop_first().insert(k - 1, e));
        let rest = es.drop_first();
        assert forall|i: int| 0 <= i < rest.len() implies (#[trigger] rest[i]).0@ != e.0@ by {
            assert(rest[i] == es[i + 1]);
        }
        lemma_assoc_find_insert_self(rest, k - 1, e);
    }
}

/// The number of commits held by a component map's entries.
pub open spec fn comp_count(es: Seq<(String, Vec<Commit>)>) -> nat
    decreases es.len(),
{
    if es.len() == 0 {
        0
    } else {
        comp_count(es.drop_last()) + es.last().1@.len()
    }
}

/// The number of commits held by all sections together.
pub open spec fn sec_count(ss: Seq<(String, ComponentMap)>) -> nat
    decreases ss.len(),
{
    if ss.len() == 0 {
        0
    } else {
        sec_count(ss.drop_last()) + comp_count(ss.last().1.entries@)
    }
}

/// Replacing one component entry changes the count by the bucket-size
/// difference.
pub proof fn lemma_comp_count_update(es: Seq<(String, Vec<Commit>)>, k: int, e: (String, Vec<Commit>))
    requires
        0 <= k < es.len(),
    ensures
        comp_count(es.update(k, e)) + es[k].1@.len() == comp_count(es) + e.1@.len(),
    decreases es.len(),
{
    let up = es.update(k, e);
    if k == es.len() - 1 {
        assert(up.drop_last() =~= es.drop_last());
        assert(up.last() == e);
    } else {
        assert(up.drop_last() =~= es.drop_last().update(k, e));
        assert(up.last() == es.last());
        lemma_comp_count_update(es.drop_last(), k, e);
    }
}

/// Inserting a component entry adds its bucket's size to the count.
pub proof fn lemma_comp_count_insert(es: Seq<(String, Vec<Commit>)>, k: int, e: (String, Vec<Commit>))
    requires
        0 <= k <= es.len(),
    ensures
        comp_count(es.insert(k, e)) == comp_count(es) + e.1@.len(),
    decreases es.len(),
{
    let up = es.insert(k, e);
    if k == es.len() {
        assert(up.drop_last() =~= es);
        assert(up.last() == e);
    } else {
        assert(up.drop_last() =~= es.drop_last().insert(k, e));
        assert(up.last() == es.last());
        lemma_comp_count_insert(es.drop_last(), k, e);
    }
}

/// Replacing one section entry changes the count by the sections'
/// commit-count difference.
pub proof fn lemma_sec_count_update(ss: Seq<(String, ComponentMap)>, j: int, e: (String, ComponentMap))
    requires
        0 <= j < ss.len(),
    ensures
        sec_count(ss.update(j, e)) + comp_count(ss[j].1.entries@) == sec_count(ss) + comp_count(
            e.1.entries@,
        ),
    decreases ss.len(),
{
    let up = ss.update(j, e);
    if j == ss.len() - 1 {
        assert(up.drop_last() =~= ss.drop_last());
        assert(up.last() == e);
    } else {
        assert(up.drop_last() =~= ss.drop_last().update(j, e));
        assert(up.last() == ss.last());
        lemma_sec_count_update(ss.drop_last(), j, e);
    }
}

/// Appending a section entry adds its commit count to the total.
pub proof fn lemma_sec_count_push(ss: Seq<(String, ComponentMap)>, e: (String, ComponentMap))
    ensures
        sec_count(ss.push(e)) == sec_count(ss) + comp_count(e.1.entries@),
{
    assert(ss.push(e).drop_last() =~= ss);
    assert(ss.push(e).last() == e);
}

impl ComponentMap {
    /// Entries are strictly sorted by component name (hence unique) and
    /// no bucket is empty.
    pub open spec fn wf(self) -> bool {
        &&& forall|i: int, j: int|
            0 <= i < j < self.entries@.len() ==> str_lt_spec(
                (#[trigger] self.entries@[i]).0@,
                (#[trigger] self.entries@[j]).0@,
            )
        &&& forall|i: int| 0 <= i < self.entries@.len() ==> (#[trigger] self.entries@[i]).1@.len() > 0
    }

    /// Whether a component bucket exists.
    pub open spec fn has_comp(self, comp: Seq<char>) -> bool {
        exists|i: int| 0 <= i < self.entries@.len() && (#[trigger] self.entries@[i]).0@ == comp
    }
}

impl SectionMap {
    /// Section names are unique and every section is a well-formed,
    /// non-empty component map.
    pub open spec fn wf(self) -> bool {
        &&& forall|i: int, j: int|
            0 <= i < j < self.sections@.len() ==> (#[trigger] self.sections@[i]).0@ != (
            #[trigger] self.sections@[j]).0@
        &&& forall|i: int|
            0 <= i < self.sections@.len() ==> (#[trigger] self.sections@[i]).1.wf() && self.sections@[i].1.entries@.len() > 0
    }

    /// Whether a section of this name exists.
    pub open spec fn has_section(self, sec: Seq<char>) -> bool {
        exists|i: int| 0 <= i < self.sections@.len() && (#[trigger] self.sections@[i]).0@ == sec
    }

    /// Whether a `(section, component)` bucket exists.
    pub open spec fn has_bucket(self, sec: Seq<char>, comp: Seq<char>) -> bool {
        match assoc_find(self.sections@, sec) {
            None => false,
            Some(cm) => cm.has_comp(comp),
        }
    }

    /// The commits of the `(section, component)` bucket, or the empty
    /// sequence when there is no such bucket.
    pub open spec fn bucket(self, sec: Seq<char>, comp: Seq<char>) -> Seq<Commit> {
        match assoc_find(self.sections@, sec) {
            None => Seq::empty(),
            Some(cm) => match assoc_find(cm.entries@, comp) {
                None => Seq::empty(),
                Some(b) => b@,
            },
        }
    }

    /// The total number of commits across all buckets.
    pub open spec fn count(self) -> nat {
        sec_count(self.sections@)
    }

    /// The section names, in the order the sections were created.
    pub open spec fn names(self) -> Seq<Seq<char>> {
        self.sections@.map_values(|e: (String, ComponentMap)| e.0@)
    }
}

/// The commits of `cs` whose section and component are the given pair, in
/// input order.
pub open spec fn bucket_of(cs: Seq<Commit>, sec: Seq<char>, comp: Seq<char>) -> Seq<Commit>
    decreases cs.len(),
{
    if cs.len() == 0 {
        Seq::empty()
    } else {
        let rest = bucket_of(cs.drop_last(), sec, comp);
        if cs.last().commit_type@ == sec && cs.last().component@ == comp {
            rest.push(cs.last())
        } else {
            rest
        }
    }
}

/// The distinct section names of `cs`, each at its first appearance.
pub open spec fn first_seen_types(cs: Seq<Commit>) -> Seq<Seq<char>>
    decreases cs.len(),
{
    if cs.len() == 0 {
        Seq::empty()
    } else {
        let fs = first_seen_types(cs.drop_last());
        if fs.contains(cs.last().commit_type@) {
            fs
        } else {
            fs.push(cs.last().commit_type@)
        }
    }
}

/// A name is a section name exactly when some section carries it.
proof fn lemma_names_contains(sm: SectionMap, sec: Seq<char>)
    ensures
        sm.names().contains(sec) == sm.has_section(sec),
{
    if sm.has_section(sec) {
        let i = choose|i: int|
            0 <= i < sm.sections@.len() && (#[trigger] sm.sections@[i]).0@ == sec;
        assert(sm.names()[i] == sec);
    }
    if sm.names().contains(sec) {
        let i = choose|i: int| 0 <= i < sm.names().len() && sm.names()[i] == sec;
        assert(sm.sections@[i].0@ == sec);
    }
}

/// The index of the section with this name, or `None`, together with the
/// fact that no earlier section carries it.
fn find_section(sm: &SectionMap, name: &str) -> (r: Option<usize>)
    ensures
        match r {
            Some(j) => j < sm.sections@.len() && sm.sections@[j as int].0@ == name@ && forall|
                jj: int,
            | 0 <= jj < j ==> (#[trigger] sm.sections@[jj]).0@ != name@,
            None => forall|jj: int|
                0 <= jj < sm.sections@.len() ==> (#[trigger] sm.sections@[jj]).0@ != name@,
        },
{
    let n = sm.sections.len();
    let mut j: usize = 0;
    while j < n
        invariant
            n == sm.sections@.len(),
            j <= n,
            forall|jj: int| 0 <= jj < j ==> (#[trigger] sm.sections@[jj]).0@ != name@,
        decreases n - j,
    {
        if str_eq(sm.sections[j].0.as_str(), name) {
            return Some(j);
        }
        j = j + 1;
    }
    None
}

/// The position where a component of this name sits or would be inserted
/// to keep the entries sorted.
fn find_comp_pos(cm: &ComponentMap, comp: &str) -> (k: usize)
    ensures
        k <= cm.entries@.len(),
        forall|kk: int| 0 <= kk < k ==> str_lt_spec((#[trigger] cm.entries@[kk]).0@, comp@),
        k < cm.entries@.len() ==> !str_lt_spec(cm.entries@[k as int].0@, comp@),
{
    let m = cm.entries.len();
    let mut k: usize = 0;
    while k < m
        invariant
            m == cm.entries@.len(),
            k <= m,
            forall|kk: int| 0 <= kk < k ==> str_lt_spec((#[trigger] cm.entries@[kk]).0@, comp@),
        decreases m - k,
    {
        if !str_lt(cm.entries[k].0.as_str(), comp) {
            return k;
        }
        k = k + 1;
    }
    m
}

impl SectionMap {
    /// Appends one commit to its `(section, component)` bucket, creating
    /// the section or the component on first sight; every other bucket is
    /// untouched.
    fn insert(&mut self, c: Commit)
        requires
            old(self).wf(),
        ensures
            final(self).wf(),
            final(self).bucket(c.commit_type@, c.component@) == old(self).bucket(
                c.commit_type@,
                c.component@,
            ).push(c),
            forall|sec: Seq<char>, comp: Seq<char>|
                sec != c.commit_type@ || comp != c.component@ ==> #[trigger] final(self).bucket(
                    sec,
                    comp,
                ) == old(self).bucket(sec, comp),
            forall|sec: Seq<char>|
                #[trigger] final(self).has_section(sec) == (old(self).has_section(sec) || sec
                    == c.commit_type@),
            forall|sec: Seq<char>, comp: Seq<char>|
                #[trigger] final(self).has_bucket(sec, comp) == (old(self).has_bucket(sec, comp)
                    || (sec == c.commit_type@ && comp == c.component@)),
            final(self).count() == old(self).count() + 1,
            final(self).names() == if old(self).has_section(c.commit_type@) {
                old(self).names()
            } else {
                old(self).names().push(c.commit_type@)
            },
    {
        let ghost ct = c.commit_type@;
        let ghost cm_name = c.component@;
        let ghost ss0 = self.sections@;
        match find_section(self, c.commit_type.as_str()) {
            None => {
                let name = c.commit_type.clone();
                let comp = c.component.clone();
                let mut bucket: Vec<Commit> = Vec::new();
                bucket.push(c);
                let ghost b = bucket@;
                let mut entries: Vec<(String, Vec<Commit>)> = Vec::new();
                entries.push((comp, bucket));
                let cmap = ComponentMap { entries };
                let ghost e = (name, cmap);
                self.sections.push((name, cmap));
                proof {
                    let ss1 = self.sections@;
                    assert(ss1 =~= ss0.insert(ss0.len() as int, e));
                    assert(!old(self).has_section(ct));
                    lemma_assoc_find_none(ss0, ct);
                    lemma_assoc_find_insert_self(ss0, ss0.len() as int, e);
                    assert(assoc_find(ss1, ct) == Some(cmap));
                    assert(cmap.entries@.len() == 1);
                    assert(cmap.entries@[0].0@ == cm_name);
                    assert(cmap.entries@[0].1@ =~= Seq::<Commit>::empty().push(c));
                    assert(assoc_find(cmap.entries@, cm_name) == Some(cmap.entries@[0].1));
                    assert(final(self).bucket(ct, cm_name) == old(self).bucket(ct, cm_name).push(
                        c,
                    ));
                    assert forall|sec: Seq<char>, comp: Seq<char>|
                        sec != ct || comp != cm_name implies #[trigger] final(self).bucket(
                        sec,
                        comp,
                    ) == old(self).bucket(sec, comp) by {
                        if sec == ct {
                            assert(comp != cm_name);
                            assert(assoc_find(cmap.entries@, comp) == None::<Vec<Commit>>) by {
                                lemma_assoc_find_none(cmap.entries@, comp);
                            }
                            assert(old(self).bucket(sec, comp) =~= Seq::<Commit>::empty());
                        } else {
                            lemma_assoc_find_insert_other(ss0, ss0.len() as int, e, sec);
                        }
                    }
                    assert forall|sec: Seq<char>| #[trigger]
                        final(self).has_section(sec) == (old(self).has_section(sec) || sec
                            == ct) by {
                        if old(self).has_section(sec) {
                            let i = choose|i: int|
                                0 <= i < ss0.len() && (#[trigger] ss0[i]).0@ == sec;
                            assert(ss1[i].0@ == sec);
                        }
                        if sec == ct {
                            assert(ss1[ss0.len() as int].0@ == sec);
                        }
                        if final(self).has_section(sec) {
                            let i = choose|i: int|
                                0 <= i < ss1.len() && (#[trigger] ss1[i]).0@ == sec;
                            if i < ss0.len() {
                                assert(ss0[i].0@ == sec);
                            }
                        }
                    }
                    assert forall|sec: Seq<char>, comp: Seq<char>| #[trigger]
                        final(self).has_bucket(sec, comp) == (old(self).has_bucket(sec, comp)
                            || (sec == ct && comp == cm_name)) by {
                        if sec == ct {
                            lemma_assoc_find_none(ss0, sec);
                            if comp != cm_name && final(self).has_bucket(sec, comp) {
                                let i = choose|i: int|
                                    0 <= i < cmap.entries@.len() && (#[trigger] cmap.entries@[i]).0@
                                        == comp;
                            }
                        } else {
                            lemma_assoc_find_insert_other(ss0, ss0.len() as int, e, sec);
                        }
                    }
                    assert(comp_count(cmap.entries@) == 1) by {
                        assert(cmap.entries@.drop_last() =~= Seq::<(String, Vec<Commit>)>::empty());
                        assert(cmap.entries@.last() == cmap.entries@[0]);
                        assert(cmap.entries@[0].1@.len() == 1);
                        assert(comp_count(cmap.entries@) == comp_count(cmap.entries@.drop_last())
                            + cmap.entries@.last().1@.len());
                    }
                    lemma_sec_count_push(ss0, e);
                    assert(final(self).names() =~= old(self).names().push(ct));
                    assert forall|i: int, j: int| 0 <= i < j < ss1.len() implies (
                    #[trigger] ss1[i]).0@ != (#[trigger] ss1[j]).0@ by {
                        if j < ss0.len() {
                            assert(ss0[i].0@ != ss0[j].0@);
                        } else {
                            assert(ss1[j].0@ == ct);
                            assert(ss0[i].0@ != ct);
                        }
                    }
                }
            },
            Some(j) => {
                let ghost cmap0 = ss0[j as int].1;
                proof {
                    lemma_assoc_find_at(ss0, j as int);
                }
                let (sname, mut cmap) = self.sections.remove(j);
                let k = find_comp_pos(&cmap, c.component.as_str());
                let ghost es0 = cmap.entries@;
                proof {
                    assert(cmap == cmap0);
                    assert forall|kk: int| 0 <= kk < es0.len() && kk != k implies (
                    #[trigger] es0[kk]).0@ != cm_name by {
                        if kk < k {
                            if es0[kk].0@ == cm_name {
                                lemma_str_lt_asym(cm_name, cm_name);
                            }
                        } else {
                            assert(k < es0.len());
                            if es0[kk as int].0@ == cm_name {
                                assert(str_lt_spec(es0[k as int].0@, es0[kk as int].0@));
                            }
                        }
                    }
                }
                let comp_here = k < cmap.entries.len() && str_eq(
                    cmap.entries[k].0.as_str(),
                    c.component.as_str(),
                );
                if comp_here {
                    let (cname, mut bucket) = cmap.entries.remove(k);
                    let ghost b0 = bucket@;
                    bucket.push(c);
                    let ghost e = (cname, bucket);
                    cmap.entries.insert(k, (cname, bucket));
                    proof {
                        assert(cmap.entries@ =~= es0.update(k as int, e));
                        let es1 = es0.update(k as int, e);
                        lemma_comp_count_update(es0, k as int, e);
                        lemma_assoc_find_at(es0, k as int);
                        assert(es1[k as int] == e);
                        assert forall|kk: int| 0 <= kk < k implies (#[trigger] es1[kk]).0@
                            != es1[k as int].0@ by {
                            assert(es1[kk] == es0[kk]);
                        }
                        lemma_assoc_find_at(es1, k as int);
                        assert forall|comp: Seq<char>| comp != cm_name implies #[trigger] assoc_find(
                            es1,
                            comp,
                        ) == assoc_find(es0, comp) by {
                            lemma_assoc_find_update_other(es0, k as int, e, comp);
                        }
                    }
                    let ghost cmap1 = cmap;
                    self.sections.insert(j, (sname, cmap));
                    proof {
                        let ghost se = (sname, cmap1);
                        let es1 = cmap1.entries@;
                        assert forall|x: int, y: int| 0 <= x < y < es1.len() implies str_lt_spec(
                            (#[trigger] es1[x]).0@,
                            (#[trigger] es1[y]).0@,
                        ) by {
                            assert(es1[x].0@ == es0[x].0@);
                            assert(es1[y].0@ == es0[y].0@);
                        }
                        assert forall|i: int| 0 <= i < es1.len() implies (
                        #[trigger] es1[i]).1@.len() > 0 by {
                            if i != k {
                                assert(es1[i] == es0[i]);
                            }
                        }
                        assert forall|comp: Seq<char>| #[trigger]
                            cmap1.has_comp(comp) == (cmap0.has_comp(comp) || comp == cm_name) by {
                            if cmap0.has_comp(comp) {
                                let i = choose|i: int|
                                    0 <= i < es0.len() && (#[trigger] es0[i]).0@ == comp;
                                assert(es1[i].0@ == comp);
                            }
                            if comp == cm_name {
                                assert(es1[k as int].0@ == comp);
                            }
                            if cmap1.has_comp(comp) {
                                let i = choose|i: int|
                                    0 <= i < es1.len() && (#[trigger] es1[i]).0@ == comp;
                                assert(es0[i].0@ == comp);
                            }
                        }
                        assert(self.sections@ =~= ss0.update(j as int, se));
                        finish_existing_section(
                            *old(self),
                            *self,
                            c,
                            j as int,
                            cmap1,
                            es0.update(k as int, e),
                        );
                    }
                } else {
                    let comp = c.component.clone();
                    let mut bucket: Vec<Commit> = Vec::new();
                    bucket.push(c);
                    let ghost e = (comp, bucket);
                    proof {
                        assert(bucket@ =~= Seq::<Commit>::empty().push(c));
                        assert forall|kk: int| 0 <= kk < es0.len() implies (
                        #[trigger] es0[kk]).0@ != cm_name by {}
                        lemma_assoc_find_none(es0, cm_name);
                        lemma_assoc_find_insert_self(es0, k as int, e);
                        lemma_comp_count_insert(es0, k as int, e);
                        if k < es0.len() {
                            lemma_str_lt_connected(es0[k as int].0@, cm_name);
                        }
                        assert forall|x: int, y: int|
                            0 <= x < y < es0.insert(k as int, e).len() implies str_lt_spec(
                            (#[trigger] es0.insert(k as int, e)[x]).0@,
                            (#[trigger] es0.insert(k as int, e)[y]).0@,
                        ) by {
                            let up = es0.insert(k as int, e);
                            if y < k {
                                assert(up[x] == es0[x] && up[y] == es0[y]);
                            } else if y == k {
                                assert(up[x] == es0[x]);
                                assert(str_lt_spec(es0[x].0@, cm_name));
                            } else {
                                assert(up[y] == es0[y - 1]);
                                if x < k {
                                    assert(up[x] == es0[x]);
                                } else if x == k {
                                    assert(y - 1 >= k);
                                    if y - 1 == k {
                                        assert(str_lt_spec(cm_name, es0[k as int].0@));
                                    } else {
                                        lemma_str_lt_trans(
                                            cm_name,
                                            es0[k as int].0@,
                                            es0[y - 1].0@,
                                        );
                                    }
                                } else {
                                    assert(up[x] == es0[x - 1]);
                                }
                            }
                        }
                    }
                    cmap.entries.insert(k, (comp, bucket));
                    proof {
                        assert(cmap.entries@ =~= es0.insert(k as int, e));
                    }
                    let ghost cmap1 = cmap;
                    self.sections.insert(j, (sname, cmap));
                    proof {
                        let es1 = cmap1.entries@;
                        assert(es1 == es0.insert(k as int, e));
                        assert forall|i: int| 0 <= i < es1.len() implies (
                        #[trigger] es1[i]).1@.len() > 0 by {
                            if i < k {
                                assert(es1[i] == es0[i]);
                            } else if i == k {
                                assert(es1[i] == e);
                            } else {
                                assert(es1[i] == es0[i - 1]);
                            }
                        }
                        assert forall|cn: Seq<char>| cn != cm_name implies #[trigger] assoc_find(
                            es1,
                            cn,
                        ) == assoc_find(es0, cn) by {
                            lemma_assoc_find_insert_other(es0, k as int, e, cn);
                        }
                        assert forall|cn: Seq<char>| #[trigger]
                            cmap1.has_comp(cn) == (cmap0.has_comp(cn) || cn == cm_name) by {
                            if cmap0.has_comp(cn) {
                                let i = choose|i: int|
                                    0 <= i < es0.len() && (#[trigger] es0[i]).0@ == cn;
                                if i < k {
                                    assert(es1[i].0@ == cn);
                                } else {
                                    assert(es1[i + 1].0@ == cn);
                                }
                            }
                            if cn == cm_name {
                                assert(es1[k as int].0@ == cn);
                            }
                            if cmap1.has_comp(cn) && cn != cm_name {
                                let i = choose|i: int|
                                    0 <= i < es1.len() && (#[trigger] es1[i]).0@ == cn;
                                if i < k {
                                    assert(es0[i].0@ == cn);
                                } else if i == k {
                                    assert(es1[i].0@ == cm_name);
                                } else {
                                    assert(es0[i - 1].0@ == cn);
                                }
                            }
                        }
                        assert(self.sections@ =~= ss0.update(j as int, (sname, cmap1)));
                        finish_existing_section(
                            *old(self),
                            *self,
                            c,
                            j as int,
                            cmap1,
                            es0.insert(k as int, e),
                        );
                    }
                }
            },
        }
    }
}

impl SectionMap {
    /// Creates a section map from a vector of commits, in one pass: each
    /// commit lands in the bucket named by its own section and component
    /// fields, in input order.  Every bucket of the result holds exactly
    /// the input commits with that `(section, component)` pair; sections
    /// appear in first-seen order, components in name order; and the
    /// total number of held commits equals the input length, so each
    /// commit sits in exactly one bucket.
    pub fn from_commits(commits: Vec<Commit>) -> (sm: SectionMap)
        ensures
            sm.wf(),
            forall|sec: Seq<char>, comp: Seq<char>|
                #[trigger] sm.bucket(sec, comp) == bucket_of(commits@, sec, comp),
            forall|sec: Seq<char>|
                #[trigger] sm.has_section(sec) == exists|i: int|
                    0 <= i < commits@.len() && (#[trigger] commits@[i]).commit_type@ == sec,
            forall|sec: Seq<char>, comp: Seq<char>|
                #[trigger] sm.has_bucket(sec, comp) == exists|i: int|
                    0 <= i < commits@.len() && (#[trigger] commits@[i]).commit_type@ == sec
                        && commits@[i].component@ == comp,
            sm.count() == commits@.len(),
            sm.names() == first_seen_types(commits@),
            commits@.len() == 0 ==> sm.sections@.len() == 0,
    {
        let ghost orig = commits@;
        let mut rest = commits;
        let mut sm = SectionMap { sections: Vec::new() };
        proof {
            assert(orig.skip(0) =~= orig);
            assert(orig.take(0) =~= Seq::<Commit>::empty());
            assert forall|sec: Seq<char>, comp: Seq<char>| #[trigger]
                sm.bucket(sec, comp) == bucket_of(orig.take(0), sec, comp) by {
                assert(sm.bucket(sec, comp) =~= Seq::<Commit>::empty());
                assert(bucket_of(orig.take(0), sec, comp) =~= Seq::<Commit>::empty());
            }
            assert(sm.names() =~= first_seen_types(orig.take(0)));
        }
        while rest.len() > 0
            invariant
                rest@.len() <= orig.len(),
                rest@ == orig.skip(orig.len() - rest@.len()),
                sm.wf(),
                forall|sec: Seq<char>, comp: Seq<char>|
                    #[trigger] sm.bucket(sec, comp) == bucket_of(
                        orig.take(orig.len() - rest@.len()),
                        sec,
                        comp,
                    ),
                forall|sec: Seq<char>|
                    #[trigger] sm.has_section(sec) == exists|i: int|
                        0 <= i < orig.len() - rest@.len() && (#[trigger] orig[i]).commit_type@
                            == sec,
                forall|sec: Seq<char>, comp: Seq<char>|
                    #[trigger] sm.has_bucket(sec, comp) == exists|i: int|
                        0 <= i < orig.len() - rest@.len() && (#[trigger] orig[i]).commit_type@
                            == sec && orig[i].component@ == comp,
                sm.count() == orig.len() - rest@.len(),
                sm.names() == first_seen_types(orig.take(orig.len() - rest@.len())),
            decreases rest@.len(),
        {
            let ghost k = orig.len() - rest@.len();
            let ghost pre_sm = sm;
            let c = rest.remove(0);
            proof {
                assert(c == orig[k]);
                assert(rest@ =~= orig.skip(k + 1));
                assert(orig.take(k + 1).drop_last() =~= orig.take(k));
                assert(orig.take(k + 1).last() == orig[k]);
            }
            sm.insert(c);
            proof {
                let ct = c.commit_type@;
                let cm = c.component@;
                let t0 = orig.take(k);
                let t1 = orig.take(k + 1);
                assert forall|sec: Seq<char>, comp: Seq<char>| #[trigger]
                    sm.bucket(sec, comp) == bucket_of(t1, sec, comp) by {
                    if sec == ct && comp == cm {
                        assert(bucket_of(t1, sec, comp) == bucket_of(t0, sec, comp).push(c));
                    } else {
                        assert(bucket_of(t1, sec, comp) == bucket_of(t0, sec, comp));
                    }
                }
                assert forall|sec: Seq<char>| #[trigger]
                    sm.has_section(sec) == exists|i: int|
                        0 <= i < k + 1 && (#[trigger] orig[i]).commit_type@ == sec by {
                    if sm.has_section(sec) {
                        if pre_sm.has_section(sec) {
                            let i = choose|i: int|
                                0 <= i < k && (#[trigger] orig[i]).commit_type@ == sec;
                            assert(0 <= i < k + 1 && orig[i].commit_type@ == sec);
                        } else {
                            assert(sec == ct);
                            assert(0 <= k < k + 1 && orig[k].commit_type@ == sec);
                        }
                    }
                    if exists|i: int| 0 <= i < k + 1 && (#[trigger] orig[i]).commit_type@ == sec {
                        let i = choose|i: int|
                            0 <= i < k + 1 && (#[trigger] orig[i]).commit_type@ == sec;
                        if i < k {
                            assert(pre_sm.has_section(sec));
                        } else {
                            assert(sec == ct);
                        }
                    }
                }
                assert forall|sec: Seq<char>, comp: Seq<char>| #[trigger]
                    sm.has_bucket(sec, comp) == exists|i: int|
                        0 <= i < k + 1 && (#[trigger] orig[i]).commit_type@ == sec
                            && orig[i].component@ == comp by {
                    if sm.has_bucket(sec, comp) {
                        if pre_sm.has_bucket(sec, comp) {
                            let i = choose|i: int|
                                0 <= i < k && (#[trigger] orig[i]).commit_type@ == sec
                                    && orig[i].component@ == comp;
                            assert(0 <= i < k + 1 && orig[i].commit_type@ == sec
                                && orig[i].component@ == comp);
                        } else {
                            assert(sec == ct && comp == cm);
                            assert(0 <= k < k + 1 && orig[k].commit_type@ == sec
                                && orig[k].component@ == comp);
                        }
                    }
                    if exists|i: int|
                        0 <= i < k + 1 && (#[trigger] orig[i]).commit_type@ == sec
                            && orig[i].component@ == comp {
                        let i = choose|i: int|
                            0 <= i < k + 1 && (#[trigger] orig[i]).commit_type@ == sec
                                && orig[i].component@ == comp;
                        if i < k {
                            assert(pre_sm.has_bucket(sec, comp));
                        } else {
                            assert(sec == ct && comp == cm);
                        }
                    }
                }
                lemma_names_contains(pre_sm, ct);
                assert(first_seen_types(t0).contains(ct) == pre_sm.has_section(ct));
                assert(sm.names() == first_seen_types(t1));
            }
        }
        proof {
            assert(orig.take(orig.len() as int) =~= orig);
        }
        sm
    }
}

/// The first section carrying this name, as a sequence of zero or one
/// entries.
pub open spec fn first_named(
    ss: Seq<(String, ComponentMap)>,
    name: Seq<char>,
) -> Seq<(String, ComponentMap)>
    decreases ss.len(),
{
    if ss.len() == 0 {
        Seq::empty()
    } else if ss[0].0@ == name {
        seq![ss[0]]
    } else {
        first_named(ss.drop_first(), name)
    }
}

/// The sections with the first one of this name taken out.
pub open spec fn remove_first_named(
    ss: Seq<(String, ComponentMap)>,
    name: Seq<char>,
) -> Seq<(String, ComponentMap)>
    decreases ss.len(),
{
    if ss.len() == 0 {
        Seq::empty()
    } else if ss[0].0@ == name {
        ss.drop_first()
    } else {
        seq![ss[0]] + remove_first_named(ss.drop_first(), name)
    }
}

/// The display order of sections: for each preferred name in turn, the
/// section of that name (if still present) moves to the front, and
/// whatever is left follows in stored order.
pub open spec fn spec_display_order(
    ss: Seq<(String, ComponentMap)>,
    pref: Seq<Seq<char>>,
) -> Seq<(String, ComponentMap)>
    decreases pref.len(),
{
    if pref.len() == 0 {
        ss
    } else {
        first_named(ss, pref[0]) + spec_display_order(
            remove_first_named(ss, pref[0]),
            pref.drop_first(),
        )
    }
}

/// A name present first at index `j` is what `first_named` yields, and
/// removing it removes exactly the entry at `j`.
proof fn lemma_named_at(ss: Seq<(String, ComponentMap)>, j: int, name: Seq<char>)
    requires
        0 <= j < ss.len(),
        ss[j].0@ == name,
        forall|jj: int| 0 <= jj < j ==> (#[trigger] ss[jj]).0@ != name,
    ensures
        first_named(ss, name) == seq![ss[j]],
        remove_first_named(ss, name) == ss.remove(j),
    decreases j,
{
    if j == 0 {
        assert(ss.drop_first() =~= ss.remove(0));
    } else {
        let rest = ss.drop_first();
        assert forall|jj: int| 0 <= jj < j - 1 implies (#[trigger] rest[jj]).0@ != name by {
            assert(rest[jj] == ss[jj + 1]);
        }
        assert(rest[j - 1] == ss[j]);
        lemma_named_at(rest, j - 1, name);
        assert(seq![ss[0]] + rest.remove(j - 1) =~= ss.remove(j));
    }
}

/// A name present nowhere is not found, and removing it changes nothing.
proof fn lemma_named_none(ss: Seq<(String, ComponentMap)>, name: Seq<char>)
    requires
        forall|jj: int| 0 <= jj < ss.len() ==> (#[trigger] ss[jj]).0@ != name,
    ensures
        first_named(ss, name) == Seq::<(String, ComponentMap)>::empty(),
        remove_first_named(ss, name) == ss,
    decreases ss.len(),
{
    if ss.len() > 0 {
        let rest = ss.drop_first();
        assert forall|jj: int| 0 <= jj < rest.len() implies (#[trigger] rest[jj]).0@ != name by {
            assert(rest[jj] == ss[jj + 1]);
        }
        lemma_named_none(rest, name);
        assert(seq![ss[0]] + rest =~= ss);
    }
}

impl SectionMap {
    /// The built-in sections in their preferred display order; anything
    /// else follows in the order it was first seen.
    pub fn default_display_order() -> (r: Vec<String>)
        ensures
            r.deep_view() == seq!["Features"@, "Bug Fixes"@, "Breaks"@],
    {
        let mut r: Vec<String> = Vec::new();
        r.push(String::from_str("Features"));
        r.push(String::from_str("Bug Fixes"));
        r.push(String::from_str("Breaks"));
        proof {
            assert(r.deep_view() =~= seq!["Features"@, "Bug Fixes"@, "Breaks"@]);
        }
        r
    }

    /// Reorders the sections for display: each preferred name in turn
    /// moves its section to the front, the rest keep their stored order.
    pub fn ordered_for_display(self, preferred: &Vec<String>) -> (r: SectionMap)
        ensures
            r.sections@ == spec_display_order(self.sections@, preferred.deep_view()),
    {
        let ghost ss0 = self.sections@;
        let ghost pv = preferred.deep_view();
        let mut sections = self.sections;
        let mut out: Vec<(String, ComponentMap)> = Vec::new();
        let np = preferred.len();
        let mut pi: usize = 0;
        proof {
            assert(pv.skip(0) =~= pv);
            assert(out@ =~= Seq::<(String, ComponentMap)>::empty());
        }
        while pi < np
            invariant
                pi <= np,
                np == pv.len(),
                pv == preferred.deep_view(),
                out@ + spec_display_order(sections@, pv.skip(pi as int)) == spec_display_order(
                    ss0,
                    pv,
                ),
            decreases np - pi,
        {
            let ghost ssc = sections@;
            let name = &preferred[pi];
            proof {
                assert(pv[pi as int] == preferred@[pi as int]@);
                assert(pv.skip(pi as int)[0] == pv[pi as int]);
                assert(pv.skip(pi as int).drop_first() =~= pv.skip(pi + 1));
            }
            let n = sections.len();
            let mut j: usize = 0;
            let mut found = false;
            while j < n && !found
                invariant
                    sections@ == ssc,
                    n == ssc.len(),
                    j <= n,
                    name@ == preferred@[pi as int]@,
                    !found ==> forall|jj: int| 0 <= jj < j ==> (#[trigger] ssc[jj]).0@
                        != preferred@[pi as int]@,
                    found ==> j < n && ssc[j as int].0@ == preferred@[pi as int]@ && forall|
                        jj: int,
                    | 0 <= jj < j ==> (#[trigger] ssc[jj]).0@ != preferred@[pi as int]@,
                    pi < preferred@.len(),
                decreases n - j + (if found {
                    0int
                } else {
                    1int
                }),
            {
                if str_eq(sections[j].0.as_str(), name.as_str()) {
                    found = true;
                } else {
                    j = j + 1;
                }
            }
            if found {
                let entry = sections.remove(j);
                let ghost e = entry;
                out.push(entry);
                proof {
                    lemma_named_at(ssc, j as int, pv[pi as int]);
                    assert(out@.drop_last() + (seq![e] + spec_display_order(
                        sections@,
                        pv.skip(pi + 1),
                    )) =~= out@ + spec_display_order(sections@, pv.skip(pi + 1)));
                }
            } else {
                proof {
                    lemma_named_none(ssc, pv[pi as int]);
                    assert(Seq::<(String, ComponentMap)>::empty() + spec_display_order(
                        sections@,
                        pv.skip(pi + 1),
                    ) =~= spec_display_order(sections@, pv.skip(pi + 1)));
                }
            }
            pi = pi + 1;
        }
        proof {
            assert(pv.skip(np as int).len() == 0);
        }
        let mut out2 = out;
        out2.append(&mut sections);
        SectionMap { sections: out2 }
    }
}

/// Grouping preserves order: when every commit of the input shares one
/// `(section, component)` pair, the bucket of that pair reads back the
/// input sequence itself, unchanged; together with the bucket clause of
/// `from_commits`, the grouped map returns such an input intact.
pub proof fn lemma_grouping_preserves_order(cs: Seq<Commit>, sec: Seq<char>, comp: Seq<char>)
    requires
        forall|i: int|
            0 <= i < cs.len() ==> (#[trigger] cs[i]).commit_type@ == sec && cs[i].component@
                == comp,
    ensures
        bucket_of(cs, sec, comp) == cs,
    decreases cs.len(),
{
    if cs.len() > 0 {
        let rest = cs.drop_last();
        assert forall|i: int|
            0 <= i < rest.len() implies (#[trigger] rest[i]).commit_type@ == sec
                && rest[i].component@ == comp by {
            assert(rest[i] == cs[i]);
        }
        lemma_grouping_preserves_order(rest, sec, comp);
        assert(cs[cs.len() - 1].commit_type@ == sec);
        assert(rest.push(cs.last()) =~= cs);
    }
}

/// The shared tail of the two existing-section cases of `insert`: from
/// "the section entry at `j` was replaced by `cmap1`, whose entries treat
/// the commit's component bucket as pushed and everything else as before"
/// conclude the full contract of `insert`.
proof fn finish_existing_section(
    pre: SectionMap,
    post: SectionMap,
    c: Commit,
    j: int,
    cmap1: ComponentMap,
    es1: Seq<(String, Vec<Commit>)>,
)
    requires
        pre.wf(),
        0 <= j < pre.sections@.len(),
        pre.sections@[j].0@ == c.commit_type@,
        forall|jj: int| 0 <= jj < j ==> (#[trigger] pre.sections@[jj]).0@ != c.commit_type@,
        cmap1.entries@ == es1,
        post.sections@ == pre.sections@.update(j, (pre.sections@[j].0, cmap1)),
        cmap1.wf(),
        cmap1.entries@.len() > 0,
        comp_count(es1) == comp_count(pre.sections@[j].1.entries@) + 1,
        assoc_find(es1, c.component@) matches Some(nb) && nb@ == (match assoc_find(
            pre.sections@[j].1.entries@,
            c.component@,
        ) {
            None => Seq::<Commit>::empty(),
            Some(b) => b@,
        }).push(c),
        forall|comp: Seq<char>|
            comp != c.component@ ==> #[trigger] assoc_find(es1, comp) == assoc_find(
                pre.sections@[j].1.entries@,
                comp,
            ),
        forall|comp: Seq<char>|
            #[trigger] cmap1.has_comp(comp) == (pre.sections@[j].1.has_comp(comp) || comp
                == c.component@),
    ensures
        post.wf(),
        post.bucket(c.commit_type@, c.component@) == pre.bucket(c.commit_type@, c.component@).push(
            c,
        ),
        forall|sec: Seq<char>, comp: Seq<char>|
            sec != c.commit_type@ || comp != c.component@ ==> #[trigger] post.bucket(sec, comp)
                == pre.bucket(sec, comp),
        forall|sec: Seq<char>|
            #[trigger] post.has_section(sec) == (pre.has_section(sec) || sec == c.commit_type@),
        forall|sec: Seq<char>, comp: Seq<char>|
            #[trigger] post.has_bucket(sec, comp) == (pre.has_bucket(sec, comp) || (sec
                == c.commit_type@ && comp == c.component@)),
        post.count() == pre.count() + 1,
        post.names() == pre.names(),
{
    let ct = c.commit_type@;
    let cm_name = c.component@;
    let ss0 = pre.sections@;
    let ss1 = post.sections@;
    let se = (ss0[j].0, cmap1);
    lemma_assoc_find_at(ss0, j);
    assert(ss1[j] == se);
    assert forall|jj: int| 0 <= jj < j implies (#[trigger] ss1[jj]).0@ != ct by {
        assert(ss1[jj] == ss0[jj]);
    }
    lemma_assoc_find_at(ss1, j);
    assert(assoc_find(ss1, ct) == Some(cmap1));
    assert(post.bucket(ct, cm_name) == pre.bucket(ct, cm_name).push(c));
    assert forall|sec: Seq<char>, comp: Seq<char>|
        sec != ct || comp != cm_name implies #[trigger] post.bucket(sec, comp) == pre.bucket(
        sec,
        comp,
    ) by {
        if sec == ct {
            assert(comp != cm_name);
        } else {
            lemma_assoc_find_update_other(ss0, j, se, sec);
        }
    }
    assert forall|sec: Seq<char>| #[trigger]
        post.has_section(sec) == (pre.has_section(sec) || sec == ct) by {
        if pre.has_section(sec) {
            let i = choose|i: int| 0 <= i < ss0.len() && (#[trigger] ss0[i]).0@ == sec;
            assert(ss1[i].0@ == sec);
        }
        if sec == ct {
            assert(ss1[j].0@ == sec);
        }
        if post.has_section(sec) {
            let i = choose|i: int| 0 <= i < ss1.len() && (#[trigger] ss1[i]).0@ == sec;
            assert(ss0[i].0@ == sec);
        }
    }
    assert forall|sec: Seq<char>, comp: Seq<char>| #[trigger]
        post.has_bucket(sec, comp) == (pre.has_bucket(sec, comp) || (sec == ct && comp
            == cm_name)) by {
        if sec == ct {
            assert(assoc_find(ss0, sec) == Some(ss0[j].1));
            assert(assoc_find(ss1, sec) == Some(cmap1));
        } else {
            lemma_assoc_find_update_other(ss0, j, se, sec);
        }
    }
    lemma_sec_count_update(ss0, j, se);
    assert(post.names() =~= pre.names());
    assert forall|x: int, y: int| 0 <= x < y < ss1.len() implies (#[trigger] ss1[x]).0@ != (
    #[trigger] ss1[y]).0@ by {
        assert(ss1[x].0@ == ss0[x].0@);
        assert(ss1[y].0@ == ss0[y].0@);
    }
    assert forall|i: int| 0 <= i < ss1.len() implies (#[trigger] ss1[i]).1.wf()
        && ss1[i].1.entries@.len() > 0 by {
        if i != j {
            assert(ss1[i] == ss0[i]);
        }
    }
}

} // verus!
