//! Per-subdir reconciliation: which records the mode keeps, which
//! destination archives must go, which packages must be fetched, and the
//! manifest that is written once both have happened.

use vstd::prelude::*;
use crate::archive::{spec_archive_type, spec_is_archive, ArchiveType};
use crate::filter::{spec_keeps, MirrorMode};
use crate::manifest::{entries_view, has_entry, has_key, nodup_keys, RepoData};
use crate::record::{PackageRecord, RecordV};

verus! {

/// The entries of `s` that the mode keeps, in order.
pub open spec fn kept_of(s: Seq<(Seq<char>, RecordV)>, mode: MirrorMode) -> Seq<
    (Seq<char>, RecordV),
>
    decreases s.len(),
{
    if s.len() == 0 {
        Seq::empty()
    } else {
        let rest = kept_of(s.drop_last(), mode);
        if spec_keeps(mode, s.last().1) {
            rest.push(s.last())
        } else {
            rest
        }
    }
}

/// The entries of `s` whose key names an archive of type `t`, in order.
pub open spec fn part_of(s: Seq<(Seq<char>, RecordV)>, t: ArchiveType) -> Seq<
    (Seq<char>, RecordV),
>
    decreases s.len(),
{
    if s.len() == 0 {
        Seq::empty()
    } else {
        let rest = part_of(s.drop_last(), t);
        if spec_archive_type(s.last().0) == Some(t) {
            rest.push(s.last())
        } else {
            rest
        }
    }
}

/// Some entry of `s` has key `k` and a record the mode keeps.
pub open spec fn spec_key_kept(s: Seq<(Seq<char>, RecordV)>, mode: MirrorMode, k: Seq<char>) -> bool {
    exists|j: int| #![trigger s[j]] 0 <= j < s.len() && s[j].0 == k && spec_keeps(mode, s[j].1)
}

/// Every kept entry comes from `s` and passes the mode; every passing entry
/// of `s` is kept.
pub proof fn lemma_kept_of_props(s: Seq<(Seq<char>, RecordV)>, mode: MirrorMode)
    ensures
        forall|i: int|
            0 <= i < kept_of(s, mode).len() ==> s.contains(#[trigger] kept_of(s, mode)[i])
                && spec_keeps(mode, kept_of(s, mode)[i].1),
        forall|j: int|
            0 <= j < s.len() && spec_keeps(mode, (#[trigger] s[j]).1) ==> kept_of(
                s,
                mode,
            ).contains(s[j]),
    decreases s.len(),
{
    if s.len() == 0 {
    } else {
        let pre = s.drop_last();
        let rest = kept_of(pre, mode);
        lemma_kept_of_props(pre, mode);
        assert forall|i: int| 0 <= i < kept_of(s, mode).len() implies s.contains(
            #[trigger] kept_of(s, mode)[i],
        ) && spec_keeps(mode, kept_of(s, mode)[i].1) by {
            if i < rest.len() {
                assert(kept_of(s, mode)[i] == rest[i]);
                let w = choose|w: int| 0 <= w < pre.len() && pre[w] == rest[i];
                assert(s[w] == rest[i]);
            } else {
                assert(kept_of(s, mode)[i] == s.last());
                assert(s[s.len() - 1] == s.last());
            }
        }
        assert forall|j: int| 0 <= j < s.len() && spec_keeps(mode, (#[trigger] s[j]).1) implies
            kept_of(s, mode).contains(s[j]) by {
            if j < s.len() - 1 {
                assert(pre[j] == s[j]);
                assert(rest.contains(s[j]));
                let w = choose|w: int| 0 <= w < rest.len() && rest[w] == s[j];
                assert(kept_of(s, mode)[w] == s[j]);
            } else {
                assert(s[j] == s.last());
                assert(kept_of(s, mode).last() == s.last());
            }
        }
    }
}

/// Filtering by the mode keeps keys unique.
pub proof fn lemma_kept_of_nodup(s: Seq<(Seq<char>, RecordV)>, mode: MirrorMode)
    requires
        nodup_keys(s),
    ensures
        nodup_keys(kept_of(s, mode)),
    decreases s.len(),
{
    if s.len() == 0 {
    } else {
        let pre = s.drop_last();
        let rest = kept_of(pre, mode);
        assert forall|i: int, j: int| 0 <= i < j < pre.len() implies (#[trigger] pre[i]).0 != (
        #[trigger] pre[j]).0 by {
            assert(s[i] == pre[i]);
            assert(s[j] == pre[j]);
        }
        lemma_kept_of_nodup(pre, mode);
        lemma_kept_of_props(pre, mode);
        if spec_keeps(mode, s.last().1) {
            assert forall|i: int| 0 <= i < rest.len() implies (#[trigger] rest[i]).0 != s.last().0
                by {
                let w = choose|w: int| 0 <= w < pre.len() && pre[w] == rest[i];
                assert(s[w] == pre[w]);
                assert(s[w].0 != s[s.len() - 1].0);
            }
            assert forall|i: int, j: int|
                0 <= i < j < kept_of(s, mode).len() implies (#[trigger] kept_of(s, mode)[i]).0 != (
            #[trigger] kept_of(s, mode)[j]).0 by {
                if j < rest.len() {
                    assert(kept_of(s, mode)[i] == rest[i]);
                    assert(kept_of(s, mode)[j] == rest[j]);
                } else {
                    assert(kept_of(s, mode)[i] == rest[i]);
                    assert(kept_of(s, mode)[j] == s.last());
                }
            }
        }
    }
}

/// Membership in the kept entries, by key.
pub proof fn lemma_kept_of_key(s: Seq<(Seq<char>, RecordV)>, mode: MirrorMode, k: Seq<char>)
    ensures
        has_key(kept_of(s, mode), k) == spec_key_kept(s, mode, k),
{
    lemma_kept_of_props(s, mode);
    if has_key(kept_of(s, mode), k) {
        let i = choose|i: int|
            #![trigger kept_of(s, mode)[i]]
            0 <= i < kept_of(s, mode).len() && kept_of(s, mode)[i].0 == k;
        let w = choose|w: int| 0 <= w < s.len() && s[w] == kept_of(s, mode)[i];
        assert(0 <= w < s.len() && s[w].0 == k && spec_keeps(mode, s[w].1));
    }
    if spec_key_kept(s, mode, k) {
        let j = choose|j: int|
            #![trigger s[j]]
            0 <= j < s.len() && s[j].0 == k && spec_keeps(mode, s[j].1);
        assert(kept_of(s, mode).contains(s[j]));
        let w = choose|w: int| 0 <= w < kept_of(s, mode).len() && kept_of(s, mode)[w] == s[j];
        assert(kept_of(s, mode)[w].0 == k);
    }
}

/// Membership in the kept entries, by entry, under unique keys.
pub proof fn lemma_kept_of_entry(s: Seq<(Seq<char>, RecordV)>, mode: MirrorMode, k: Seq<char>, r: RecordV)
    ensures
        has_entry(kept_of(s, mode), k, r) == (has_entry(s, k, r) && spec_keeps(mode, r)),
{
    lemma_kept_of_props(s, mode);
    if has_entry(kept_of(s, mode), k, r) {
        let i = choose|i: int|
            #![trigger kept_of(s, mode)[i]]
            0 <= i < kept_of(s, mode).len() && kept_of(s, mode)[i].0 == k && kept_of(s, mode)[i].1
                == r;
        let w = choose|w: int| 0 <= w < s.len() && s[w] == kept_of(s, mode)[i];
        assert(0 <= w < s.len() && s[w].0 == k && s[w].1 == r);
    }
    if has_entry(s, k, r) && spec_keeps(mode, r) {
        let j = choose|j: int| #![trigger s[j]] 0 <= j < s.len() && s[j].0 == k && s[j].1 == r;
        assert(kept_of(s, mode).contains(s[j]));
        let w = choose|w: int| 0 <= w < kept_of(s, mode).len() && kept_of(s, mode)[w] == s[j];
        assert(kept_of(s, mode)[w].0 == k && kept_of(s, mode)[w].1 == r);
    }
}

/// The partition by archive type mirrors `kept_of`: origin, passing
/// predicate, and key uniqueness.
pub proof fn lemma_part_of_props(s: Seq<(Seq<char>, RecordV)>, t: ArchiveType)
    ensures
        forall|i: int|
            0 <= i < part_of(s, t).len() ==> s.contains(#[trigger] part_of(s, t)[i])
                && spec_archive_type(part_of(s, t)[i].0) == Some(t),
        forall|j: int|
            0 <= j < s.len() && spec_archive_type((#[trigger] s[j]).0) == Some(t) ==> part_of(
                s,
                t,
            ).contains(s[j]),
    decreases s.len(),
{
    if s.len() == 0 {
    } else {
        let pre = s.drop_last();
        let rest = part_of(pre, t);
        lemma_part_of_props(pre, t);
        assert forall|i: int| 0 <= i < part_of(s, t).len() implies s.contains(
            #[trigger] part_of(s, t)[i],
        ) && spec_archive_type(part_of(s, t)[i].0) == Some(t) by {
            if i < rest.len() {
                assert(part_of(s, t)[i] == rest[i]);
                let w = choose|w: int| 0 <= w < pre.len() && pre[w] == rest[i];
                assert(s[w] == rest[i]);
            } else {
                assert(part_of(s, t)[i] == s.last());
                assert(s[s.len() - 1] == s.last());
            }
        }
        assert forall|j: int|
            0 <= j < s.len() && spec_archive_type((#[trigger] s[j]).0) == Some(t) implies part_of(
            s,
            t,
        ).contains(s[j]) by {
            if j < s.len() - 1 {
                assert(pre[j] == s[j]);
                assert(rest.contains(s[j]));
                let w = choose|w: int| 0 <= w < rest.len() && rest[w] == s[j];
                assert(part_of(s, t)[w] == s[j]);
            } else {
                assert(s[j] == s.last());
                assert(part_of(s, t).last() == s.last());
            }
        }
    }
}

/// Partitioning keeps keys unique.
pub proof fn lemma_part_of_nodup(s: Seq<(Seq<char>, RecordV)>, t: ArchiveType)
    requires
        nodup_keys(s),
    ensures
        nodup_keys(part_of(s, t)),
    decreases s.len(),
{
    if s.len() == 0 {
    } else {
        let pre = s.drop_last();
        let rest = part_of(pre, t);
        assert forall|i: int, j: int| 0 <= i < j < pre.len() implies (#[trigger] pre[i]).0 != (
        #[trigger] pre[j]).0 by {
            assert(s[i] == pre[i]);
            assert(s[j] == pre[j]);
        }
        lemma_part_of_nodup(pre, t);
        lemma_part_of_props(pre, t);
        if spec_archive_type(s.last().0) == Some(t) {
            assert forall|i: int| 0 <= i < rest.len() implies (#[trigger] rest[i]).0 != s.last().0
                by {
                let w = choose|w: int| 0 <= w < pre.len() && pre[w] == rest[i];
                assert(s[w] == pre[w]);
                assert(s[w].0 != s[s.len() - 1].0);
            }
            assert forall|i: int, j: int|
                0 <= i < j < part_of(s, t).len() implies (#[trigger] part_of(s, t)[i]).0 != (
            #[trigger] part_of(s, t)[j]).0 by {
                if j < rest.len() {
                    assert(part_of(s, t)[i] == rest[i]);
                    assert(part_of(s, t)[j] == rest[j]);
                } else {
                    assert(part_of(s, t)[i] == rest[i]);
                    assert(part_of(s, t)[j] == s.last());
                }
            }
        }
    }
}

/// Membership in a partition, by entry.
pub proof fn lemma_part_of_entry(s: Seq<(Seq<char>, RecordV)>, t: ArchiveType, k: Seq<char>, r: RecordV)
    ensures
        has_entry(part_of(s, t), k, r) == (has_entry(s, k, r) && spec_archive_type(k) == Some(t)),
{
    lemma_part_of_props(s, t);
    if has_entry(part_of(s, t), k, r) {
        let i = choose|i: int|
            #![trigger part_of(s, t)[i]]
            0 <= i < part_of(s, t).len() && part_of(s, t)[i].0 == k && part_of(s, t)[i].1 == r;
        let w = choose|w: int| 0 <= w < s.len() && s[w] == part_of(s, t)[i];
        assert(0 <= w < s.len() && s[w].0 == k && s[w].1 == r);
    }
    if has_entry(s, k, r) && spec_archive_type(k) == Some(t) {
        let j = choose|j: int| #![trigger s[j]] 0 <= j < s.len() && s[j].0 == k && s[j].1 == r;
        assert(part_of(s, t).contains(s[j]));
        let w = choose|w: int| 0 <= w < part_of(s, t).len() && part_of(s, t)[w] == s[j];
        assert(part_of(s, t)[w].0 == k && part_of(s, t)[w].1 == r);
    }
}

/// The mathematical value of a list of filenames.
pub open spec fn strs_view(s: Seq<String>) -> Seq<Seq<char>> {
    s.map_values(|x: String| x@)
}

/// `k` occurs in `s`.
pub open spec fn strs_contain(s: Seq<Seq<char>>, k: Seq<char>) -> bool {
    exists|i: int| #![trigger s[i]] 0 <= i < s.len() && s[i] == k
}

/// The names in `s` are pairwise distinct.
pub open spec fn nodup_strs(s: Seq<Seq<char>>) -> bool {
    forall|i: int, j: int| 0 <= i < j < s.len() ==> #[trigger] s[i] != #[trigger] s[j]
}

/// The mathematical value of a destination listing: name and file flag.
pub open spec fn listing_view(l: Seq<(String, bool)>) -> Seq<(Seq<char>, bool)> {
    l.map_values(|p: (String, bool)| (p.0@, p.1))
}

/// Within the first `n` listing entries, `k` is the name of a file whose
/// name is a recognised archive.
pub open spec fn listed_upto(l: Seq<(Seq<char>, bool)>, n: int, k: Seq<char>) -> bool {
    (exists|i: int| #![trigger l[i]] 0 <= i < n <= l.len() && l[i].0 == k && l[i].1)
        && spec_is_archive(k)
}

/// `k` names an archive file present in the destination listing.
pub open spec fn spec_listed(l: Seq<(Seq<char>, bool)>, k: Seq<char>) -> bool {
    listed_upto(l, l.len() as int, k)
}

proof fn lemma_entries_view_push(s: Seq<(String, PackageRecord)>, p: (String, PackageRecord))
    ensures
        entries_view(s.push(p)) == entries_view(s).push((p.0@, p.1@)),
{
    assert(entries_view(s.push(p)) =~= entries_view(s).push((p.0@, p.1@)));
}

proof fn lemma_strs_view_push(s: Seq<String>, x: String)
    ensures
        strs_view(s.push(x)) == strs_view(s).push(x@),
{
    assert(strs_view(s.push(x)) =~= strs_view(s).push(x@));
}

fn contains_name(names: &Vec<String>, k: &String) -> (b: bool)
    ensures
        b == strs_contain(strs_view(names@), k@),
{
    let mut i: usize = 0;
    while i < names.len()
        invariant
            0 <= i <= names@.len(),
            forall|j: int| 0 <= j < i ==> strs_view(names@)[j] != k@,
        decreases names@.len() - i,
    {
        if names[i].eq(k) {
            proof {
                assert(strs_view(names@)[i as int] == names@[i as int]@);
            }
            return true;
        }
        proof {
            assert(strs_view(names@)[i as int] == names@[i as int]@);
        }
        i += 1;
    }
    false
}

fn map_contains_key(entries: &Vec<(String, PackageRecord)>, k: &String) -> (b: bool)
    ensures
        b == has_key(entries_view(entries@), k@),
{
    let mut i: usize = 0;
    while i < entries.len()
        invariant
            0 <= i <= entries@.len(),
            forall|j: int| 0 <= j < i ==> (#[trigger] entries_view(entries@)[j]).0 != k@,
        decreases entries@.len() - i,
    {
        if entries[i].0.eq(k) {
            proof {
                assert(entries_view(entries@)[i as int].0 == entries@[i as int].0@);
            }
            return true;
        }
        proof {
            assert(entries_view(entries@)[i as int].0 == entries@[i as int].0@);
        }
        i += 1;
    }
    false
}

/// Merges the two manifest partitions and keeps the records the mode
/// retains, in manifest order.
pub fn get_packages_to_mirror(m: &RepoData, mode: &MirrorMode) -> (kept: Vec<
    (String, PackageRecord),
>)
    ensures
        entries_view(kept@) == kept_of(m.merged_view(), *mode),
{
    let ghost pv = m.packages_view();
    let ghost cv = m.conda_view();
    let mut out: Vec<(String, PackageRecord)> = Vec::new();
    let mut i: usize = 0;
    while i < m.packages.len()
        invariant
            0 <= i <= m.packages@.len(),
            pv == m.packages_view(),
            entries_view(out@) == kept_of(pv.take(i as int), *mode),
        decreases m.packages@.len() - i,
    {
        proof {
            assert(pv.take(i as int + 1).drop_last() =~= pv.take(i as int));
            assert(pv.take(i as int + 1).last() == pv[i as int]);
            assert(pv[i as int] == (m.packages@[i as int].0@, m.packages@[i as int].1@));
        }
        if crate::filter::keeps(mode, &m.packages[i].1) {
            let filename = m.packages[i].0.clone();
            let record = m.packages[i].1.clone();
            proof {
                lemma_entries_view_push(out@, (filename, record));
            }
            out.push((filename, record));
        }
        i += 1;
    }
    proof {
        assert(pv.take(m.packages@.len() as int) =~= pv);
    }
    let mut j: usize = 0;
    while j < m.conda_packages.len()
        invariant
            0 <= j <= m.conda_packages@.len(),
            pv == m.packages_view(),
            cv == m.conda_view(),
            entries_view(out@) == kept_of(pv + cv.take(j as int), *mode),
        decreases m.conda_packages@.len() - j,
    {
        proof {
            assert((pv + cv.take(j as int + 1)).drop_last() =~= pv + cv.take(j as int));
            assert((pv + cv.take(j as int + 1)).last() == cv[j as int]);
            assert(cv[j as int] == (m.conda_packages@[j as int].0@, m.conda_packages@[j as int].1@));
        }
        if crate::filter::keeps(mode, &m.conda_packages[j].1) {
            let filename = m.conda_packages[j].0.clone();
            let record = m.conda_packages[j].1.clone();
            proof {
                lemma_entries_view_push(out@, (filename, record));
            }
            out.push((filename, record));
        }
        j += 1;
    }
    proof {
        assert(pv + cv.take(m.conda_packages@.len() as int) =~= m.merged_view());
    }
    out
}

/// The destination filenames that count for planning: files whose name is a
/// recognised archive, deduplicated. Anything else is neither counted nor
/// deleted.
pub fn recognized_archives(listing: &Vec<(String, bool)>) -> (names: Vec<String>)
    ensures
        nodup_strs(strs_view(names@)),
        forall|i: int|
            0 <= i < strs_view(names@).len() ==> spec_listed(
                listing_view(listing@),
                #[trigger] strs_view(names@)[i],
            ),
        forall|k: Seq<char>|
            #[trigger] spec_listed(listing_view(listing@), k) ==> strs_contain(
                strs_view(names@),
                k,
            ),
{
    let ghost lv = listing_view(listing@);
    let mut out: Vec<String> = Vec::new();
    let mut i: usize = 0;
    while i < listing.len()
        invariant
            0 <= i <= listing@.len(),
            lv == listing_view(listing@),
            nodup_strs(strs_view(out@)),
            forall|t: int|
                0 <= t < strs_view(out@).len() ==> spec_listed(lv, #[trigger] strs_view(out@)[t]),
            forall|k: Seq<char>|
                #[trigger] listed_upto(lv, i as int, k) ==> strs_contain(strs_view(out@), k),
        decreases listing@.len() - i,
    {
        proof {
            assert(lv[i as int] == (listing@[i as int].0@, listing@[i as int].1));
        }
        let ghost pre = strs_view(out@);
        let is_file = listing[i].1;
        let is_arch = crate::archive::archive_type_of(listing[i].0.as_str()).is_some();
        if is_file && is_arch {
            if !contains_name(&out, &listing[i].0) {
                let name = listing[i].0.clone();
                proof {
                    lemma_strs_view_push(out@, name);
                    // the pushed name is an archive file of the listing
                    assert(spec_listed(lv, name@));
                }
                out.push(name);
            }
        }
        proof {
            assert(strs_view(out@) == pre || strs_view(out@) == pre.push(
                listing@[i as int].0@,
            ));
            assert forall|t: int| 0 <= t < strs_view(out@).len() implies spec_listed(
                lv,
                #[trigger] strs_view(out@)[t],
            ) by {
                if t < pre.len() {
                    assert(strs_view(out@)[t] == pre[t]);
                }
            }
            assert forall|k: Seq<char>| #[trigger] listed_upto(lv, i as int + 1, k) implies
                strs_contain(strs_view(out@), k) by {
                if listed_upto(lv, i as int, k) {
                    let w = choose|w: int| #![trigger pre[w]] 0 <= w < pre.len() && pre[w] == k;
                    assert(strs_view(out@)[w] == k);
                } else {
                    let w = choose|w: int|
                        #![trigger lv[w]]
                        0 <= w < i as int + 1 && lv[w].0 == k && lv[w].1;
                    assert(w == i as int);
                    assert(k == listing@[i as int].0@);
                    if strs_contain(pre, k) {
                        let w2 = choose|w2: int|
                            #![trigger pre[w2]]
                            0 <= w2 < pre.len() && pre[w2] == k;
                        assert(strs_view(out@)[w2] == k);
                    } else {
                        assert(strs_view(out@) == pre.push(k));
                        assert(strs_view(out@)[strs_view(out@).len() - 1] == k);
                    }
                }
            }
            assert forall|p: int, q: int|
                0 <= p < q < strs_view(out@).len() implies #[trigger] strs_view(out@)[p]
                != #[trigger] strs_view(out@)[q] by {
                if q < pre.len() {
                    assert(pre[p] != pre[q]);
                } else if strs_view(out@).len() > pre.len() {
                    assert(strs_view(out@)[p] == pre[p]);
                    assert(!strs_contain(pre, strs_view(out@)[q]));
                    assert(pre[p] != strs_view(out@)[q]);
                }
            }
        }
        i += 1;
    }
    proof {
        assert forall|k: Seq<char>| #[trigger] spec_listed(lv, k) implies strs_contain(
            strs_view(out@),
            k,
        ) by {
            assert(listed_upto(lv, listing@.len() as int, k));
        }
    }
    out
}

/// The destination archives that no longer belong: present at the
/// destination but not among the kept filenames. Deletion goes by filename
/// identity alone.
pub fn plan_deletions(existing: &Vec<String>, kept: &Vec<(String, PackageRecord)>) -> (dels: Vec<
    String,
>)
    requires
        nodup_strs(strs_view(existing@)),
    ensures
        nodup_strs(strs_view(dels@)),
        forall|i: int|
            0 <= i < strs_view(dels@).len() ==> strs_contain(
                strs_view(existing@),
                #[trigger] strs_view(dels@)[i],
            ) && !has_key(entries_view(kept@), strs_view(dels@)[i]),
        forall|k: Seq<char>|
            #[trigger] strs_contain(strs_view(existing@), k) && !has_key(entries_view(kept@), k)
                ==> strs_contain(strs_view(dels@), k),
{
    let ghost ev = strs_view(existing@);
    let ghost kv = entries_view(kept@);
    let mut out: Vec<String> = Vec::new();
    let mut i: usize = 0;
    while i < existing.len()
        invariant
            0 <= i <= existing@.len(),
            ev == strs_view(existing@),
            kv == entries_view(kept@),
            nodup_strs(ev),
            forall|t: int|
                0 <= t < strs_view(out@).len() ==> (exists|j: int|
                    #![trigger ev[j]]
                    0 <= j < i && ev[j] == strs_view(out@)[t]) && !has_key(
                    kv,
                    #[trigger] strs_view(out@)[t],
                ),
            forall|j: int|
                0 <= j < i && !has_key(kv, #[trigger] ev[j]) ==> strs_contain(
                    strs_view(out@),
                    ev[j],
                ),
            nodup_strs(strs_view(out@)),
        decreases existing@.len() - i,
    {
        let ghost pre = strs_view(out@);
        proof {
            assert(ev[i as int] == existing@[i as int]@);
        }
        if !map_contains_key(kept, &existing[i]) {
            let name = existing[i].clone();
            proof {
                lemma_strs_view_push(out@, name);
            }
            out.push(name);
        }
        proof {
            assert(strs_view(out@) == pre || strs_view(out@) == pre.push(ev[i as int]));
            assert forall|t: int|
                0 <= t < strs_view(out@).len() implies (exists|j: int|
                #![trigger ev[j]]
                0 <= j < i as int + 1 && ev[j] == strs_view(out@)[t]) && !has_key(
                kv,
                #[trigger] strs_view(out@)[t],
            ) by {
                if t < pre.len() {
                    assert(strs_view(out@)[t] == pre[t]);
                    let j = choose|j: int| #![trigger ev[j]] 0 <= j < i as int && ev[j] == pre[t];
                    assert(0 <= j < i as int + 1 && ev[j] == strs_view(out@)[t]);
                } else {
                    assert(strs_view(out@)[t] == ev[i as int]);
                    assert(0 <= (i as int) && (i as int) < i as int + 1 && ev[i as int] == strs_view(out@)[t]);
                }
            }
            assert forall|j: int| 0 <= j < i as int + 1 && !has_key(kv, #[trigger] ev[j]) implies
                strs_contain(strs_view(out@), ev[j]) by {
                if j < i as int {
                    let w = choose|w: int|
                        #![trigger pre[w]]
                        0 <= w < pre.len() && pre[w] == ev[j];
                    assert(strs_view(out@)[w] == ev[j]);
                } else {
                    assert(strs_view(out@)[strs_view(out@).len() - 1] == ev[i as int]);
                }
            }
            assert forall|p: int, q: int|
                0 <= p < q < strs_view(out@).len() implies #[trigger] strs_view(out@)[p]
                != #[trigger] strs_view(out@)[q] by {
                if q < pre.len() {
                    assert(pre[p] != pre[q]);
                } else if strs_view(out@).len() > pre.len() {
                    assert(strs_view(out@)[p] == pre[p]);
                    assert(strs_view(out@)[q] == ev[i as int]);
                    let j = choose|j: int| #![trigger ev[j]] 0 <= j < i as int && ev[j] == pre[p];
                    assert(ev[j] != ev[i as int]);
                }
            }
        }
        i += 1;
    }
    proof {
        assert forall|t: int|
            0 <= t < strs_view(out@).len() implies strs_contain(
            ev,
            #[trigger] strs_view(out@)[t],
        ) by {
            let j = choose|j: int|
                #![trigger ev[j]]
                0 <= j < existing@.len() && ev[j] == strs_view(out@)[t];
            assert(0 <= j < ev.len() && ev[j] == strs_view(out@)[t]);
        }
        assert forall|k: Seq<char>|
            #[trigger] strs_contain(ev, k) && !has_key(kv, k) implies strs_contain(
            strs_view(out@),
            k,
        ) by {
            let j = choose|j: int| #![trigger ev[j]] 0 <= j < ev.len() && ev[j] == k;
            assert(!has_key(kv, ev[j]));
        }
    }
    out
}

/// The kept packages that the destination does not hold yet and so must be
/// fetched and written.
pub fn plan_additions(existing: &Vec<String>, kept: &Vec<(String, PackageRecord)>) -> (adds: Vec<
    (String, PackageRecord),
>)
    requires
        nodup_keys(entries_view(kept@)),
    ensures
        nodup_keys(entries_view(adds@)),
        forall|i: int|
            0 <= i < entries_view(adds@).len() ==> entries_view(kept@).contains(
                #[trigger] entries_view(adds@)[i],
            ) && !strs_contain(strs_view(existing@), entries_view(adds@)[i].0),
        forall|k: Seq<char>, r: RecordV|
            #[trigger] has_entry(entries_view(kept@), k, r) && !strs_contain(
                strs_view(existing@),
                k,
            ) ==> has_entry(entries_view(adds@), k, r),
{
    let ghost ev = strs_view(existing@);
    let ghost kv = entries_view(kept@);
    let mut out: Vec<(String, PackageRecord)> = Vec::new();
    let mut i: usize = 0;
    while i < kept.len()
        invariant
            0 <= i <= kept@.len(),
            ev == strs_view(existing@),
            kv == entries_view(kept@),
            nodup_keys(kv),
            forall|t: int|
                0 <= t < entries_view(out@).len() ==> (exists|j: int|
                    #![trigger kv[j]]
                    0 <= j < i && kv[j] == entries_view(out@)[t]) && !strs_contain(
                    ev,
                    (#[trigger] entries_view(out@)[t]).0,
                ),
            forall|j: int|
                0 <= j < i && !strs_contain(ev, (#[trigger] kv[j]).0) ==> entries_view(
                    out@,
                ).contains(kv[j]),
            nodup_keys(entries_view(out@)),
        decreases kept@.len() - i,
    {
        let ghost pre = entries_view(out@);
        proof {
            assert(kv[i as int] == (kept@[i as int].0@, kept@[i as int].1@));
        }
        if !contains_name(existing, &kept[i].0) {
            let filename = kept[i].0.clone();
            let record = kept[i].1.clone();
            proof {
                lemma_entries_view_push(out@, (filename, record));
            }
            out.push((filename, record));
        }
        proof {
            assert(entries_view(out@) == pre || entries_view(out@) == pre.push(kv[i as int]));
            assert forall|t: int|
                0 <= t < entries_view(out@).len() implies (exists|j: int|
                #![trigger kv[j]]
                0 <= j < i as int + 1 && kv[j] == entries_view(out@)[t]) && !strs_contain(
                ev,
                (#[trigger] entries_view(out@)[t]).0,
            ) by {
                if t < pre.len() {
                    assert(entries_view(out@)[t] == pre[t]);
                    let j = choose|j: int| #![trigger kv[j]] 0 <= j < i as int && kv[j] == pre[t];
                    assert(0 <= j < i as int + 1 && kv[j] == entries_view(out@)[t]);
                } else {
                    assert(entries_view(out@)[t] == kv[i as int]);
                    assert(0 <= (i as int) && (i as int) < i as int + 1 && kv[i as int] == entries_view(out@)[t]);
                }
            }
            assert forall|j: int|
                0 <= j < i as int + 1 && !strs_contain(ev, (#[trigger] kv[j]).0) implies
                entries_view(out@).contains(kv[j]) by {
                if j < i as int {
                    let w = choose|w: int| #![trigger pre[w]] 0 <= w < pre.len() && pre[w] == kv[j];
                    assert(entries_view(out@)[w] == kv[j]);
                } else {
                    assert(entries_view(out@)[entries_view(out@).len() - 1] == kv[i as int]);
                }
            }
            assert forall|p: int, q: int|
                0 <= p < q < entries_view(out@).len() implies (#[trigger] entries_view(out@)[p]).0
                != (#[trigger] entries_view(out@)[q]).0 by {
                if q < pre.len() {
                    assert(pre[p].0 != pre[q].0);
                } else if entries_view(out@).len() > pre.len() {
                    assert(entries_view(out@)[p] == pre[p]);
                    assert(entries_view(out@)[q] == kv[i as int]);
                    let j = choose|j: int| #![trigger kv[j]] 0 <= j < i as int && kv[j] == pre[p];
                    assert(kv[j].0 != kv[i as int].0);
                }
            }
        }
        i += 1;
    }
    proof {
        assert forall|t: int|
            0 <= t < entries_view(out@).len() implies kv.contains(
            #[trigger] entries_view(out@)[t],
        ) by {
            let j = choose|j: int|
                #![trigger kv[j]]
                0 <= j < kept@.len() && kv[j] == entries_view(out@)[t];
            assert(0 <= j < kv.len() && kv[j] == entries_view(out@)[t]);
        }
        assert forall|k: Seq<char>, r: RecordV|
            #[trigger] has_entry(kv, k, r) && !strs_contain(ev, k) implies has_entry(
            entries_view(out@),
            k,
            r,
        ) by {
            let j = choose|j: int| #![trigger kv[j]] 0 <= j < kv.len() && kv[j].0 == k && kv[j].1 == r;
            assert(!strs_contain(ev, kv[j].0));
            assert(entries_view(out@).contains(kv[j]));
            let w = choose|w: int|
                #![trigger entries_view(out@)[w]]
                0 <= w < entries_view(out@).len() && entries_view(out@)[w] == kv[j];
            assert(entries_view(out@)[w].0 == k && entries_view(out@)[w].1 == r);
        }
    }
    out
}

/// Rebuilds the destination manifest from the kept records: keys are
/// partitioned by archive type, while `info`, `removed` and the schema
/// version pass through unchanged.
pub fn rebuild_manifest(m: &RepoData, kept: &Vec<(String, PackageRecord)>) -> (out: RepoData)
    requires
        forall|i: int|
            0 <= i < entries_view(kept@).len() ==> spec_is_archive(
                (#[trigger] entries_view(kept@)[i]).0,
            ),
    ensures
        out.packages_view() == part_of(entries_view(kept@), ArchiveType::TarBz2),
        out.conda_view() == part_of(entries_view(kept@), ArchiveType::Conda),
        out.info == m.info,
        out.removed@ == m.removed@,
        out.version == m.version,
{
    let ghost kv = entries_view(kept@);
    let mut packages: Vec<(String, PackageRecord)> = Vec::new();
    let mut conda: Vec<(String, PackageRecord)> = Vec::new();
    let mut i: usize = 0;
    while i < kept.len()
        invariant
            0 <= i <= kept@.len(),
            kv == entries_view(kept@),
            forall|t: int|
                0 <= t < kv.len() ==> spec_is_archive((#[trigger] kv[t]).0),
            entries_view(packages@) == part_of(kv.take(i as int), ArchiveType::TarBz2),
            entries_view(conda@) == part_of(kv.take(i as int), ArchiveType::Conda),
        decreases kept@.len() - i,
    {
        proof {
            assert(kv.take(i as int + 1).drop_last() =~= kv.take(i as int));
            assert(kv.take(i as int + 1).last() == kv[i as int]);
            assert(kv[i as int] == (kept@[i as int].0@, kept@[i as int].1@));
        }
        let t = crate::archive::archive_type_of(kept[i].0.as_str());
        match t {
            Some(ArchiveType::TarBz2) => {
                let filename = kept[i].0.clone();
                let record = kept[i].1.clone();
                proof {
                    lemma_entries_view_push(packages@, (filename, record));
                }
                packages.push((filename, record));
            },
            Some(ArchiveType::Conda) => {
                let filename = kept[i].0.clone();
                let record = kept[i].1.clone();
                proof {
                    lemma_entries_view_push(conda@, (filename, record));
                }
                conda.push((filename, record));
            },
            None => {
                proof {
                    assert(false);
                }
            },
        }
        i += 1;
    }
    proof {
        assert(kv.take(kept@.len() as int) =~= kv);
    }
    let info = match &m.info {
        Some(s) => Some(s.clone()),
        None => None,
    };
    let removed = m.removed.clone();
    proof {
        assert forall|t: int| 0 <= t < removed@.len() implies removed@[t] == m.removed@[t] by {
        }
        assert(removed@ =~= m.removed@);
    }
    RepoData { info, packages, conda_packages: conda, removed, version: m.version }
}

/// The entries a mode keeps from a manifest, in manifest order.
pub open spec fn spec_kept(m: RepoData, mode: MirrorMode) -> Seq<(Seq<char>, RecordV)> {
    kept_of(m.merged_view(), mode)
}

/// One subdir's reconciliation plan: what to delete, what to fetch and
/// write, and the manifest to emit once both have happened.
pub struct SubdirPlan {
    /// Destination filenames to delete before any addition starts.
    pub to_delete: Vec<String>,
    /// Packages to fetch, verify and write.
    pub to_add: Vec<(String, PackageRecord)>,
    /// The manifest to write after all additions completed.
    pub new_manifest: RepoData,
}

/// Derives the whole reconciliation plan of one subdir from the source
/// manifest, the filter mode and the destination listing.
pub fn plan_subdir(m: &RepoData, mode: &MirrorMode, listing: &Vec<(String, bool)>) -> (plan:
    SubdirPlan)
    requires
        m.wf(),
    ensures
        plan.new_manifest.packages_view() == part_of(spec_kept(*m, *mode), ArchiveType::TarBz2),
        plan.new_manifest.conda_view() == part_of(spec_kept(*m, *mode), ArchiveType::Conda),
        plan.new_manifest.info == m.info,
        plan.new_manifest.removed@ == m.removed@,
        plan.new_manifest.version == m.version,
        plan.new_manifest.wf(),
        nodup_strs(strs_view(plan.to_delete@)),
        forall|i: int|
            0 <= i < strs_view(plan.to_delete@).len() ==> spec_listed(
                listing_view(listing@),
                #[trigger] strs_view(plan.to_delete@)[i],
            ) && !spec_key_kept(m.merged_view(), *mode, strs_view(plan.to_delete@)[i]),
        forall|k: Seq<char>|
            #[trigger] spec_listed(listing_view(listing@), k) && !spec_key_kept(
                m.merged_view(),
                *mode,
                k,
            ) ==> strs_contain(strs_view(plan.to_delete@), k),
        nodup_keys(entries_view(plan.to_add@)),
        forall|i: int|
            0 <= i < entries_view(plan.to_add@).len() ==> spec_kept(*m, *mode).contains(
                #[trigger] entries_view(plan.to_add@)[i],
            ) && !spec_listed(listing_view(listing@), entries_view(plan.to_add@)[i].0),
        forall|k: Seq<char>, r: RecordV|
            #[trigger] has_entry(spec_kept(*m, *mode), k, r) && !spec_listed(
                listing_view(listing@),
                k,
            ) ==> has_entry(entries_view(plan.to_add@), k, r),
{
    let ghost mv = m.merged_view();
    let ghost lv = listing_view(listing@);
    let kept = get_packages_to_mirror(m, mode);
    let existing = recognized_archives(listing);
    proof {
        m.lemma_wf_merged();
        lemma_kept_of_nodup(mv, *mode);
        lemma_kept_of_props(mv, *mode);
        assert forall|i: int| 0 <= i < entries_view(kept@).len() implies spec_is_archive(
            (#[trigger] entries_view(kept@)[i]).0,
        ) by {
            let w = choose|w: int| 0 <= w < mv.len() && mv[w] == entries_view(kept@)[i];
            assert(spec_is_archive(mv[w].0));
        }
        assert forall|k: Seq<char>| #[trigger] strs_contain(strs_view(existing@), k) implies
            spec_listed(lv, k) by {
            let w = choose|w: int|
                #![trigger strs_view(existing@)[w]]
                0 <= w < strs_view(existing@).len() && strs_view(existing@)[w] == k;
        }
    }
    let dels = plan_deletions(&existing, &kept);
    let adds = plan_additions(&existing, &kept);
    let new_manifest = rebuild_manifest(m, &kept);
    proof {
        assert forall|k: Seq<char>| #[trigger] has_key(entries_view(kept@), k) == spec_key_kept(
            mv,
            *mode,
            k,
        ) by {
            lemma_kept_of_key(mv, *mode, k);
        }
        assert forall|i: int|
            0 <= i < strs_view(dels@).len() implies spec_listed(
            lv,
            #[trigger] strs_view(dels@)[i],
        ) && !spec_key_kept(mv, *mode, strs_view(dels@)[i]) by {
            assert(strs_contain(strs_view(existing@), strs_view(dels@)[i]));
            lemma_kept_of_key(mv, *mode, strs_view(dels@)[i]);
        }
        assert forall|k: Seq<char>|
            #[trigger] spec_listed(lv, k) && !spec_key_kept(mv, *mode, k) implies strs_contain(
            strs_view(dels@),
            k,
        ) by {
            lemma_kept_of_key(mv, *mode, k);
            assert(strs_contain(strs_view(existing@), k));
            assert(!has_key(entries_view(kept@), k));
        }
        assert forall|i: int|
            0 <= i < entries_view(adds@).len() implies spec_kept(*m, *mode).contains(
            #[trigger] entries_view(adds@)[i],
        ) && !spec_listed(lv, entries_view(adds@)[i].0) by {
            if spec_listed(lv, entries_view(adds@)[i].0) {
                assert(strs_contain(strs_view(existing@), entries_view(adds@)[i].0));
            }
        }
        assert forall|k: Seq<char>, r: RecordV|
            #[trigger] has_entry(spec_kept(*m, *mode), k, r) && !spec_listed(lv, k) implies
            has_entry(entries_view(adds@), k, r) by {
            if strs_contain(strs_view(existing@), k) {
                assert(spec_listed(lv, k));
            }
            assert(has_entry(entries_view(kept@), k, r));
        }
        // the rebuilt manifest satisfies the partition invariant
        lemma_part_of_nodup(entries_view(kept@), ArchiveType::TarBz2);
        lemma_part_of_nodup(entries_view(kept@), ArchiveType::Conda);
        lemma_part_of_props(entries_view(kept@), ArchiveType::TarBz2);
        lemma_part_of_props(entries_view(kept@), ArchiveType::Conda);
    }
    SubdirPlan { to_delete: dels, to_add: adds, new_manifest }
}

} // verus!
