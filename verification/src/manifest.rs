//! The manifest (`repodata.json`) model: channel info carried verbatim, two
//! package maps partitioned by archive type, the tombstoned filenames and the
//! schema version. Maps are association lists with unique keys, as parsed
//! manifests deliver them.

use vstd::prelude::*;
use crate::archive::{spec_archive_type, spec_is_archive, ArchiveType};
use crate::record::{PackageRecord, RecordV};

verus! {

/// A parsed manifest.
pub struct RepoData {
    /// Channel metadata, preserved verbatim as its serialized text.
    pub info: Option<String>,
    /// The `.tar.bz2` packages: filename to record, unique filenames.
    pub packages: Vec<(String, PackageRecord)>,
    /// The `.conda` packages: filename to record, unique filenames.
    pub conda_packages: Vec<(String, PackageRecord)>,
    /// Filenames tombstoned upstream, preserved verbatim.
    pub removed: Vec<String>,
    /// The manifest schema version, preserved verbatim.
    pub version: Option<u64>,
}

/// The mathematical value of an association list of records.
pub open spec fn entries_view(s: Seq<(String, PackageRecord)>) -> Seq<(Seq<char>, RecordV)> {
    s.map_values(|p: (String, PackageRecord)| (p.0@, p.1@))
}

/// Some entry of `s` has key `k`.
pub open spec fn has_key(s: Seq<(Seq<char>, RecordV)>, k: Seq<char>) -> bool {
    exists|i: int| #![trigger s[i]] 0 <= i < s.len() && s[i].0 == k
}

/// Some entry of `s` is exactly `(k, r)`.
pub open spec fn has_entry(s: Seq<(Seq<char>, RecordV)>, k: Seq<char>, r: RecordV) -> bool {
    exists|i: int| #![trigger s[i]] 0 <= i < s.len() && s[i].0 == k && s[i].1 == r
}

/// The keys of `s` are pairwise distinct.
pub open spec fn nodup_keys(s: Seq<(Seq<char>, RecordV)>) -> bool {
    forall|i: int, j: int| 0 <= i < j < s.len() ==> (#[trigger] s[i]).0 != (#[trigger] s[j]).0
}

impl RepoData {
    /// The value of the `.tar.bz2` map.
    pub open spec fn packages_view(self) -> Seq<(Seq<char>, RecordV)> {
        entries_view(self.packages@)
    }

    /// The value of the `.conda` map.
    pub open spec fn conda_view(self) -> Seq<(Seq<char>, RecordV)> {
        entries_view(self.conda_packages@)
    }

    /// Both maps, merged; the partition keeps their key sets disjoint.
    pub open spec fn merged_view(self) -> Seq<(Seq<char>, RecordV)> {
        self.packages_view() + self.conda_view()
    }

    /// The partition invariant of a manifest: every key of `packages` is a
    /// `.tar.bz2` name, every key of `conda_packages` a `.conda` name, and
    /// keys are unique within each map.
    pub open spec fn wf(self) -> bool {
        &&& nodup_keys(self.packages_view())
        &&& nodup_keys(self.conda_view())
        &&& forall|i: int|
            0 <= i < self.packages_view().len() ==> spec_archive_type(
                (#[trigger] self.packages_view()[i]).0,
            ) == Some(ArchiveType::TarBz2)
        &&& forall|i: int|
            0 <= i < self.conda_view().len() ==> spec_archive_type(
                (#[trigger] self.conda_view()[i]).0,
            ) == Some(ArchiveType::Conda)
    }

    /// Under the partition invariant the merged map has unique keys, and
    /// every key names a recognised archive.
    pub proof fn lemma_wf_merged(self)
        requires
            self.wf(),
        ensures
            nodup_keys(self.merged_view()),
            forall|i: int|
                0 <= i < self.merged_view().len() ==> spec_is_archive(
                    (#[trigger] self.merged_view()[i]).0,
                ),
    {
        let m = self.merged_view();
        let p = self.packages_view();
        let c = self.conda_view();
        assert forall|i: int, j: int| 0 <= i < j < m.len() implies (#[trigger] m[i]).0 != (
        #[trigger] m[j]).0 by {
            if i < p.len() && j >= p.len() {
                assert(m[i] == p[i]);
                assert(m[j] == c[j - p.len()]);
                crate::archive::lemma_archive_suffixes_exclusive(m[i].0);
            } else if j < p.len() {
                assert(m[i] == p[i]);
                assert(m[j] == p[j]);
            } else {
                assert(m[i] == c[i - p.len()]);
                assert(m[j] == c[j - p.len()]);
            }
        }
        assert forall|i: int| 0 <= i < m.len() implies spec_is_archive((#[trigger] m[i]).0) by {
            if i < p.len() {
                assert(m[i] == p[i]);
            } else {
                assert(m[i] == c[i - p.len()]);
            }
        }
    }
}

/// Checks the partition invariant of a parsed manifest, so that callers can
/// reject a malformed one before planning.
pub fn check_partition(m: &RepoData) -> (b: bool)
    ensures
        b == m.wf(),
{
    let ok1 = keys_all_of_type(&m.packages, ArchiveType::TarBz2);
    let ok2 = keys_all_of_type(&m.conda_packages, ArchiveType::Conda);
    let ok3 = keys_unique(&m.packages);
    let ok4 = keys_unique(&m.conda_packages);
    ok1 && ok2 && ok3 && ok4
}

fn keys_all_of_type(entries: &Vec<(String, PackageRecord)>, t: ArchiveType) -> (b: bool)
    ensures
        b == forall|i: int|
            0 <= i < entries_view(entries@).len() ==> spec_archive_type(
                (#[trigger] entries_view(entries@)[i]).0,
            ) == Some(t),
{
    let mut i: usize = 0;
    while i < entries.len()
        invariant
            0 <= i <= entries.len(),
            forall|j: int|
                0 <= j < i ==> spec_archive_type((#[trigger] entries_view(entries@)[j]).0) == Some(
                    t,
                ),
        decreases entries.len() - i,
    {
        let ty = crate::archive::archive_type_of(entries[i].0.as_str());
        let good = match ty {
            Some(at) => at == t,
            None => false,
        };
        if !good {
            proof {
                assert(entries_view(entries@)[i as int].0 == entries@[i as int].0@);
            }
            return false;
        }
        proof {
            assert(entries_view(entries@)[i as int].0 == entries@[i as int].0@);
        }
        i += 1;
    }
    true
}

fn keys_unique(entries: &Vec<(String, PackageRecord)>) -> (b: bool)
    ensures
        b == nodup_keys(entries_view(entries@)),
{
    let n = entries.len();
    let mut i: usize = 0;
    while i < n
        invariant
            0 <= i <= n,
            n == entries@.len(),
            forall|p: int, q: int|
                0 <= p < q < entries@.len() && p < i ==> (#[trigger] entries_view(entries@)[p]).0
                    != (#[trigger] entries_view(entries@)[q]).0,
        decreases n - i,
    {
        let mut j: usize = i + 1;
        while j < n
            invariant
                0 <= i < j <= n,
                n == entries@.len(),
                forall|q: int|
                    i < q < j ==> (#[trigger] entries_view(entries@)[q]).0 != entries_view(
                        entries@,
                    )[i as int].0,
            decreases n - j,
        {
            if entries[i].0.eq(&entries[j].0) {
                proof {
                    assert(entries_view(entries@)[i as int].0 == entries@[i as int].0@);
                    assert(entries_view(entries@)[j as int].0 == entries@[j as int].0@);
                }
                return false;
            }
            proof {
                assert(entries_view(entries@)[j as int].0 == entries@[j as int].0@);
                assert(entries_view(entries@)[i as int].0 == entries@[i as int].0@);
            }
            j += 1;
        }
        i += 1;
    }
    true
}

} // verus!
