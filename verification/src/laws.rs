//! Properties of the reconciliation engine as a whole, stated over the same
//! spec functions the planner's contracts use.

use vstd::prelude::*;
use crate::archive::{spec_archive_type, spec_ends_with, spec_is_archive, ArchiveType};
use crate::filter::{spec_any_rule_matches, spec_keeps, MirrorMode, PackageConfig};
use crate::manifest::{has_entry, has_key, RepoData};
use crate::plan::{
    kept_of, lemma_kept_of_entry, lemma_kept_of_key, lemma_kept_of_props, lemma_part_of_entry,
    lemma_part_of_props, part_of, spec_kept, spec_key_kept, spec_listed,
};
use crate::record::RecordV;

verus! {

/// The keys of the emitted manifest, both partitions together.
pub open spec fn spec_emitted_keys(m: RepoData, mode: MirrorMode) -> Seq<(Seq<char>, RecordV)> {
    part_of(spec_kept(m, mode), ArchiveType::TarBz2) + part_of(spec_kept(m, mode), ArchiveType::Conda)
}

/// After a successful run the destination holds exactly the keys of the
/// emitted manifest: an archive name survives the deletions or is added
/// precisely when the mode keeps a record under it, and those are the
/// emitted keys. So every emitted filename exists at the destination, and
/// every archive at the destination is an emitted key.
pub proof fn lemma_run_reconciles(
    m: RepoData,
    mode: MirrorMode,
    l: Seq<(Seq<char>, bool)>,
    k: Seq<char>,
)
    requires
        m.wf(),
    ensures
        ((spec_listed(l, k) && !(spec_listed(l, k) && !spec_key_kept(m.merged_view(), mode, k)))
            || (spec_key_kept(m.merged_view(), mode, k) && !spec_listed(l, k))) == spec_key_kept(
            m.merged_view(),
            mode,
            k,
        ),
        spec_key_kept(m.merged_view(), mode, k) == has_key(spec_emitted_keys(m, mode), k),
{
    let kept = spec_kept(m, mode);
    let tar = part_of(kept, ArchiveType::TarBz2);
    let conda = part_of(kept, ArchiveType::Conda);
    lemma_kept_of_key(m.merged_view(), mode, k);
    lemma_kept_of_props(m.merged_view(), mode);
    lemma_part_of_props(kept, ArchiveType::TarBz2);
    lemma_part_of_props(kept, ArchiveType::Conda);
    m.lemma_wf_merged();
    if has_key(spec_emitted_keys(m, mode), k) {
        let i = choose|i: int|
            #![trigger spec_emitted_keys(m, mode)[i]]
            0 <= i < spec_emitted_keys(m, mode).len() && spec_emitted_keys(m, mode)[i].0 == k;
        if i < tar.len() {
            assert(spec_emitted_keys(m, mode)[i] == tar[i]);
            let w = choose|w: int| 0 <= w < kept.len() && kept[w] == tar[i];
            assert(kept[w].0 == k);
        } else {
            assert(spec_emitted_keys(m, mode)[i] == conda[i - tar.len()]);
            let w = choose|w: int| 0 <= w < kept.len() && kept[w] == conda[i - tar.len()];
            assert(kept[w].0 == k);
        }
        assert(has_key(kept, k));
    }
    if has_key(kept, k) {
        let i = choose|i: int| #![trigger kept[i]] 0 <= i < kept.len() && kept[i].0 == k;
        let w = choose|w: int| 0 <= w < m.merged_view().len() && m.merged_view()[w] == kept[i];
        assert(spec_is_archive(k));
        if spec_archive_type(k) == Some(ArchiveType::TarBz2) {
            assert(tar.contains(kept[i]));
            let t = choose|t: int| 0 <= t < tar.len() && tar[t] == kept[i];
            assert(spec_emitted_keys(m, mode)[t] == tar[t]);
            assert(has_key(spec_emitted_keys(m, mode), k));
        } else {
            assert(spec_archive_type(k) == Some(ArchiveType::Conda));
            assert(conda.contains(kept[i]));
            let t = choose|t: int| 0 <= t < conda.len() && conda[t] == kept[i];
            assert(spec_emitted_keys(m, mode)[tar.len() + t] == conda[t]);
            assert(has_key(spec_emitted_keys(m, mode), k));
        }
    }
}

/// Running the mirror again against a destination that already holds
/// exactly the kept archives plans no deletion and no addition; the emitted
/// manifest depends on the source manifest and the mode alone, so it is the
/// same again.
pub proof fn lemma_idempotent(
    m: RepoData,
    mode: MirrorMode,
    l2: Seq<(Seq<char>, bool)>,
    k: Seq<char>,
)
    requires
        m.wf(),
        forall|k2: Seq<char>| #[trigger] spec_listed(l2, k2) == spec_key_kept(
            m.merged_view(),
            mode,
            k2,
        ),
    ensures
        !(spec_listed(l2, k) && !spec_key_kept(m.merged_view(), mode, k)),
        !(spec_key_kept(m.merged_view(), mode, k) && !spec_listed(l2, k)),
{
}

/// Filter complementarity: a record survives `AllButExclude(rules)` exactly
/// when `OnlyInclude(rules)` would drop it, so excluding by a rule set
/// equals keeping the complement of what the same set includes.
pub proof fn lemma_exclude_is_complement(rules: Vec<PackageConfig>, r: RecordV)
    ensures
        spec_keeps(MirrorMode::AllButExclude(rules), r) == !spec_keeps(
            MirrorMode::OnlyInclude(rules),
            r,
        ),
{
    assert(spec_keeps(MirrorMode::AllButExclude(rules), r) == !spec_any_rule_matches(rules@, r));
    assert(spec_keeps(MirrorMode::OnlyInclude(rules), r) == spec_any_rule_matches(rules@, r));
}

/// An empty source manifest keeps nothing: every archive at the destination
/// is deleted and the emitted manifest has empty partitions.
pub proof fn lemma_empty_source(
    m: RepoData,
    mode: MirrorMode,
    l: Seq<(Seq<char>, bool)>,
    k: Seq<char>,
)
    requires
        m.wf(),
        m.packages@.len() == 0,
        m.conda_packages@.len() == 0,
    ensures
        spec_kept(m, mode).len() == 0,
        part_of(spec_kept(m, mode), ArchiveType::TarBz2).len() == 0,
        part_of(spec_kept(m, mode), ArchiveType::Conda).len() == 0,
        spec_listed(l, k) ==> spec_listed(l, k) && !spec_key_kept(m.merged_view(), mode, k),
{
    assert(m.merged_view().len() == 0);
    assert(spec_kept(m, mode) == kept_of(m.merged_view(), mode));
    assert(spec_kept(m, mode).len() == 0);
    assert(part_of(spec_kept(m, mode), ArchiveType::TarBz2).len() == 0);
    assert(part_of(spec_kept(m, mode), ArchiveType::Conda).len() == 0);
}

/// Records pass through unchanged: an entry stands in a partition of the
/// emitted manifest exactly when it is an entry of the source manifest that
/// the mode keeps and whose filename carries that partition's extension.
pub proof fn lemma_emitted_records_unchanged(
    m: RepoData,
    mode: MirrorMode,
    t: ArchiveType,
    k: Seq<char>,
    r: RecordV,
)
    requires
        m.wf(),
    ensures
        has_entry(part_of(spec_kept(m, mode), t), k, r) == (has_entry(m.merged_view(), k, r)
            && spec_keeps(mode, r) && spec_archive_type(k) == Some(t)),
{
    lemma_part_of_entry(spec_kept(m, mode), t, k, r);
    lemma_kept_of_entry(m.merged_view(), mode, k, r);
}

/// The partition invariant of the emitted manifest: every key of the
/// `packages` partition ends in `.tar.bz2`, every key of the
/// `packages.conda` partition ends in `.conda`.
pub proof fn lemma_emitted_partition(m: RepoData, mode: MirrorMode)
    requires
        m.wf(),
    ensures
        forall|i: int|
            0 <= i < part_of(spec_kept(m, mode), ArchiveType::TarBz2).len() ==> spec_ends_with(
                (#[trigger] part_of(spec_kept(m, mode), ArchiveType::TarBz2)[i]).0,
                ".tar.bz2"@,
            ),
        forall|i: int|
            0 <= i < part_of(spec_kept(m, mode), ArchiveType::Conda).len() ==> spec_ends_with(
                (#[trigger] part_of(spec_kept(m, mode), ArchiveType::Conda)[i]).0,
                ".conda"@,
            ),
{
    lemma_part_of_props(spec_kept(m, mode), ArchiveType::TarBz2);
    lemma_part_of_props(spec_kept(m, mode), ArchiveType::Conda);
}

} // verus!
