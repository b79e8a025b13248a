//! Archive filenames: a package archive is recognised by its extension,
//! `.tar.bz2` (legacy) or `.conda` (newer). The extension decides which
//! manifest partition a record belongs to.

use vstd::prelude::*;
use vstd::string::StrSliceExecFns;

verus! {

/// `s` ends with `suffix`.
pub open spec fn spec_ends_with(s: Seq<char>, suffix: Seq<char>) -> bool {
    s.len() >= suffix.len() && s.subrange(s.len() - suffix.len(), s.len() as int) == suffix
}

/// Character-wise suffix test.
pub fn str_ends_with(s: &str, suffix: &str) -> (r: bool)
    ensures
        r == spec_ends_with(s@, suffix@),
{
    let n: usize = s.unicode_len();
    let m: usize = suffix.unicode_len();
    if m > n {
        return false;
    }
    let mut i: usize = 0;
    while i < m
        invariant
            m <= n,
            n == s@.len(),
            m == suffix@.len(),
            0 <= i <= m,
            forall|j: int| 0 <= j < i ==> s@[n - m + j] == suffix@[j],
        decreases m - i,
    {
        if s.get_char(n - m + i) != suffix.get_char(i) {
            proof {
                if spec_ends_with(s@, suffix@) {
                    assert(s@.subrange(n - m, n as int)[i as int] == suffix@[i as int]);
                }
            }
            return false;
        }
        i += 1;
    }
    proof {
        assert(s@.subrange(n - m, n as int) =~= suffix@);
    }
    true
}

/// The type of a conda package archive.
#[derive(Clone, Copy, PartialEq, Eq, Structural, Debug)]
pub enum ArchiveType {
    /// A file with the `.tar.bz2` extension.
    TarBz2,
    /// A file with the `.conda` extension.
    Conda,
}

/// The archive type a filename carries, if any.
pub open spec fn spec_archive_type(name: Seq<char>) -> Option<ArchiveType> {
    if spec_ends_with(name, ".conda"@) {
        Some(ArchiveType::Conda)
    } else if spec_ends_with(name, ".tar.bz2"@) {
        Some(ArchiveType::TarBz2)
    } else {
        None
    }
}

/// The filename names a recognised archive.
pub open spec fn spec_is_archive(name: Seq<char>) -> bool {
    spec_archive_type(name) is Some
}

/// Classifies a filename by its archive extension.
pub fn archive_type_of(name: &str) -> (r: Option<ArchiveType>)
    ensures
        r == spec_archive_type(name@),
{
    if str_ends_with(name, ".conda") {
        Some(ArchiveType::Conda)
    } else if str_ends_with(name, ".tar.bz2") {
        Some(ArchiveType::TarBz2)
    } else {
        None
    }
}

/// The two archive extensions exclude each other, so the manifest
/// partitions cannot overlap.
pub proof fn lemma_archive_suffixes_exclusive(name: Seq<char>)
    ensures
        !(spec_ends_with(name, ".tar.bz2"@) && spec_ends_with(name, ".conda"@)),
{
    reveal_strlit(".tar.bz2");
    reveal_strlit(".conda");
    if spec_ends_with(name, ".tar.bz2"@) && spec_ends_with(name, ".conda"@) {
        let n = name.len() as int;
        assert(name.subrange(n - 8, n)[7] == name[n - 1]);
        assert(name.subrange(n - 6, n)[5] == name[n - 1]);
    }
}

} // verus!
