//! The package record: the metadata a manifest carries for one archive.
//! The filename under which a record is listed is the on-wire identity and
//! travels beside the record as the map key.

use vstd::prelude::*;

verus! {

/// Metadata for a single package archive, as plain values.
pub struct PackageRecord {
    /// The normalized package name.
    pub name: String,
    /// The package version, as written in the manifest.
    pub version: String,
    /// The build string.
    pub build: String,
    /// The build number.
    pub build_number: u64,
    /// The platform subdirectory the record belongs to.
    pub subdir: String,
    /// The SHA-256 hash of the archive, when the manifest declares one.
    pub sha256: Option<Vec<u8>>,
    /// The MD5 hash of the archive, when the manifest declares one.
    pub md5: Option<Vec<u8>>,
    /// The size of the archive in bytes, when declared.
    pub size: Option<u64>,
    /// The match specs of the packages this one depends on.
    pub depends: Vec<String>,
}

/// The mathematical value of a [`PackageRecord`].
pub ghost struct RecordV {
    pub name: Seq<char>,
    pub version: Seq<char>,
    pub build: Seq<char>,
    pub build_number: u64,
    pub subdir: Seq<char>,
    pub sha256: Option<Seq<u8>>,
    pub md5: Option<Seq<u8>>,
    pub size: Option<u64>,
    pub depends: Seq<Seq<char>>,
}

impl View for PackageRecord {
    type V = RecordV;

    open spec fn view(&self) -> RecordV {
        RecordV {
            name: self.name@,
            version: self.version@,
            build: self.build@,
            build_number: self.build_number,
            subdir: self.subdir@,
            sha256: match self.sha256 {
                Some(v) => Some(v@),
                None => None,
            },
            md5: match self.md5 {
                Some(v) => Some(v@),
                None => None,
            },
            size: self.size,
            depends: self.depends.deep_view(),
        }
    }
}

fn clone_opt_bytes(v: &Option<Vec<u8>>) -> (r: Option<Vec<u8>>)
    ensures
        match *v {
            Some(b) => r matches Some(c) && c@ == b@,
            None => r is None,
        },
{
    match v {
        Some(b) => {
            let c = b.clone();
            proof {
                assert(c@ =~= b@);
            }
            Some(c)
        },
        None => None,
    }
}

impl Clone for PackageRecord {
    /// A clone carries the same abstract value.
    fn clone(&self) -> (r: Self)
        ensures
            r@ == self@,
    {
        let r = PackageRecord {
            name: self.name.clone(),
            version: self.version.clone(),
            build: self.build.clone(),
            build_number: self.build_number,
            subdir: self.subdir.clone(),
            sha256: clone_opt_bytes(&self.sha256),
            md5: clone_opt_bytes(&self.md5),
            size: self.size,
            depends: self.depends.clone(),
        };
        proof {
            assert(r.depends.deep_view() =~~= self.depends.deep_view());
            assert(r@ =~~= self@);
        }
        r
    }
}

} // verus!
