//! Integrity checking: a fetched archive is written only if its bytes hash
//! to the SHA-256 the manifest declares; a record without a declared hash is
//! mirrored unchecked.

use vstd::prelude::*;
use crate::error::MirrorError;
use crate::record::{PackageRecord, RecordV};

verus! {

/// What SHA-256 returns for a byte sequence.
pub uninterp spec fn sha256_of(data: Seq<u8>) -> Seq<u8>;

/// Relies on rattler_digest::compute_bytes_digest with sha2::Sha256: the
/// SHA-256 digest of the bytes, 32 bytes that depend on the input alone.
#[verifier::external_body]
fn sha256_digest(data: &Vec<u8>) -> (r: Vec<u8>)
    ensures
        r@ == sha256_of(data@),
        r@.len() == 32,
{
    rattler_digest::compute_bytes_digest::<sha2::Sha256>(data).to_vec()
}

fn bytes_eq(a: &Vec<u8>, b: &Vec<u8>) -> (r: bool)
    ensures
        r == (a@ == b@),
{
    if a.len() != b.len() {
        return false;
    }
    let mut i: usize = 0;
    while i < a.len()
        invariant
            0 <= i <= a@.len(),
            a@.len() == b@.len(),
            forall|j: int| 0 <= j < i ==> a@[j] == b@[j],
        decreases a@.len() - i,
    {
        if a[i] != b[i] {
            return false;
        }
        i += 1;
    }
    proof {
        assert(a@ =~= b@);
    }
    true
}

/// The bytes pass the integrity check of the record: either the record
/// declares no hash, or the bytes hash to the declared value.
pub open spec fn spec_integrity_ok(r: RecordV, data: Seq<u8>) -> bool {
    match r.sha256 {
        Some(h) => h == sha256_of(data),
        None => true,
    }
}

/// Checks fetched bytes against the record's declared SHA-256, if any.
pub fn verify_package_bytes(record: &PackageRecord, data: &Vec<u8>) -> (ok: bool)
    ensures
        ok == spec_integrity_ok(record@, data@),
{
    match &record.sha256 {
        Some(expected) => {
            let digest = sha256_digest(data);
            bytes_eq(expected, &digest)
        },
        None => true,
    }
}

/// The add decision for one fetched package: bytes that fail the declared
/// hash are refused with an integrity error naming the file; everything
/// else may be written.
pub fn check_fetched_package(filename: &String, record: &PackageRecord, data: &Vec<u8>) -> (r:
    Result<(), MirrorError>)
    ensures
        (r is Ok) == spec_integrity_ok(record@, data@),
        r is Err ==> (r->Err_0 matches MirrorError::IntegrityError { filename: f } && f@
            == filename@),
{
    if verify_package_bytes(record, data) {
        Ok(())
    } else {
        Err(MirrorError::IntegrityError { filename: filename.clone() })
    }
}

} // verus!
