//! The immutable configuration of one mirror run, and the URL and path
//! arithmetic derived from it. Channel references arrive here already
//! resolved to base URLs; joining subdirs and filenames onto them is plain
//! string work and is specified exactly.

use vstd::prelude::*;
use vstd::string::StringExecFns;
use crate::archive::{spec_ends_with, str_ends_with};
use crate::error::MirrorError;
use crate::filter::MirrorMode;
use crate::platform::{platform_str, Platform};
use crate::text::{spec_starts_with, str_starts_with};

verus! {

/// Credentials for an S3 bucket. Debug output must never carry the values.
#[derive(Clone)]
pub struct S3Credentials {
    pub access_key_id: String,
    pub secret_access_key: String,
    pub session_token: Option<String>,
}

impl S3Credentials {
    /// The debug rendering of the credentials: one of two fixed strings, so
    /// nothing of the secret values can reach a log.
    pub fn redacted(&self) -> (r: String)
        ensures
            self.session_token is Some ==> r@
                == "S3Credentials { access_key_id: \"***\", secret_access_key: \"***\", session_token: Some(\"***\") }"@,
            self.session_token is None ==> r@
                == "S3Credentials { access_key_id: \"***\", secret_access_key: \"***\", session_token: None }"@,
    {
        if self.session_token.is_some() {
            "S3Credentials { access_key_id: \"***\", secret_access_key: \"***\", session_token: Some(\"***\") }".to_owned()
        } else {
            "S3Credentials { access_key_id: \"***\", secret_access_key: \"***\", session_token: None }".to_owned()
        }
    }
}

/// Where and how to reach an S3-compatible endpoint.
#[derive(Clone)]
pub struct S3Config {
    /// The endpoint URL.
    pub endpoint_url: String,
    /// The region.
    pub region: String,
    /// Whether to use path style in requests.
    pub force_path_style: bool,
}

/// Per-side S3 settings of a run.
#[derive(Clone)]
pub struct S3ConfigSourceDest {
    pub source: Option<S3Config>,
    pub destination: Option<S3Config>,
}

/// The immutable configuration of one mirror invocation.
#[derive(Clone)]
pub struct CondaMirrorConfig {
    /// The resolved base URL of the source channel.
    pub source: String,
    /// The resolved base URL of the destination channel.
    pub destination: String,
    /// The explicit subdir list, if one was given.
    pub subdirs: Option<Vec<Platform>>,
    /// The filter policy.
    pub mode: MirrorMode,
    pub s3_config_source: Option<S3Config>,
    pub s3_config_destination: Option<S3Config>,
    pub s3_credentials_source: Option<S3Credentials>,
    pub s3_credentials_destination: Option<S3Credentials>,
}

/// `base` with a trailing slash, added when missing.
pub open spec fn spec_with_slash(base: Seq<char>) -> Seq<char> {
    if spec_ends_with(base, "/"@) {
        base
    } else {
        base + "/"@
    }
}

/// The URL of a platform subdirectory under a channel base URL.
pub open spec fn spec_platform_url(base: Seq<char>, p: Platform) -> Seq<char> {
    spec_with_slash(base) + platform_str(p) + "/"@
}

fn with_trailing_slash(base: &str) -> (r: String)
    ensures
        r@ == spec_with_slash(base@),
{
    let mut s = base.to_owned();
    if !str_ends_with(base, "/") {
        s.append("/");
    }
    s
}

impl CondaMirrorConfig {
    /// The URL of a subdir under the source channel.
    pub fn platform_url(&self, platform: Platform) -> (r: String)
        ensures
            r@ == spec_platform_url(self.source@, platform),
    {
        let mut s = with_trailing_slash(self.source.as_str());
        s.append(platform.as_str());
        s.append("/");
        s
    }

    /// The URL of a subdir's manifest under the source channel.
    pub fn repodata_url(&self, platform: Platform) -> (r: String)
        ensures
            r@ == spec_platform_url(self.source@, platform) + "repodata.json"@,
    {
        let mut s = self.platform_url(platform);
        s.append("repodata.json");
        s
    }

    /// The URL of a package archive under the source channel.
    pub fn package_url(&self, filename: &str, platform: Platform) -> (r: String)
        ensures
            r@ == spec_platform_url(self.source@, platform) + filename@,
    {
        let mut s = self.platform_url(platform);
        s.append(filename);
        s
    }
}

/// The key of a package archive within the destination store.
pub fn destination_path(subdir: Platform, filename: &str) -> (r: String)
    ensures
        r@ == platform_str(subdir) + "/"@ + filename@,
{
    let mut s = subdir.as_str().to_owned();
    s.append("/");
    s.append(filename);
    s
}

/// The key of a subdir's manifest within the destination store.
pub fn repodata_destination_path(subdir: Platform) -> (r: String)
    ensures
        r@ == platform_str(subdir) + "/"@ + "repodata.json"@,
{
    let mut s = subdir.as_str().to_owned();
    s.append("/");
    s.append("repodata.json");
    s
}

/// The storage backend a destination URL selects.
#[derive(Clone, Copy, PartialEq, Eq, Structural, Debug)]
pub enum DestinationBackend {
    /// A local filesystem root.
    File,
    /// An S3 bucket.
    S3,
}

/// Selects the destination backend from the destination URL: `file` URLs go
/// to the filesystem store, `s3` URLs to the S3 store, anything else is
/// refused.
pub fn classify_destination(url: &str) -> (r: Result<DestinationBackend, MirrorError>)
    ensures
        (r == Ok::<DestinationBackend, MirrorError>(DestinationBackend::File)) == spec_starts_with(
            url@,
            "file:"@,
        ),
        (r == Ok::<DestinationBackend, MirrorError>(DestinationBackend::S3)) == (!spec_starts_with(
            url@,
            "file:"@,
        ) && spec_starts_with(url@, "s3:"@)),
        (r is Err) == (!spec_starts_with(url@, "file:"@) && !spec_starts_with(url@, "s3:"@)),
        r is Err ==> (r->Err_0 matches MirrorError::UnsupportedSchemeError { url: u } && u@
            == url@),
{
    if str_starts_with(url, "file:") {
        Ok(DestinationBackend::File)
    } else if str_starts_with(url, "s3:") {
        Ok(DestinationBackend::S3)
    } else {
        Err(MirrorError::UnsupportedSchemeError { url: url.to_owned() })
    }
}

/// Whether a URL is fetched through the filesystem rather than HTTP.
pub fn is_file_url(url: &str) -> (r: bool)
    ensures
        r == spec_starts_with(url@, "file:"@),
{
    str_starts_with(url, "file:")
}

} // verus!
