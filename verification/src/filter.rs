//! The filter language: rules that admit or exclude package records, and the
//! mirror mode that combines them. A rule is either a shell-style glob over
//! the package name, optionally refined by a version/build spec, or a full
//! package match spec. Glob and match-spec evaluation come from outside
//! crates; their results are named and everything around them is verified.

use vstd::prelude::*;
use crate::record::{PackageRecord, RecordV};

verus! {

/// A shell-style glob over the package name, kept as its source text.
#[derive(Clone)]
pub struct GlobPattern(pub String);

impl View for GlobPattern {
    type V = Seq<char>;

    open spec fn view(&self) -> Seq<char> {
        self.0@
    }
}

/// A match spec without a package name, kept as its source text.
#[derive(Clone)]
pub struct NamelessMatchSpecWrapper(pub String);

impl View for NamelessMatchSpecWrapper {
    type V = Seq<char>;

    open spec fn view(&self) -> Seq<char> {
        self.0@
    }
}

/// A full package match spec, kept as its source text.
#[derive(Clone)]
pub struct MatchSpecWrapper(pub String);

impl View for MatchSpecWrapper {
    type V = Seq<char>;

    open spec fn view(&self) -> Seq<char> {
        self.0@
    }
}

/// What `glob::Pattern::matches` returns for a pattern text and a name.
pub uninterp spec fn glob_match(pattern: Seq<char>, name: Seq<char>) -> bool;

/// Relies on glob::Pattern::matches: a shell-style glob over the name, a
/// function of the pattern text and the name alone. An unparsable pattern
/// matches nothing.
#[verifier::external_body]
fn glob_matches(pattern: &str, name: &str) -> (r: bool)
    ensures
        r == glob_match(pattern@, name@),
{
    match glob::Pattern::new(pattern) {
        Ok(p) => p.matches(name),
        Err(_) => false,
    }
}

/// What `rattler_conda_types::NamelessMatchSpec::matches` returns for a spec
/// text and the record fields the engine models.
pub uninterp spec fn nameless_spec_match(
    spec: Seq<char>,
    name: Seq<char>,
    version: Seq<char>,
    build: Seq<char>,
    build_number: u64,
) -> bool;

/// Relies on rattler_conda_types::NamelessMatchSpec::matches: whether the
/// constraints of the spec text accept a record with these fields, a function
/// of the spec text and the fields alone. An unparsable spec or version
/// matches nothing.
#[verifier::external_body]
fn nameless_matches(spec: &str, name: &str, version: &str, build: &str, build_number: u64) -> (r:
    bool)
    ensures
        r == nameless_spec_match(spec@, name@, version@, build@, build_number),
{
    let Ok(s) = spec.parse::<rattler_conda_types::NamelessMatchSpec>() else { return false };
    let Ok(v) = version.parse::<rattler_conda_types::VersionWithSource>() else { return false };
    let n = rattler_conda_types::PackageName::new_unchecked(name);
    let mut rec = rattler_conda_types::PackageRecord::new(n, v, build.to_string());
    rec.build_number = build_number;
    rattler_conda_types::Matches::matches(&s, &rec)
}

/// What `rattler_conda_types::MatchSpec::matches` returns for a spec text and
/// the record fields the engine models.
pub uninterp spec fn full_spec_match(
    spec: Seq<char>,
    name: Seq<char>,
    version: Seq<char>,
    build: Seq<char>,
    build_number: u64,
) -> bool;

/// Relies on rattler_conda_types::MatchSpec::matches: whether the name and
/// the other constraints of the spec text accept a record with these fields,
/// a function of the spec text and the fields alone. An unparsable spec or
/// version matches nothing.
#[verifier::external_body]
fn full_matches(spec: &str, name: &str, version: &str, build: &str, build_number: u64) -> (r: bool)
    ensures
        r == full_spec_match(spec@, name@, version@, build@, build_number),
{
    let Ok(s) = spec.parse::<rattler_conda_types::MatchSpec>() else { return false };
    let Ok(v) = version.parse::<rattler_conda_types::VersionWithSource>() else { return false };
    let n = rattler_conda_types::PackageName::new_unchecked(name);
    let mut rec = rattler_conda_types::PackageRecord::new(n, v, build.to_string());
    rec.build_number = build_number;
    rattler_conda_types::Matches::matches(&s, &rec)
}

/// One rule of the filter policy.
#[derive(Clone)]
pub enum PackageConfig {
    /// A glob over the package name, optionally refined by a spec applied to
    /// the non-name fields.
    PackageGlob { name_glob: GlobPattern, matchspec: Option<NamelessMatchSpecWrapper> },
    /// A full package match spec.
    MatchSpec(MatchSpecWrapper),
}

/// Whether a rule accepts a record.
pub open spec fn spec_rule_matches(c: PackageConfig, r: RecordV) -> bool {
    match c {
        PackageConfig::PackageGlob { name_glob, matchspec } => glob_match(name_glob@, r.name)
            && match matchspec {
            Some(m) => nameless_spec_match(m@, r.name, r.version, r.build, r.build_number),
            None => true,
        },
        PackageConfig::MatchSpec(m) => full_spec_match(
            m@,
            r.name,
            r.version,
            r.build,
            r.build_number,
        ),
    }
}

impl PackageConfig {
    /// Evaluates the rule on a record.
    pub fn matches(&self, record: &PackageRecord) -> (r: bool)
        ensures
            r == spec_rule_matches(*self, record@),
    {
        match self {
            PackageConfig::PackageGlob { name_glob, matchspec } => {
                let name_match = glob_matches(name_glob.0.as_str(), record.name.as_str());
                match matchspec {
                    Some(m) => name_match && nameless_matches(
                        m.0.as_str(),
                        record.name.as_str(),
                        record.version.as_str(),
                        record.build.as_str(),
                        record.build_number,
                    ),
                    None => name_match,
                }
            },
            PackageConfig::MatchSpec(m) => full_matches(
                m.0.as_str(),
                record.name.as_str(),
                record.version.as_str(),
                record.build.as_str(),
                record.build_number,
            ),
        }
    }
}

/// Some rule in the list accepts the record.
pub open spec fn spec_any_rule_matches(rules: Seq<PackageConfig>, r: RecordV) -> bool {
    exists|i: int| 0 <= i < rules.len() && spec_rule_matches(rules[i], r)
}

fn any_rule_matches(rules: &Vec<PackageConfig>, record: &PackageRecord) -> (res: bool)
    ensures
        res == spec_any_rule_matches(rules@, record@),
{
    let mut i: usize = 0;
    while i < rules.len()
        invariant
            0 <= i <= rules.len(),
            forall|j: int| 0 <= j < i ==> !spec_rule_matches(rules@[j], record@),
        decreases rules.len() - i,
    {
        if rules[i].matches(record) {
            return true;
        }
        i += 1;
    }
    false
}

/// The filter policy of a mirror run.
#[derive(Clone)]
pub enum MirrorMode {
    /// Mirror all packages.
    All,
    /// Mirror all packages except those matching the given rules.
    AllButExclude(Vec<PackageConfig>),
    /// Mirror only packages matching the given rules.
    OnlyInclude(Vec<PackageConfig>),
    /// Mirror all packages except those matching the exclude rules. A rule
    /// from the first list narrows the kept set further whenever any exclude
    /// rule is present; this mirrors the engine's documented behaviour.
    IncludeExclude(Vec<PackageConfig>, Vec<PackageConfig>),
}

/// Some exclude rule is present that either itself matches the record or is
/// accompanied by a matching rule of the first list.
pub open spec fn spec_exclude_narrowed(
    incl: Seq<PackageConfig>,
    exclude: Seq<PackageConfig>,
    r: RecordV,
) -> bool {
    exists|i: int|
        #![trigger exclude[i]]
        0 <= i < exclude.len() && (spec_rule_matches(exclude[i], r) || spec_any_rule_matches(
            incl,
            r,
        ))
}

proof fn lemma_narrowed_intro(
    incl: Seq<PackageConfig>,
    exclude: Seq<PackageConfig>,
    r: RecordV,
    i: int,
)
    requires
        0 <= i < exclude.len(),
        spec_rule_matches(exclude[i], r) || spec_any_rule_matches(incl, r),
    ensures
        spec_exclude_narrowed(incl, exclude, r),
{
    // the case split keeps the witness term `exclude[i]` relevant to the
    // solver whichever disjunct holds, so the existential is instantiated
    // with `i` either way
    if spec_rule_matches(exclude[i], r) {
        assert(0 <= i < exclude.len() && (spec_rule_matches(exclude[i], r)
            || spec_any_rule_matches(incl, r)));
    } else {
        assert(0 <= i < exclude.len() && (spec_rule_matches(exclude[i], r)
            || spec_any_rule_matches(incl, r)));
    }
}

/// Combines the optional rule lists into the mirror mode: both lists give
/// the narrowing combination, one list alone gives pure inclusion or pure
/// exclusion, and none keeps everything.
pub fn mode_from_rules(incl: Option<Vec<PackageConfig>>, exclude: Option<Vec<PackageConfig>>) -> (mode: MirrorMode)
    ensures
        mode == match (incl, exclude) {
            (Some(i), Some(e)) => MirrorMode::IncludeExclude(i, e),
            (Some(i), None) => MirrorMode::OnlyInclude(i),
            (None, Some(e)) => MirrorMode::AllButExclude(e),
            (None, None) => MirrorMode::All,
        },
{
    match (incl, exclude) {
        (Some(i), Some(e)) => MirrorMode::IncludeExclude(i, e),
        (Some(i), None) => MirrorMode::OnlyInclude(i),
        (None, Some(e)) => MirrorMode::AllButExclude(e),
        (None, None) => MirrorMode::All,
    }
}

/// Whether the mode retains a record.
pub open spec fn spec_keeps(mode: MirrorMode, r: RecordV) -> bool {
    match mode {
        MirrorMode::All => true,
        MirrorMode::OnlyInclude(incl) => spec_any_rule_matches(incl@, r),
        MirrorMode::AllButExclude(exclude) => !spec_any_rule_matches(exclude@, r),
        MirrorMode::IncludeExclude(incl, exclude) => !spec_exclude_narrowed(incl@, exclude@, r),
    }
}

/// Evaluates the mode on a record.
pub fn keeps(mode: &MirrorMode, record: &PackageRecord) -> (res: bool)
    ensures
        res == spec_keeps(*mode, record@),
{
    match mode {
        MirrorMode::All => true,
        MirrorMode::OnlyInclude(incl) => any_rule_matches(incl, record),
        MirrorMode::AllButExclude(exclude) => !any_rule_matches(exclude, record),
        MirrorMode::IncludeExclude(incl, exclude) => {
            if exclude.len() == 0 {
                return true;
            }
            let ae = any_rule_matches(exclude, record);
            let ai = any_rule_matches(incl, record);
            let res = !(ae || ai);
            proof {
                if ae {
                    let i = choose|i: int|
                        0 <= i < exclude@.len() && spec_rule_matches(exclude@[i], record@);
                    lemma_narrowed_intro(incl@, exclude@, record@, i);
                } else if ai {
                    lemma_narrowed_intro(incl@, exclude@, record@, 0);
                } else if spec_exclude_narrowed(incl@, exclude@, record@) {
                    let i = choose|i: int|
                        0 <= i < exclude@.len() && (#[trigger] spec_rule_matches(
                            exclude@[i],
                            record@,
                        ) || spec_any_rule_matches(incl@, record@));
                    assert(spec_rule_matches(exclude@[i], record@) ==> spec_any_rule_matches(
                        exclude@,
                        record@,
                    ));
                    assert(false);
                }
            }
            res
        },
    }
}

} // verus!
