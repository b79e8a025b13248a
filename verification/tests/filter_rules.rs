use conda_mirror::filter::{
    keeps, mode_from_rules, GlobPattern, MatchSpecWrapper, MirrorMode, NamelessMatchSpecWrapper,
    PackageConfig,
};
use conda_mirror::record::PackageRecord;

fn record(name: &str, version: &str) -> PackageRecord {
    PackageRecord {
        name: name.to_string(),
        version: version.to_string(),
        build: "py310_0".to_string(),
        build_number: 0,
        subdir: "noarch".to_string(),
        sha256: None,
        md5: None,
        size: None,
        depends: Vec::new(),
    }
}

fn glob_rule(pattern: &str) -> PackageConfig {
    PackageConfig::PackageGlob {
        name_glob: GlobPattern(pattern.to_string()),
        matchspec: None,
    }
}

#[test]
fn glob_matches_names() {
    let rule = glob_rule("a*");
    assert!(rule.matches(&record("abc", "1.0")));
    assert!(rule.matches(&record("a", "1.0")));
    assert!(!rule.matches(&record("xyz", "1.0")));
    assert!(!rule.matches(&record("ba", "1.0")));
}

#[test]
fn glob_with_version_spec_refines() {
    let rule = PackageConfig::PackageGlob {
        name_glob: GlobPattern("numpy*".to_string()),
        matchspec: Some(NamelessMatchSpecWrapper(">=2".to_string())),
    };
    assert!(rule.matches(&record("numpy", "2.1")));
    assert!(!rule.matches(&record("numpy", "1.26")));
    assert!(!rule.matches(&record("scipy", "2.1")));
}

#[test]
fn full_match_spec_constrains_name_and_version() {
    let rule = PackageConfig::MatchSpec(MatchSpecWrapper("foo >=1.0".to_string()));
    assert!(rule.matches(&record("foo", "1.2")));
    assert!(!rule.matches(&record("foo", "0.9")));
    assert!(!rule.matches(&record("bar", "1.2")));
}

#[test]
fn mode_all_keeps_everything() {
    assert!(keeps(&MirrorMode::All, &record("anything", "0.0")));
}

#[test]
fn mode_only_include_keeps_matches_only() {
    let mode = MirrorMode::OnlyInclude(vec![glob_rule("a*")]);
    assert!(keeps(&mode, &record("abc", "1.0")));
    assert!(!keeps(&mode, &record("xyz", "1.0")));
}

#[test]
fn mode_all_but_exclude_drops_matches() {
    let mode = MirrorMode::AllButExclude(vec![glob_rule("a*")]);
    assert!(!keeps(&mode, &record("abc", "1.0")));
    assert!(keeps(&mode, &record("xyz", "1.0")));
}

#[test]
fn exclude_complements_include_on_the_same_rules() {
    let rules = vec![glob_rule("a*")];
    let excl = MirrorMode::AllButExclude(rules.clone());
    let incl = MirrorMode::OnlyInclude(rules);
    for rec in [record("abc", "1.0"), record("xyz", "1.0"), record("a", "0.1")] {
        assert_eq!(keeps(&excl, &rec), !keeps(&incl, &rec));
    }
}

#[test]
fn include_narrows_when_an_exclude_rule_is_present() {
    // with a non-empty exclude list, a record matching any rule of the first
    // list is dropped as well
    let mode = MirrorMode::IncludeExclude(vec![glob_rule("b*")], vec![glob_rule("a*")]);
    assert!(!keeps(&mode, &record("abc", "1.0"))); // excluded directly
    assert!(!keeps(&mode, &record("bcd", "1.0"))); // narrowed away by the first list
    assert!(keeps(&mode, &record("xyz", "1.0")));
}

#[test]
fn mode_is_derived_from_the_rule_lists() {
    assert!(matches!(mode_from_rules(None, None), MirrorMode::All));
    assert!(matches!(
        mode_from_rules(Some(vec![glob_rule("a*")]), None),
        MirrorMode::OnlyInclude(_)
    ));
    assert!(matches!(
        mode_from_rules(None, Some(vec![glob_rule("a*")])),
        MirrorMode::AllButExclude(_)
    ));
    assert!(matches!(
        mode_from_rules(Some(Vec::new()), Some(vec![glob_rule("a*")])),
        MirrorMode::IncludeExclude(_, _)
    ));
}

#[test]
fn include_alone_keeps_everything_when_exclude_is_empty() {
    let mode = MirrorMode::IncludeExclude(vec![glob_rule("b*")], Vec::new());
    assert!(keeps(&mode, &record("abc", "1.0")));
    assert!(keeps(&mode, &record("bcd", "1.0")));
}
