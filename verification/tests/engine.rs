use conda_mirror::digest::{check_fetched_package, verify_package_bytes};
use conda_mirror::error::MirrorError;
use conda_mirror::filter::{GlobPattern, MirrorMode, PackageConfig};
use conda_mirror::manifest::{check_partition, RepoData};
use conda_mirror::plan::{plan_subdir, SubdirPlan};
use conda_mirror::record::PackageRecord;
use sha2::Digest;

fn record(name: &str, version: &str, sha256: Option<Vec<u8>>) -> PackageRecord {
    PackageRecord {
        name: name.to_string(),
        version: version.to_string(),
        build: "0".to_string(),
        build_number: 0,
        subdir: "noarch".to_string(),
        sha256,
        md5: None,
        size: None,
        depends: Vec::new(),
    }
}

fn sha(data: &[u8]) -> Vec<u8> {
    sha2::Sha256::digest(data).to_vec()
}

fn scenario_manifest(payload_a: &[u8]) -> RepoData {
    RepoData {
        info: Some("{\"subdir\": \"noarch\"}".to_string()),
        packages: vec![(
            "a-1.0-0.tar.bz2".to_string(),
            record("a", "1.0", Some(sha(payload_a))),
        )],
        conda_packages: vec![("b-2.0-0.conda".to_string(), record("b", "2.0", None))],
        removed: vec!["old-0.1-0.tar.bz2".to_string()],
        version: Some(1),
    }
}

fn keys(entries: &[(String, PackageRecord)]) -> Vec<String> {
    entries.iter().map(|p| p.0.clone()).collect()
}

/// Applies a plan to a simulated destination, the way the orchestrator
/// would: deletes first, then the verified additions.
fn apply_plan(
    plan: &SubdirPlan,
    store: &mut Vec<(String, Vec<u8>)>,
    payloads: &[(&str, &[u8])],
) -> Result<(), MirrorError> {
    for del in &plan.to_delete {
        store.retain(|e| &e.0 != del);
    }
    for (filename, rec) in &plan.to_add {
        let bytes: Vec<u8> = payloads
            .iter()
            .find(|p| p.0 == filename)
            .expect("payload served")
            .1
            .to_vec();
        check_fetched_package(filename, rec, &bytes)?;
        store.retain(|e| &e.0 != filename);
        store.push((filename.clone(), bytes));
    }
    Ok(())
}

#[test]
fn clean_mirror_file_to_file_mode_all() {
    let payload_a: &[u8] = b"archive-a-bytes";
    let payload_b: &[u8] = b"archive-b-bytes";
    let m = scenario_manifest(payload_a);
    assert!(check_partition(&m));
    let listing: Vec<(String, bool)> = Vec::new();
    let plan = plan_subdir(&m, &MirrorMode::All, &listing);

    assert!(plan.to_delete.is_empty());
    let mut added = keys(&plan.to_add);
    added.sort();
    assert_eq!(added, vec!["a-1.0-0.tar.bz2".to_string(), "b-2.0-0.conda".to_string()]);

    let mut store: Vec<(String, Vec<u8>)> = Vec::new();
    let payloads: Vec<(&str, &[u8])> =
        vec![("a-1.0-0.tar.bz2", payload_a), ("b-2.0-0.conda", payload_b)];
    apply_plan(&plan, &mut store, &payloads).expect("run succeeds");

    // both files copied, the hash of `a` verified on the way
    assert_eq!(store.len(), 2);
    assert!(store.iter().any(|e| e.0 == "a-1.0-0.tar.bz2" && e.1 == payload_a));
    assert!(store.iter().any(|e| e.0 == "b-2.0-0.conda" && e.1 == payload_b));

    // the emitted manifest partitions the kept set
    assert_eq!(keys(&plan.new_manifest.packages), vec!["a-1.0-0.tar.bz2".to_string()]);
    assert_eq!(keys(&plan.new_manifest.conda_packages), vec!["b-2.0-0.conda".to_string()]);

    // every emitted filename exists at the destination, and every archive at
    // the destination is an emitted key
    for k in keys(&plan.new_manifest.packages)
        .iter()
        .chain(keys(&plan.new_manifest.conda_packages).iter())
    {
        assert!(store.iter().any(|e| &e.0 == k));
    }
    for (name, _) in &store {
        assert!(
            plan.new_manifest.packages.iter().any(|e| &e.0 == name)
                || plan.new_manifest.conda_packages.iter().any(|e| &e.0 == name)
        );
    }

    // info, removed and the schema version round-trip unchanged
    assert_eq!(plan.new_manifest.info, m.info);
    assert_eq!(plan.new_manifest.removed, m.removed);
    assert_eq!(plan.new_manifest.version, m.version);
}

#[test]
fn idempotent_re_run() {
    let payload_a: &[u8] = b"archive-a-bytes";
    let payload_b: &[u8] = b"archive-b-bytes";
    let m = scenario_manifest(payload_a);
    let listing: Vec<(String, bool)> = Vec::new();
    let plan = plan_subdir(&m, &MirrorMode::All, &listing);
    let mut store: Vec<(String, Vec<u8>)> = Vec::new();
    let payloads: Vec<(&str, &[u8])> =
        vec![("a-1.0-0.tar.bz2", payload_a), ("b-2.0-0.conda", payload_b)];
    apply_plan(&plan, &mut store, &payloads).expect("first run succeeds");

    let listing2: Vec<(String, bool)> = store.iter().map(|e| (e.0.clone(), true)).collect();
    let plan2 = plan_subdir(&m, &MirrorMode::All, &listing2);
    assert!(plan2.to_delete.is_empty());
    assert!(plan2.to_add.is_empty());
    assert_eq!(keys(&plan2.new_manifest.packages), keys(&plan.new_manifest.packages));
    assert_eq!(keys(&plan2.new_manifest.conda_packages), keys(&plan.new_manifest.conda_packages));
    assert_eq!(plan2.new_manifest.info, plan.new_manifest.info);
    assert_eq!(plan2.new_manifest.removed, plan.new_manifest.removed);
    assert_eq!(plan2.new_manifest.version, plan.new_manifest.version);
}

#[test]
fn exclude_by_glob() {
    let payload_a: &[u8] = b"archive-a-bytes";
    let m = scenario_manifest(payload_a);
    let mode = MirrorMode::AllButExclude(vec![PackageConfig::PackageGlob {
        name_glob: GlobPattern("a*".to_string()),
        matchspec: None,
    }]);
    let listing: Vec<(String, bool)> = Vec::new();
    let plan = plan_subdir(&m, &mode, &listing);
    assert!(plan.to_delete.is_empty());
    assert_eq!(keys(&plan.to_add), vec!["b-2.0-0.conda".to_string()]);
    assert!(plan.new_manifest.packages.is_empty());
    assert_eq!(keys(&plan.new_manifest.conda_packages), vec!["b-2.0-0.conda".to_string()]);
}

#[test]
fn prune_stale() {
    let payload_a: &[u8] = b"archive-a-bytes";
    let m = scenario_manifest(payload_a);
    let listing: Vec<(String, bool)> = vec![("c-9.9-0.tar.bz2".to_string(), true)];
    let plan = plan_subdir(&m, &MirrorMode::All, &listing);
    assert_eq!(plan.to_delete, vec!["c-9.9-0.tar.bz2".to_string()]);
    assert!(!plan.new_manifest.packages.iter().any(|e| e.0 == "c-9.9-0.tar.bz2"));
    assert!(!plan.new_manifest.conda_packages.iter().any(|e| e.0 == "c-9.9-0.tar.bz2"));
}

#[test]
fn integrity_failure_names_the_file() {
    let advertised: &[u8] = b"what-the-manifest-promises";
    let served: &[u8] = b"what-the-server-delivers";
    let m = scenario_manifest(advertised);
    let listing: Vec<(String, bool)> = Vec::new();
    let plan = plan_subdir(&m, &MirrorMode::All, &listing);
    let mut store: Vec<(String, Vec<u8>)> = Vec::new();
    let payloads: Vec<(&str, &[u8])> =
        vec![("a-1.0-0.tar.bz2", served), ("b-2.0-0.conda", served)];
    let err = apply_plan(&plan, &mut store, &payloads).expect_err("mismatch must fail");
    match err {
        MirrorError::IntegrityError { filename } => assert_eq!(filename, "a-1.0-0.tar.bz2"),
        _ => panic!("expected an integrity error"),
    }
}

#[test]
fn package_without_hash_is_mirrored_unchecked() {
    let rec = record("b", "2.0", None);
    assert!(verify_package_bytes(&rec, &b"anything at all".to_vec()));
    let payload_a: &[u8] = b"archive-a-bytes";
    let m = scenario_manifest(payload_a);
    let plan = plan_subdir(&m, &MirrorMode::All, &Vec::new());
    // counted in both manifests: among the additions and among the emitted keys
    assert!(plan.to_add.iter().any(|e| e.0 == "b-2.0-0.conda"));
    assert!(plan.new_manifest.conda_packages.iter().any(|e| e.0 == "b-2.0-0.conda"));
}

#[test]
fn unrecognized_destination_files_are_left_alone() {
    let payload_a: &[u8] = b"archive-a-bytes";
    let m = scenario_manifest(payload_a);
    let listing: Vec<(String, bool)> = vec![
        ("readme.txt".to_string(), true),
        ("linux-64".to_string(), false),
        ("repodata.json".to_string(), true),
        ("c-9.9-0.tar.bz2".to_string(), true),
    ];
    let plan = plan_subdir(&m, &MirrorMode::All, &listing);
    // only the recognised stale archive is deleted; the rest is not touched
    assert_eq!(plan.to_delete, vec!["c-9.9-0.tar.bz2".to_string()]);
}

#[test]
fn empty_source_manifest_empties_the_destination() {
    let m = RepoData {
        info: Some("{}".to_string()),
        packages: Vec::new(),
        conda_packages: Vec::new(),
        removed: Vec::new(),
        version: Some(1),
    };
    let listing: Vec<(String, bool)> = vec![
        ("a-1.0-0.tar.bz2".to_string(), true),
        ("b-2.0-0.conda".to_string(), true),
        ("notes.txt".to_string(), true),
    ];
    let plan = plan_subdir(&m, &MirrorMode::All, &listing);
    let mut dels = plan.to_delete.clone();
    dels.sort();
    assert_eq!(dels, vec!["a-1.0-0.tar.bz2".to_string(), "b-2.0-0.conda".to_string()]);
    assert!(plan.new_manifest.packages.is_empty());
    assert!(plan.new_manifest.conda_packages.is_empty());
}

#[test]
fn duplicate_filenames_are_rejected() {
    let m = RepoData {
        info: None,
        packages: vec![
            ("x-1.0-0.tar.bz2".to_string(), record("x", "1.0", None)),
            ("x-1.0-0.tar.bz2".to_string(), record("x", "1.1", None)),
        ],
        conda_packages: Vec::new(),
        removed: Vec::new(),
        version: None,
    };
    assert!(!check_partition(&m));
}

#[test]
fn emitted_manifest_keeps_the_partition() {
    // a manifest whose maps are misfiled is rejected by the checker
    let bad = RepoData {
        info: None,
        packages: vec![("x-1.0-0.conda".to_string(), record("x", "1.0", None))],
        conda_packages: Vec::new(),
        removed: Vec::new(),
        version: None,
    };
    assert!(!check_partition(&bad));

    let payload_a: &[u8] = b"archive-a-bytes";
    let m = scenario_manifest(payload_a);
    let plan = plan_subdir(&m, &MirrorMode::All, &Vec::new());
    for (k, _) in &plan.new_manifest.packages {
        assert!(k.ends_with(".tar.bz2"));
    }
    for (k, _) in &plan.new_manifest.conda_packages {
        assert!(k.ends_with(".conda"));
    }
}
