use conda_mirror::archive::{archive_type_of, ArchiveType};
use conda_mirror::config::{
    classify_destination, destination_path, is_file_url, repodata_destination_path,
    CondaMirrorConfig, DestinationBackend, S3Credentials,
};
use conda_mirror::digest::verify_package_bytes;
use conda_mirror::error::MirrorError;
use conda_mirror::filter::MirrorMode;
use conda_mirror::platform::{select_subdirs, Platform};
use conda_mirror::record::PackageRecord;
use conda_mirror::task::{add_task_step, AddTaskEvent, AddTaskState};

#[test]
fn archive_types_by_extension() {
    assert_eq!(archive_type_of("a-1.0-0.tar.bz2"), Some(ArchiveType::TarBz2));
    assert_eq!(archive_type_of("b-2.0-0.conda"), Some(ArchiveType::Conda));
    assert_eq!(archive_type_of("readme.txt"), None);
    assert_eq!(archive_type_of("repodata.json"), None);
    assert_eq!(archive_type_of(".conda"), Some(ArchiveType::Conda));
    assert_eq!(archive_type_of("tar.bz2.zip"), None);
}

#[test]
fn sha256_matches_known_vector() {
    // SHA-256 of "abc"
    let expected: Vec<u8> = vec![
        0xba, 0x78, 0x16, 0xbf, 0x8f, 0x01, 0xcf, 0xea, 0x41, 0x41, 0x40, 0xde, 0x5d, 0xae,
        0x22, 0x23, 0xb0, 0x03, 0x61, 0xa3, 0x96, 0x17, 0x7a, 0x9c, 0xb4, 0x10, 0xff, 0x61,
        0xf2, 0x00, 0x15, 0xad,
    ];
    let rec = PackageRecord {
        name: "x".to_string(),
        version: "1.0".to_string(),
        build: "0".to_string(),
        build_number: 0,
        subdir: "noarch".to_string(),
        sha256: Some(expected),
        md5: None,
        size: None,
        depends: Vec::new(),
    };
    assert!(verify_package_bytes(&rec, &b"abc".to_vec()));
    assert!(!verify_package_bytes(&rec, &b"abd".to_vec()));
    assert!(!verify_package_bytes(&rec, &Vec::new()));
}

#[test]
fn platform_tags_round_trip() {
    assert_eq!(Platform::NoArch.as_str(), "noarch");
    assert_eq!(Platform::Linux64.as_str(), "linux-64");
    assert_eq!(Platform::OsxArm64.as_str(), "osx-arm64");
    for p in Platform::all() {
        assert_eq!(Platform::parse(p.as_str()), Some(p));
    }
    assert_eq!(Platform::parse("amiga-68k"), None);
    assert_eq!(Platform::all().len(), 34);
}

#[test]
fn subdir_discovery_takes_probed_platforms() {
    let mut probed: Vec<(Platform, bool)> = Vec::new();
    for p in Platform::all() {
        probed.push((p, p == Platform::NoArch || p == Platform::Linux64));
    }
    let chosen = select_subdirs(&None, &probed);
    assert_eq!(chosen, vec![Platform::NoArch, Platform::Linux64]);

    let explicit = vec![Platform::Win64];
    let chosen = select_subdirs(&Some(explicit.clone()), &probed);
    assert_eq!(chosen, explicit);
}

#[test]
fn urls_join_base_subdir_and_filename() {
    let config = CondaMirrorConfig {
        source: "file:///tmp/channel".to_string(),
        destination: "file:///tmp/mirror".to_string(),
        subdirs: None,
        mode: MirrorMode::All,
        s3_config_source: None,
        s3_config_destination: None,
        s3_credentials_source: None,
        s3_credentials_destination: None,
    };
    assert_eq!(config.platform_url(Platform::Linux64), "file:///tmp/channel/linux-64/");
    assert_eq!(
        config.repodata_url(Platform::NoArch),
        "file:///tmp/channel/noarch/repodata.json"
    );
    assert_eq!(
        config.package_url("a-1.0-0.tar.bz2", Platform::NoArch),
        "file:///tmp/channel/noarch/a-1.0-0.tar.bz2"
    );
    let with_slash = CondaMirrorConfig { source: "https://conda.example/ch/".to_string(), ..config };
    assert_eq!(with_slash.platform_url(Platform::Linux64), "https://conda.example/ch/linux-64/");
}

#[test]
fn destination_keys() {
    assert_eq!(destination_path(Platform::NoArch, "a-1.0-0.tar.bz2"), "noarch/a-1.0-0.tar.bz2");
    assert_eq!(repodata_destination_path(Platform::Linux64), "linux-64/repodata.json");
}

#[test]
fn destination_scheme_dispatch() {
    assert!(matches!(classify_destination("file:///tmp/x"), Ok(DestinationBackend::File)));
    assert!(matches!(classify_destination("s3://bucket/channel"), Ok(DestinationBackend::S3)));
    match classify_destination("https://conda.example/ch") {
        Err(MirrorError::UnsupportedSchemeError { url }) => {
            assert_eq!(url, "https://conda.example/ch")
        }
        _ => panic!("http destinations are refused"),
    }
    assert!(is_file_url("file:///tmp/x"));
    assert!(!is_file_url("s3://bucket/x"));
}

#[test]
fn credentials_render_redacted() {
    let with_token = S3Credentials {
        access_key_id: "AKIAEXAMPLE".to_string(),
        secret_access_key: "deeply-secret".to_string(),
        session_token: Some("session-secret".to_string()),
    };
    let rendered = with_token.redacted();
    assert_eq!(
        rendered,
        "S3Credentials { access_key_id: \"***\", secret_access_key: \"***\", session_token: Some(\"***\") }"
    );
    assert!(!rendered.contains("deeply-secret"));
    assert!(!rendered.contains("AKIAEXAMPLE"));
    assert!(!rendered.contains("session-secret"));
    let without_token = S3Credentials { session_token: None, ..with_token };
    assert_eq!(
        without_token.redacted(),
        "S3Credentials { access_key_id: \"***\", secret_access_key: \"***\", session_token: None }"
    );
}

#[test]
fn add_task_walks_its_states() {
    let s = AddTaskState::Pending;
    let s = add_task_step(s, AddTaskEvent::PermitAcquired);
    assert!(matches!(s, AddTaskState::Fetching));
    let s = add_task_step(s, AddTaskEvent::FetchOk);
    assert!(matches!(s, AddTaskState::Verifying));
    let s = add_task_step(s, AddTaskEvent::VerifyOk);
    assert!(matches!(s, AddTaskState::Writing));
    let s = add_task_step(s, AddTaskEvent::WriteOk);
    assert!(matches!(s, AddTaskState::Done));
    // terminal states absorb further events
    let s = add_task_step(s, AddTaskEvent::Cancel);
    assert!(matches!(s, AddTaskState::Done));

    let failed = add_task_step(
        AddTaskState::Fetching,
        AddTaskEvent::Failure(MirrorError::NetworkError("timeout".to_string())),
    );
    assert!(matches!(failed, AddTaskState::Failed(_)));
    let cancelled = add_task_step(AddTaskState::Verifying, AddTaskEvent::Cancel);
    assert!(matches!(cancelled, AddTaskState::Cancelled));
}
