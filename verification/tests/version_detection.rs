use tar_install::version::{
    clean_version, detect_installed_version, metadata_json_version, metadata_text_version, parse_version_from_text,
    DetectAction, DetectEvent, VersionProbeResult,
};

fn read_path(a: &DetectAction) -> String {
    match a {
        DetectAction::ReadMetadata(p) => p.clone(),
        other => panic!("expected a metadata read, got {:?}", other),
    }
}

#[test]
fn metadata_files_come_before_probes() {
    let (mut d, first) = detect_installed_version("/opt/app", "bin/app", "app", "app", "App");
    assert_eq!(read_path(&first), "/opt/app/product-info.json");
    let mut seen = vec![read_path(&first)];
    let mut action = d.step(DetectEvent::Missing);
    while let DetectAction::ReadMetadata(p) = &action {
        seen.push(p.clone());
        action = d.step(DetectEvent::Missing);
    }
    assert_eq!(
        seen,
        vec![
            "/opt/app/product-info.json",
            "/opt/app/package.json",
            "/opt/app/resources/app/package.json",
            "/opt/app/app/package.json",
            "/opt/app/VERSION",
            "/opt/app/VERSION.txt",
            "/opt/app/version.txt",
            "/opt/app/build.txt",
            "/opt/app/RELEASE",
        ]
    );
    match &action {
        DetectAction::CheckExecutable(p) => assert_eq!(p, "/opt/app/bin/app"),
        other => panic!("unexpected {:?}", other),
    }
    let mut probes: Vec<Vec<String>> = Vec::new();
    action = d.step(DetectEvent::ExecutableIsFile(true));
    while let DetectAction::RunProbe(args) = &action {
        probes.push(args.clone());
        action = d.step(DetectEvent::ProbeOutput(None));
    }
    assert_eq!(
        probes,
        vec![
            vec!["--version".to_string()],
            vec!["-version".to_string()],
            vec!["-v".to_string()],
            vec!["version".to_string()],
            vec!["-V".to_string()],
            vec![],
        ]
    );
    match action {
        DetectAction::Done(Ok(None)) => {}
        other => panic!("unexpected {:?}", other),
    }
}

#[test]
fn first_probe_that_prints_a_version_wins() {
    let (mut d, _) = detect_installed_version("/opt/app", "app", "app", "app", "App");
    for _ in 0..9 {
        d.step(DetectEvent::Missing);
    }
    d.step(DetectEvent::ExecutableIsFile(true));
    let next = d.step(DetectEvent::ProbeOutput(Some("unknown option".to_string())));
    assert!(matches!(next, DetectAction::RunProbe(_)));
    match d.step(DetectEvent::ProbeOutput(Some("app 3.1.4\n".to_string()))) {
        DetectAction::Done(Ok(Some(found))) => assert_eq!(
            found,
            VersionProbeResult { version: "3.1.4".to_string(), source: "/opt/app/app -version".to_string() }
        ),
        other => panic!("unexpected {:?}", other),
    }
}

#[test]
fn metadata_version_ends_detection() {
    let (mut d, _) = detect_installed_version("/opt/idea", "bin/idea.sh", "idea", "idea", "IDEA");
    match d.step(DetectEvent::Text("{\"name\":\"IDEA\",\"buildNumber\":\"241.14494.240\"}".to_string())) {
        DetectAction::Done(Ok(Some(found))) => {
            assert_eq!(found.version, "241.14494.240");
            assert_eq!(found.source, "product-info.json:buildNumber");
        }
        other => panic!("unexpected {:?}", other),
    }
}

#[test]
fn read_failure_and_missing_executable_end_detection() {
    let (mut d, _) = detect_installed_version("/opt/app", "app", "app", "app", "App");
    match d.step(DetectEvent::Failed("permission denied".to_string())) {
        DetectAction::Done(Err(m)) => assert_eq!(m, "permission denied"),
        other => panic!("unexpected {:?}", other),
    }
    let (mut d, _) = detect_installed_version("/opt/app", "app", "app", "app", "App");
    for _ in 0..9 {
        d.step(DetectEvent::Missing);
    }
    assert!(matches!(d.step(DetectEvent::ExecutableIsFile(false)), DetectAction::Done(Ok(None))));
}

#[test]
fn json_metadata_versions() {
    let found = metadata_json_version("package.json", "{\"name\":\"x\",\"version\":\"v2.3.4\"}").expect("found");
    assert_eq!(found.version, "2.3.4");
    assert_eq!(found.source, "package.json");
    assert_eq!(metadata_json_version("package.json", "not json"), None);
    assert_eq!(metadata_json_version("package.json", "   \n"), None);
    assert_eq!(metadata_json_version("package.json", "{\"version\": 3}"), None);
}

#[test]
fn text_metadata_versions() {
    let found = metadata_text_version("VERSION", "1.4.2\n").expect("found");
    assert_eq!(found.version, "1.4.2");
    assert_eq!(found.source, "VERSION");
    assert_eq!(metadata_text_version("RELEASE", "stable"), None);
}

#[test]
fn cleaned_versions() {
    assert_eq!(clean_version("  'v1.2.3' ").as_deref(), Some("1.2.3"));
    assert_eq!(clean_version("\"2024.1\"").as_deref(), Some("2024.1"));
    assert_eq!(clean_version("nightly").as_deref(), Some("nightly"));
    assert_eq!(clean_version("vNext").as_deref(), Some("Next"));
    assert_eq!(clean_version("  ").as_deref(), None);
}

#[test]
fn versions_lose_their_v_prefix_and_first_high_score_wins() {
    assert_eq!(parse_version_from_text("Version V2.0.1", "", "", "").as_deref(), Some("2.0.1"));
    assert_eq!(parse_version_from_text("tool 1.0.0\ntool version 2.0.0", "tool", "tool", "Tool").as_deref(), Some("1.0.0"));
    assert_eq!(parse_version_from_text("1.0.0 and 2.0.0", "", "", "").as_deref(), Some("1.0.0"));
    assert_eq!(parse_version_from_text("Copyright 2020.1.1", "", "", "").as_deref(), None);
    assert_eq!(parse_version_from_text("build 20260519123456.1", "", "", "").as_deref(), None);
    assert_eq!(parse_version_from_text("no digits here", "", "", ""), None);
}

#[test]
fn reading_limits() {
    assert_eq!(tar_install::version::MAX_METADATA_BYTES, 512 * 1024);
    assert_eq!(tar_install::version::MAX_PROBE_OUTPUT_BYTES, 128 * 1024);
    assert_eq!(tar_install::version::PROBE_TIMEOUT_MILLIS, 3000);
    assert_eq!(tar_install::install::MAX_EMBEDDED_RECIPE_BYTES, 64 * 1024);
}
